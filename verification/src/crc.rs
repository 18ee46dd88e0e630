//! Cyclic redundancy checks of sixteen bits, computed bit by bit with the
//! high bit first. The generator polynomial and the start value are the
//! caller's: they have to be those of the device that sends the packets.

use vstd::prelude::*;

verus! {

/// The register after one bit has been shifted out.
pub open spec fn shifted_once(register: u16, polynomial: u16) -> u16 {
    if register & 0x8000 != 0 {
        (register << 1) ^ polynomial
    } else {
        register << 1
    }
}

/// The register after `bits` bits have been shifted out.
pub open spec fn shifted(register: u16, polynomial: u16, bits: nat) -> u16
    decreases bits,
{
    if bits == 0 {
        register
    } else {
        shifted_once(shifted(register, polynomial, (bits - 1) as nat), polynomial)
    }
}

/// The register after one byte has been taken in.
pub open spec fn with_byte(register: u16, byte: u8, polynomial: u16) -> u16 {
    shifted(register ^ ((byte as u16) << 8), polynomial, 8)
}

/// The check value of `data`: the register after every byte has been
/// taken in, in order, starting from `initial`.
pub open spec fn crc16_of(data: Seq<u8>, polynomial: u16, initial: u16) -> u16
    decreases data.len(),
{
    if data.len() == 0 {
        initial
    } else {
        with_byte(crc16_of(data.drop_last(), polynomial, initial), data.last(), polynomial)
    }
}

/// The check value of data that is read in two pieces.
pub proof fn lemma_crc16_concat(a: Seq<u8>, b: Seq<u8>, polynomial: u16, initial: u16)
    ensures
        crc16_of(a + b, polynomial, initial) == crc16_of(
            b,
            polynomial,
            crc16_of(a, polynomial, initial),
        ),
    decreases b.len(),
{
    if b.len() == 0 {
        assert(a + b =~= a);
    } else {
        lemma_crc16_concat(a, b.drop_last(), polynomial, initial);
        assert((a + b).drop_last() =~= a + b.drop_last());
    }
}

/// Eight shifts of a register whose high byte is zero move its low byte
/// up and bring in nothing.
proof fn lemma_shifted_low_byte(register: u16, polynomial: u16)
    requires
        register < 256,
    ensures
        shifted(register, polynomial, 8) == register << 8,
{
    reveal_with_fuel(shifted, 9);
    assert(register < 256 ==> {
        let r1 = register << 1;
        let r2 = r1 << 1;
        let r3 = r2 << 1;
        let r4 = r3 << 1;
        let r5 = r4 << 1;
        let r6 = r5 << 1;
        let r7 = r6 << 1;
        &&& register & 0x8000 == 0
        &&& r1 & 0x8000 == 0
        &&& r2 & 0x8000 == 0
        &&& r3 & 0x8000 == 0
        &&& r4 & 0x8000 == 0
        &&& r5 & 0x8000 == 0
        &&& r6 & 0x8000 == 0
        &&& r7 & 0x8000 == 0
        &&& r7 << 1 == register << 8
    }) by (bit_vector);
}

/// Data followed by its own check value, high byte first, has the check
/// value zero.
pub proof fn lemma_crc16_residue(data: Seq<u8>, polynomial: u16, initial: u16)
    ensures
        ({
            let code = crc16_of(data, polynomial, initial);
            crc16_of(data.push((code >> 8) as u8).push((code & 0xFF) as u8), polynomial, initial)
                == 0
        }),
{
    let code = crc16_of(data, polynomial, initial);
    let high = (code >> 8) as u8;
    let low = (code & 0xFF) as u8;
    let first = data.push(high);
    let both = first.push(low);
    assert(first.drop_last() =~= data);
    assert(both.drop_last() =~= first);
    let cleared = code ^ ((high as u16) << 8);
    assert(cleared < 256 && cleared << 8 == (low as u16) << 8) by (bit_vector)
        requires
            high == (code >> 8) as u8,
            low == (code & 0xFF) as u8,
            cleared == code ^ ((high as u16) << 8),
    ;
    lemma_shifted_low_byte(cleared, polynomial);
    let after_high = cleared << 8;
    assert(crc16_of(first, polynomial, initial) == after_high);
    assert(after_high ^ ((low as u16) << 8) == 0) by (bit_vector)
        requires
            after_high == (low as u16) << 8,
    ;
    lemma_shifted_low_byte(0, polynomial);
    assert(0u16 << 8 == 0) by (bit_vector);
}

/// Takes one byte into the register.
fn update(register: u16, byte: u8, polynomial: u16) -> (next: u16)
    ensures
        next == with_byte(register, byte, polynomial),
{
    let mut next: u16 = register ^ ((byte as u16) << 8);
    let mut bit: u8 = 0;
    while bit < 8
        invariant
            bit <= 8,
            next == shifted(register ^ ((byte as u16) << 8), polynomial, bit as nat),
        decreases 8 - bit,
    {
        if next & 0x8000 != 0 {
            next = (next << 1) ^ polynomial;
        } else {
            next = next << 1;
        }
        bit += 1;
    }
    next
}

/// Computes the check value of `data` for a generator polynomial and a
/// start value.
pub fn crc16(data: &[u8], polynomial: u16, initial: u16) -> (code: u16)
    ensures
        code == crc16_of(data@, polynomial, initial),
{
    let mut code: u16 = initial;
    let n: usize = data.len();
    let mut i: usize = 0;
    while i < n
        invariant
            i <= n,
            n == data@.len(),
            code == crc16_of(data@.subrange(0, i as int), polynomial, initial),
        decreases n - i,
    {
        assert(data@.subrange(0, i + 1).drop_last() =~= data@.subrange(0, i as int));
        code = update(code, data[i], polynomial);
        i += 1;
    }
    assert(data@.subrange(0, n as int) =~= data@);
    code
}

} // verus!
