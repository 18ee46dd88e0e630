//! Escaping of the frame delimiter inside a frame, in both directions.
//!
//! On the wire a frame ends with the delimiter `0xC0`. Inside a frame the
//! pair `0xDB 0xDC` stands for `0xC0` and the pair `0xDB 0xDD` for `0xDB`.

use vstd::prelude::*;

verus! {

/// Frame delimiter on the wire.
pub const DELIMITER: u8 = 0xC0;

/// Escape byte.
pub const ESCAPE: u8 = 0xDB;

/// Second byte of the pair that stands for a delimiter.
pub const ESCAPED_DELIMITER: u8 = 0xDC;

/// Second byte of the pair that stands for an escape byte.
pub const ESCAPED_ESCAPE: u8 = 0xDD;

/// Whether `s` starts with a complete escape pair.
pub open spec fn starts_with_pair(s: Seq<u8>) -> bool {
    s.len() >= 2 && s[0] == ESCAPE && (s[1] == ESCAPED_DELIMITER || s[1] == ESCAPED_ESCAPE)
}

/// The decoded form of a raw frame. An escape byte that no pair completes
/// stands for itself.
pub open spec fn unstuffed(s: Seq<u8>) -> Seq<u8>
    decreases s.len(),
{
    if s.len() == 0 {
        Seq::empty()
    } else if starts_with_pair(s) {
        let byte = if s[1] == ESCAPED_DELIMITER {
            DELIMITER
        } else {
            ESCAPE
        };
        seq![byte] + unstuffed(s.subrange(2, s.len() as int))
    } else {
        seq![s[0]] + unstuffed(s.subrange(1, s.len() as int))
    }
}

/// What one byte becomes when it is escaped.
pub open spec fn stuffed_byte(b: u8) -> Seq<u8> {
    if b == DELIMITER {
        seq![ESCAPE, ESCAPED_DELIMITER]
    } else if b == ESCAPE {
        seq![ESCAPE, ESCAPED_ESCAPE]
    } else {
        seq![b]
    }
}

/// The escaped form of a buffer.
pub open spec fn stuffed(s: Seq<u8>) -> Seq<u8>
    decreases s.len(),
{
    if s.len() == 0 {
        Seq::empty()
    } else {
        stuffed_byte(s[0]) + stuffed(s.subrange(1, s.len() as int))
    }
}

/// Decoding never makes a frame longer, nor shorter than half.
pub proof fn lemma_unstuffed_len(s: Seq<u8>)
    ensures
        unstuffed(s).len() <= s.len(),
        2 * unstuffed(s).len() >= s.len(),
    decreases s.len(),
{
    if s.len() == 0 {
    } else if starts_with_pair(s) {
        lemma_unstuffed_len(s.subrange(2, s.len() as int));
    } else {
        lemma_unstuffed_len(s.subrange(1, s.len() as int));
    }
}

/// A frame without an escape byte decodes to itself.
pub proof fn lemma_unstuffed_plain(s: Seq<u8>)
    requires
        forall|i: int| 0 <= i < s.len() ==> s[i] != ESCAPE,
    ensures
        unstuffed(s) == s,
    decreases s.len(),
{
    if s.len() > 0 {
        let rest = s.subrange(1, s.len() as int);
        assert forall|i: int| 0 <= i < rest.len() implies rest[i] != ESCAPE by {
            assert(rest[i] == s[i + 1]);
        }
        lemma_unstuffed_plain(rest);
        assert(seq![s[0]] + rest =~= s);
    }
}

/// Escaping adds one byte for each delimiter and each escape byte.
pub proof fn lemma_stuffed_len(s: Seq<u8>)
    ensures
        s.len() <= stuffed(s).len() <= 2 * s.len(),
    decreases s.len(),
{
    if s.len() > 0 {
        lemma_stuffed_len(s.subrange(1, s.len() as int));
    }
}

/// Escaping goes through a concatenation.
pub proof fn lemma_stuffed_concat(a: Seq<u8>, b: Seq<u8>)
    ensures
        stuffed(a + b) == stuffed(a) + stuffed(b),
    decreases a.len(),
{
    if a.len() == 0 {
        assert(a + b =~= b);
    } else {
        let rest = a.subrange(1, a.len() as int);
        lemma_stuffed_concat(rest, b);
        assert((a + b).subrange(1, (a + b).len() as int) =~= rest + b);
    }
}

/// An escaped buffer holds no delimiter, so it can be framed by delimiters.
pub proof fn lemma_stuffed_has_no_delimiter(s: Seq<u8>)
    ensures
        forall|i: int| 0 <= i < stuffed(s).len() ==> stuffed(s)[i] != DELIMITER,
    decreases s.len(),
{
    if s.len() > 0 {
        let first = stuffed_byte(s[0]);
        let rest = stuffed(s.subrange(1, s.len() as int));
        lemma_stuffed_has_no_delimiter(s.subrange(1, s.len() as int));
        assert forall|i: int| 0 <= i < stuffed(s).len() implies stuffed(s)[i] != DELIMITER by {
            if i < first.len() {
                assert(stuffed(s)[i] == first[i]);
            } else {
                assert(stuffed(s)[i] == rest[i - first.len()]);
            }
        }
    }
}

/// The escaped form of a single byte.
proof fn lemma_stuffed_single(b: u8)
    ensures
        stuffed(seq![b]) == stuffed_byte(b),
{
    let s = seq![b];
    assert(stuffed(s.subrange(1, s.len() as int)) =~= Seq::<u8>::empty());
}

/// Decoding an escaped byte followed by anything gives the byte back and
/// goes on behind it.
proof fn lemma_unstuffed_after_stuffed_byte(b: u8, rest: Seq<u8>)
    ensures
        unstuffed(stuffed_byte(b) + rest) == seq![b] + unstuffed(rest),
{
    let s = stuffed_byte(b) + rest;
    if b == DELIMITER || b == ESCAPE {
        assert(s.subrange(2, s.len() as int) =~= rest);
    } else {
        assert(s.subrange(1, s.len() as int) =~= rest);
    }
}

/// Round trip: decoding what escaping produced gives the buffer back,
/// whatever bytes it holds.
pub proof fn lemma_unstuff_stuff(x: Seq<u8>)
    ensures
        unstuffed(stuffed(x)) == x,
    decreases x.len(),
{
    if x.len() > 0 {
        let rest = x.subrange(1, x.len() as int);
        lemma_unstuff_stuff(rest);
        lemma_unstuffed_after_stuffed_byte(x[0], stuffed(rest));
        assert(seq![x[0]] + rest =~= x);
    }
}

/// Whether `s` is in escaped form: it holds no delimiter, and each of its
/// escape bytes starts a complete pair.
pub open spec fn is_escaped(s: Seq<u8>) -> bool
    decreases s.len(),
{
    if s.len() == 0 {
        true
    } else if starts_with_pair(s) {
        is_escaped(s.subrange(2, s.len() as int))
    } else {
        s[0] != DELIMITER && s[0] != ESCAPE && is_escaped(s.subrange(1, s.len() as int))
    }
}

/// What escaping produces is in escaped form.
pub proof fn lemma_stuffed_is_escaped(x: Seq<u8>)
    ensures
        is_escaped(stuffed(x)),
    decreases x.len(),
{
    if x.len() > 0 {
        let rest = stuffed(x.subrange(1, x.len() as int));
        let s = stuffed_byte(x[0]) + rest;
        lemma_stuffed_is_escaped(x.subrange(1, x.len() as int));
        if x[0] == DELIMITER || x[0] == ESCAPE {
            assert(s.subrange(2, s.len() as int) =~= rest);
        } else {
            assert(s.subrange(1, s.len() as int) =~= rest);
        }
    }
}

/// Round trip the other way: escaping what was decoded gives the frame
/// back, if the frame was in escaped form. So escaping and decoding match
/// the byte sequences one to one with the sequences in escaped form.
pub proof fn lemma_stuff_unstuff(s: Seq<u8>)
    requires
        is_escaped(s),
    ensures
        stuffed(unstuffed(s)) == s,
    decreases s.len(),
{
    if s.len() > 0 {
        let step: int = if starts_with_pair(s) {
            2
        } else {
            1
        };
        let rest = s.subrange(step, s.len() as int);
        let decoded = unstuffed(s);
        lemma_stuff_unstuff(rest);
        assert(decoded.subrange(1, decoded.len() as int) =~= unstuffed(rest));
        assert(stuffed_byte(decoded[0]) + rest =~= s);
    }
}

/// Decodes a raw frame: replaces each escape pair by the byte it stands
/// for and copies every other byte.
pub fn byte_stuffing(byte_buffer: &[u8]) -> (buffer_stuff: Vec<u8>)
    ensures
        buffer_stuff@ == unstuffed(byte_buffer@),
        buffer_stuff@.len() <= byte_buffer@.len(),
{
    let mut buffer_stuff: Vec<u8> = Vec::new();
    let mut i: usize = 0;
    let n: usize = byte_buffer.len();
    assert(byte_buffer@.subrange(0, n as int) =~= byte_buffer@);
    while i < n
        invariant
            i <= n,
            n == byte_buffer@.len(),
            buffer_stuff@ + unstuffed(byte_buffer@.subrange(i as int, n as int)) == unstuffed(
                byte_buffer@,
            ),
        decreases n - i,
    {
        let ghost tail = byte_buffer@.subrange(i as int, n as int);
        if byte_buffer[i] == ESCAPE && i + 1 < n && (byte_buffer[i + 1] == ESCAPED_DELIMITER
            || byte_buffer[i + 1] == ESCAPED_ESCAPE) {
            let byte: u8 = if byte_buffer[i + 1] == ESCAPED_DELIMITER {
                DELIMITER
            } else {
                ESCAPE
            };
            buffer_stuff.push(byte);
            assert(tail.subrange(2, tail.len() as int) =~= byte_buffer@.subrange(
                i + 2,
                n as int,
            ));
            i += 2;
        } else {
            let byte: u8 = byte_buffer[i];
            buffer_stuff.push(byte);
            assert(tail.subrange(1, tail.len() as int) =~= byte_buffer@.subrange(
                i + 1,
                n as int,
            ));
            i += 1;
        }
    }
    proof {
        lemma_unstuffed_len(byte_buffer@);
    }
    buffer_stuff
}

/// Escapes a command in place before it is sent: each delimiter becomes
/// the pair that stands for it, and each escape byte is followed by the
/// byte that completes its pair.
pub fn request_byte_stuffing(command_request: &mut Vec<u8>)
    ensures
        final(command_request)@ == stuffed(old(command_request)@),
{
    let ghost plain = command_request@;
    let ghost mut done: int = 0;
    let mut i: usize = 0;
    while i < command_request.len()
        invariant
            0 <= done <= plain.len(),
            i == stuffed(plain.subrange(0, done)).len(),
            command_request@ == stuffed(plain.subrange(0, done)) + plain.subrange(
                done,
                plain.len() as int,
            ),
        decreases plain.len() - done,
    {
        let byte: u8 = command_request[i];
        proof {
            lemma_stuffed_concat(plain.subrange(0, done), seq![byte]);
            assert(plain.subrange(0, done) + seq![byte] =~= plain.subrange(0, done + 1));
            lemma_stuffed_single(byte);
        }
        if byte == DELIMITER {
            command_request.set(i, ESCAPE);
            command_request.insert(i + 1, ESCAPED_DELIMITER);
            assert(i + 2 <= command_request.len());
            i += 2;
        } else if byte == ESCAPE {
            command_request.insert(i + 1, ESCAPED_ESCAPE);
            assert(i + 2 <= command_request.len());
            i += 2;
        } else {
            i += 1;
        }
        proof {
            done = done + 1;
        }
    }
    assert(plain.subrange(0, plain.len() as int) =~= plain);
}

} // verus!
