//! Packet decoding, classification and the sorting pipeline with its
//! running counters.

use vstd::prelude::*;
use crate::linear11::Linear11;
use crate::linear11::from_linear11_f;
use crate::linear11::linear11_of;
use crate::byte_stuffing::byte_stuffing;
use crate::byte_stuffing::unstuffed;
use vstd::slice::slice_subrange;
use vstd::arithmetic::power2::pow2;
use vstd::arithmetic::power2::lemma2_to64;

verus! {

/// Shortest decoded frame that carries all the fields of a packet.
pub const MIN_PACKAGE_LEN: usize = 14;

/// Package type of a parameter report.
pub const PARAMETER_REPORT: u16 = 0x8000;

/// Category of a temperature measurement.
pub const TEMPERATURE: i32 = 1;

/// Category of a system parameter.
pub const SYSTEM: i32 = 2;

/// Category of a power usage parameter.
pub const POWER_USAGE: i32 = 3;

/// Category of everything that no other rule claims.
pub const OVERVIEW: i32 = 4;

/// Category of a control packet.
pub const CONTROL: i32 = 5;

/// The 16-bit word whose low byte is `low` and whose high byte is `high`.
pub open spec fn word_le(low: u8, high: u8) -> u16 {
    (low as int + 256 * high as int) as u16
}

/// The 16-bit word that `input` holds at `offset`, low byte first.
pub open spec fn word_at(input: Seq<u8>, offset: int) -> u16 {
    word_le(input[offset], input[offset + 1])
}

/// The value of the bits `first` to `last` of `word`, bit 0 being the lowest.
pub open spec fn bits(word: u16, first: nat, last: nat) -> int {
    (word as int / pow2(first) as int) % pow2((last - first + 1) as nat) as int
}

/// The fields of one packet.
#[derive(Clone, Copy, Debug, PartialEq, Eq, Structural)]
pub struct PackageStruct {
    /// Address word.
    pub addr: u16,
    /// Module address, bits 0 to 6 of the address word.
    pub module_addr: u8,
    /// MCU part of the module address, its bits 0 to 2.
    pub module_addr_mcu: u8,
    /// BM part of the module address, its bits 3 to 6.
    pub module_addr_bm: u8,
    /// Module identifier, bits 7 to 10 of the address word.
    pub module_id: u8,
    /// Package type.
    pub package_type: u16,
    /// Source word.
    pub src: u16,
    /// Device identifier, bits 0 to 6 of the source word.
    pub dev_id: u8,
    /// Power line, bits 7 to 10 of the source word.
    pub pwr_line: u8,
    /// Source identifier, bits 11 to 15 of the source word.
    pub src_id: u8,
    /// Remote transmission request, bit 15 of the source word.
    pub rtr: bool,
    /// Data type word.
    pub data_type: u16,
    /// Parameter identifier, bits 0 to 9 of the data type word.
    pub prm_id: u16,
    /// Alarm flags, bits 10 to 13 of the data type word.
    pub alarms: u8,
    /// Parameter type, bits 14 and 15 of the data type word.
    pub prm_type: u8,
    /// Parameter value as a Linear11 word.
    pub prm: u16,
    /// Upper limit of the parameter as a Linear11 word.
    pub prm_max: u16,
    /// Lower limit of the parameter as a Linear11 word.
    pub prm_min: u16,
    /// Decoded parameter value.
    pub temperature: Linear11,
    /// Decoded upper limit.
    pub temp_max: Linear11,
    /// Decoded lower limit.
    pub temp_min: Linear11,
}

impl PackageStruct {
    /// The packet with every field zero or false.
    pub open spec fn zeroed() -> PackageStruct {
        PackageStruct {
            addr: 0,
            module_addr: 0,
            module_addr_mcu: 0,
            module_addr_bm: 0,
            module_id: 0,
            package_type: 0,
            src: 0,
            dev_id: 0,
            pwr_line: 0,
            src_id: 0,
            rtr: false,
            data_type: 0,
            prm_id: 0,
            alarms: 0,
            prm_type: 0,
            prm: 0,
            prm_max: 0,
            prm_min: 0,
            temperature: Linear11 { mantissa: 0, exponent: 0 },
            temp_max: Linear11 { mantissa: 0, exponent: 0 },
            temp_min: Linear11 { mantissa: 0, exponent: 0 },
        }
    }

    /// The packet that a decoded frame of at least fourteen bytes carries.
    pub open spec fn from_words(input: Seq<u8>) -> PackageStruct {
        let addr = word_at(input, 0);
        let src = word_at(input, 4);
        let data_type = word_at(input, 6);
        PackageStruct {
            addr,
            module_addr: bits(addr, 0, 6) as u8,
            module_addr_mcu: bits(addr, 0, 2) as u8,
            module_addr_bm: bits(addr, 3, 6) as u8,
            module_id: bits(addr, 7, 10) as u8,
            package_type: word_at(input, 2),
            src,
            dev_id: bits(src, 0, 6) as u8,
            pwr_line: bits(src, 7, 10) as u8,
            src_id: bits(src, 11, 15) as u8,
            rtr: bits(src, 15, 15) == 1,
            data_type,
            prm_id: bits(data_type, 0, 9) as u16,
            alarms: bits(data_type, 10, 13) as u8,
            prm_type: bits(data_type, 14, 15) as u8,
            prm: word_at(input, 8),
            prm_max: word_at(input, 10),
            prm_min: word_at(input, 12),
            temperature: linear11_of(word_at(input, 8)),
            temp_max: linear11_of(word_at(input, 10)),
            temp_min: linear11_of(word_at(input, 12)),
        }
    }

    /// The packet that a decoded frame carries: its fields where the frame
    /// is long enough, zeroes where it is not.
    pub open spec fn decoded(input: Seq<u8>) -> PackageStruct {
        if input.len() < MIN_PACKAGE_LEN {
            Self::zeroed()
        } else {
            Self::from_words(input)
        }
    }
}

/// Whether a packet is a parameter report of a monitored sensor. The
/// classifier asks this before anything else, and the device identifier
/// then decides between temperature and control.
pub open spec fn is_sensor_report(ps: PackageStruct) -> bool {
    &&& ps.module_addr_mcu == 1 || ps.module_addr_mcu == 2
    &&& ps.module_id == 2
    &&& ps.module_addr_bm <= 15
    &&& ps.package_type == PARAMETER_REPORT
    &&& ps.prm_type <= 2
    &&& ps.src_id == 2 || ps.src_id == 3
    &&& 10 <= ps.prm_id <= 12
}

/// The category of a packet. The rules are tried in order and the first
/// that matches decides.
pub open spec fn category_of(ps: PackageStruct) -> i32 {
    if is_sensor_report(ps) {
        if 1 <= ps.dev_id <= 6 {
            TEMPERATURE
        } else {
            CONTROL
        }
    } else if ps.package_type == PARAMETER_REPORT && ps.prm_id == 20 {
        SYSTEM
    } else if ps.package_type == PARAMETER_REPORT && ps.prm_id == 30 {
        POWER_USAGE
    } else if ps.dev_id > 6 || ps.module_addr_bm > 15 {
        CONTROL
    } else {
        OVERVIEW
    }
}

/// Whether two packets agree on every field that the classifier reads.
pub open spec fn same_classifier_fields(a: PackageStruct, b: PackageStruct) -> bool {
    &&& a.module_addr_mcu == b.module_addr_mcu
    &&& a.module_addr_bm == b.module_addr_bm
    &&& a.module_id == b.module_id
    &&& a.package_type == b.package_type
    &&& a.prm_type == b.prm_type
    &&& a.src_id == b.src_id
    &&& a.prm_id == b.prm_id
    &&& a.dev_id == b.dev_id
}

/// Every packet has exactly one category, and it is one of the five.
pub proof fn lemma_category_is_total(ps: PackageStruct)
    ensures
        TEMPERATURE <= category_of(ps) <= CONTROL,
{
}

/// The category is a function of the packet: packets that agree on the
/// fields that the classifier reads have the same category, and so equal
/// packets do.
pub proof fn lemma_category_is_deterministic(a: PackageStruct, b: PackageStruct)
    requires
        same_classifier_fields(a, b),
    ensures
        category_of(a) == category_of(b),
{
}

/// A frame too short to carry the fields of a packet falls into the
/// default category.
pub proof fn lemma_short_frame_is_overview(input: Seq<u8>)
    requires
        input.len() < MIN_PACKAGE_LEN,
    ensures
        PackageStruct::decoded(input) == PackageStruct::zeroed(),
        category_of(PackageStruct::decoded(input)) == OVERVIEW,
{
}

/// The bit fields of the three packed words, by division and remainder.
proof fn lemma_bits_by_division(word: u16)
    ensures
        bits(word, 0, 6) == word % 128,
        bits(word, 0, 2) == word % 8,
        bits(word, 3, 6) == (word / 8) % 16,
        bits(word, 7, 10) == (word / 128) % 16,
        bits(word, 11, 15) == word / 2048,
        bits(word, 15, 15) == word / 32768,
        bits(word, 0, 9) == word % 1024,
        bits(word, 10, 13) == (word / 1024) % 16,
        bits(word, 14, 15) == word / 16384,
{
    lemma2_to64();
    assert((word as int / 2048) % 32 == word as int / 2048);
    assert((word as int / 32768) % 2 == word as int / 32768);
    assert((word as int / 16384) % 4 == word as int / 16384);
}

/// The two parts of a module address, taken from the address word or
/// from the module address, are the same.
proof fn lemma_module_address_parts(addr: u16)
    ensures
        addr % 8 == (addr % 128) % 8,
        (addr / 8) % 16 == (addr % 128) / 8,
{
    assert(addr % 8 == (addr % 128) % 8) by (bit_vector);
    assert((addr / 8) % 16 == (addr % 128) / 8) by (bit_vector);
}

/// The fields of a packet that was decoded from a frame long enough, as
/// numbers: each is the value of its bits in its word.
pub proof fn lemma_decoded_fields(input: Seq<u8>)
    requires
        input.len() >= MIN_PACKAGE_LEN,
    ensures
        ({
            let ps = PackageStruct::decoded(input);
            &&& ps.addr == input[0] + 256 * input[1]
            &&& ps.package_type == input[2] + 256 * input[3]
            &&& ps.src == input[4] + 256 * input[5]
            &&& ps.data_type == input[6] + 256 * input[7]
            &&& ps.prm == input[8] + 256 * input[9]
            &&& ps.prm_max == input[10] + 256 * input[11]
            &&& ps.prm_min == input[12] + 256 * input[13]
            &&& ps.module_addr == ps.addr % 128
            &&& ps.module_addr_mcu == ps.module_addr % 8
            &&& ps.module_addr_bm == ps.module_addr / 8
            &&& ps.module_id == (ps.addr / 128) % 16
            &&& ps.dev_id == ps.src % 128
            &&& ps.pwr_line == (ps.src / 128) % 16
            &&& ps.src_id == ps.src / 2048
            &&& ps.rtr == (ps.src >= 32768)
            &&& ps.prm_id == ps.data_type % 1024
            &&& ps.alarms == (ps.data_type / 1024) % 16
            &&& ps.prm_type == ps.data_type / 16384
            &&& ps.temperature == linear11_of(ps.prm)
            &&& ps.temp_max == linear11_of(ps.prm_max)
            &&& ps.temp_min == linear11_of(ps.prm_min)
        }),
{
    let ps = PackageStruct::decoded(input);
    lemma_bits_by_division(ps.addr);
    lemma_module_address_parts(ps.addr);
    lemma_bits_by_division(ps.src);
    lemma_bits_by_division(ps.data_type);
}

/// In a packet that was decoded from a frame the BM address has four bits,
/// so it is never out of range.
pub proof fn lemma_decoded_bm_in_range(input: Seq<u8>)
    ensures
        PackageStruct::decoded(input).module_addr_bm <= 15,
{
    if input.len() >= MIN_PACKAGE_LEN {
        lemma_address_fields(word_at(input, 0));
    }
}

/// Reads the 16-bit word at `offset`, low byte first.
fn read_word(input: &[u8], offset: usize) -> (word: u16)
    requires
        offset + 1 < input@.len(),
    ensures
        word == word_at(input@, offset as int),
{
    let low: u8 = input[offset];
    let high: u8 = input[offset + 1];
    let word: u16 = ((high as u16) << 8) | (low as u16);
    assert(word == low + 256 * high) by (bit_vector)
        requires
            word == ((high as u16) << 8) | (low as u16),
    ;
    word
}

/// The bit fields of an address word, as shifts and masks give them.
proof fn lemma_address_fields(addr: u16)
    ensures
        addr & 0x007F == bits(addr, 0, 6),
        ((addr & 0x007F) as u8 as u16 & 0x0007) == bits(addr, 0, 2),
        ((addr & 0x007F) as u8 >> 3) == bits(addr, 3, 6),
        (addr >> 7) & 0x000F == bits(addr, 7, 10),
        bits(addr, 0, 6) < 128,
        bits(addr, 0, 2) < 8,
        bits(addr, 3, 6) < 16,
        bits(addr, 7, 10) < 16,
{
    lemma2_to64();
    assert(addr & 0x007F == addr % 128) by (bit_vector);
    assert(((addr & 0x007F) as u8 as u16 & 0x0007) == addr % 8) by (bit_vector);
    assert(((addr & 0x007F) as u8 >> 3) == (addr / 8) % 16) by (bit_vector);
    assert((addr >> 7) & 0x000F == (addr / 128) % 16) by (bit_vector);
}

/// The bit fields of a source word, as shifts and masks give them.
proof fn lemma_source_fields(src: u16)
    ensures
        src & 0x007F == bits(src, 0, 6),
        (src >> 7) & 0x000F == bits(src, 7, 10),
        (src >> 11) & 0x001F == bits(src, 11, 15),
        (src >> 15) & 0x0001 == bits(src, 15, 15),
        bits(src, 0, 6) < 128,
        bits(src, 7, 10) < 16,
        bits(src, 11, 15) < 32,
        bits(src, 15, 15) < 2,
{
    lemma2_to64();
    assert(src & 0x007F == src % 128) by (bit_vector);
    assert((src >> 7) & 0x000F == (src / 128) % 16) by (bit_vector);
    assert((src >> 11) & 0x001F == (src / 2048) % 32) by (bit_vector);
    assert((src >> 15) & 0x0001 == (src / 32768) % 2) by (bit_vector);
}

/// The bit fields of a data type word, as shifts and masks give them.
proof fn lemma_data_type_fields(data_type: u16)
    ensures
        data_type & 0x03FF == bits(data_type, 0, 9),
        (data_type >> 10) & 0x000F == bits(data_type, 10, 13),
        (data_type >> 14) & 0x0003 == bits(data_type, 14, 15),
        bits(data_type, 0, 9) < 1024,
        bits(data_type, 10, 13) < 16,
        bits(data_type, 14, 15) < 4,
{
    lemma2_to64();
    assert(data_type & 0x03FF == data_type % 1024) by (bit_vector);
    assert((data_type >> 10) & 0x000F == (data_type / 1024) % 16) by (bit_vector);
    assert((data_type >> 14) & 0x0003 == (data_type / 16384) % 4) by (bit_vector);
}

/// The part of a decoded frame that its checksum covers: all but the last
/// two bytes.
pub open spec fn payload_of(frame: Seq<u8>) -> Seq<u8> {
    frame.subrange(0, frame.len() - 2)
}

/// The checksum that a decoded frame carries in its last two bytes, high
/// byte first.
pub open spec fn trailer_of(frame: Seq<u8>) -> u16 {
    (256 * frame[frame.len() - 2] as int + frame[frame.len() - 1] as int) as u16
}

/// Whether a decoded frame carries the checksum `code`. A frame of fewer
/// than two bytes carries none.
pub open spec fn carries_checksum(frame: Seq<u8>, code: u16) -> bool {
    frame.len() >= 2 && trailer_of(frame) == code
}

/// Whether the checksum function may give `code` for `payload`.
pub open spec fn may_compute<F: Fn(&[u8]) -> u16>(checksum: F, payload: Seq<u8>, code: u16) -> bool {
    exists|p: &[u8]| p@ == payload && call_ensures(checksum, (p,), code)
}

/// Whether `is_crc` is a verdict that the checksum function allows on a
/// decoded frame: false for a frame of fewer than two bytes, else whether
/// a code that the function may give for the payload is the one carried.
pub open spec fn is_verdict<F: Fn(&[u8]) -> u16>(checksum: F, frame: Seq<u8>, is_crc: bool) -> bool {
    if frame.len() < 2 {
        !is_crc
    } else {
        exists|code: u16| #[trigger]
            may_compute(checksum, payload_of(frame), code) && is_crc == carries_checksum(
                frame,
                code,
            )
    }
}

/// A payload followed by a code, high byte first, is a frame that carries
/// that code over that payload.
pub proof fn lemma_trailer_round_trip(payload: Seq<u8>, code: u16)
    ensures
        ({
            let frame = payload.push((code / 256) as u8).push((code % 256) as u8);
            &&& carries_checksum(frame, code)
            &&& payload_of(frame) == payload
        }),
{
    let frame = payload.push((code / 256) as u8).push((code % 256) as u8);
    assert(payload_of(frame) =~= payload);
}

/// What the sorter has counted, as numbers without bounds.
pub struct Counters {
    /// Packets received, empty ones left out.
    pub received: nat,
    /// Packets whose checksum was right.
    pub valid: nat,
    /// Packets whose checksum was wrong.
    pub invalid: nat,
    /// Packets that went to the temperature monitor.
    pub temperature: nat,
}

impl Counters {
    /// What holds of the counters at all times: every received packet was
    /// found either right or wrong, only right ones are sent on, and the
    /// count of received packets fits its machine word.
    pub open spec fn consistent(self) -> bool {
        &&& self.valid + self.invalid == self.received
        &&& self.temperature <= self.valid
        &&& self.received <= u32::MAX
    }

    /// The counters after one more packet that was not empty, whose
    /// decoded form is `frame` and whose checksum was found right or wrong.
    pub open spec fn after(self, frame: Seq<u8>, is_crc: bool) -> Counters {
        if !is_crc {
            Counters { received: self.received + 1, invalid: self.invalid + 1, ..self }
        } else if category_of(PackageStruct::decoded(frame)) == TEMPERATURE {
            Counters {
                received: self.received + 1,
                valid: self.valid + 1,
                temperature: self.temperature + 1,
                ..self
            }
        } else {
            Counters { received: self.received + 1, valid: self.valid + 1, ..self }
        }
    }
}

/// What became of one packet that was handed to the sorter.
#[derive(Debug)]
pub enum Outcome {
    /// The packet was empty and was not counted.
    Empty,
    /// The checksum was wrong and the packet was dropped.
    Rejected,
    /// The packet goes to the monitor of its category, decoded and with
    /// its checksum still attached.
    Dispatched {
        /// The packet's category.
        category: i32,
        /// The decoded frame, checksum included.
        packet: Vec<u8>,
    },
}

impl Outcome {
    /// Whether this is what a packet that was not empty comes to, given
    /// its decoded form and the verdict on its checksum.
    pub open spec fn is_outcome_of(self, frame: Seq<u8>, is_crc: bool) -> bool {
        if is_crc {
            &&& self matches Outcome::Dispatched { category, packet }
            &&& category == category_of(PackageStruct::decoded(frame))
            &&& packet@ == frame
        } else {
            self is Rejected
        }
    }
}

/// Sorter of incoming packets: validates, decodes and classifies each one
/// and keeps count of what it has seen.
pub struct PSorter {
    input_package_counter: u32,
    crc_correct_counter: u32,
    crc_incorrect_counter: u32,
    send_pack_forTmon_counter: u32,
}

impl View for PSorter {
    type V = Counters;

    closed spec fn view(&self) -> Counters {
        Counters {
            received: self.input_package_counter as nat,
            valid: self.crc_correct_counter as nat,
            invalid: self.crc_incorrect_counter as nat,
            temperature: self.send_pack_forTmon_counter as nat,
        }
    }
}

impl PSorter {
    /// What holds of a sorter at all times: its counters are consistent.
    pub open spec fn inv(&self) -> bool {
        self@.consistent()
    }

    /// A sorter that has seen nothing yet.
    pub fn new() -> (sorter: Self)
        ensures
            sorter.inv(),
            sorter@ == (Counters { received: 0, valid: 0, invalid: 0, temperature: 0 }),
    {
        Self {
            input_package_counter: 0,
            crc_correct_counter: 0,
            crc_incorrect_counter: 0,
            send_pack_forTmon_counter: 0,
        }
    }

    /// Number of packets received.
    pub fn input_package_counter(&self) -> (count: u32)
        ensures
            count == self@.received,
    {
        self.input_package_counter
    }

    /// Number of packets whose checksum was right.
    pub fn crc_correct_counter(&self) -> (count: u32)
        ensures
            count == self@.valid,
    {
        self.crc_correct_counter
    }

    /// Number of packets whose checksum was wrong.
    pub fn crc_incorrect_counter(&self) -> (count: u32)
        ensures
            count == self@.invalid,
    {
        self.crc_incorrect_counter
    }

    /// Number of packets sent to the temperature monitor.
    pub fn send_pack_forTmon_counter(&self) -> (count: u32)
        ensures
            count == self@.temperature,
    {
        self.send_pack_forTmon_counter
    }

    /// Takes one raw frame through the pipeline: counts it, decodes its
    /// escapes, checks its checksum with `checksum`, and where that is
    /// right classifies it and hands it back for dispatch. An empty frame
    /// is dropped and leaves the counters as they are.
    pub fn slot_input_package<F: Fn(&[u8]) -> u16>(&mut self, package: &[u8], checksum: F) -> (out:
        Outcome)
        requires
            old(self).inv(),
            package@.len() > 0 ==> old(self)@.received < u32::MAX,
            forall|p: &[u8]| call_requires(checksum, (p,)),
        ensures
            final(self).inv(),
            package@.len() == 0 ==> out is Empty && final(self)@ == old(self)@,
            package@.len() > 0 ==> exists|is_crc: bool| #[trigger]
                is_verdict(checksum, unstuffed(package@), is_crc) && final(self)@ == old(
                    self,
                )@.after(unstuffed(package@), is_crc) && out.is_outcome_of(
                    unstuffed(package@),
                    is_crc,
                ),
    {
        if package.len() == 0 {
            return Outcome::Empty;
        }
        let pack_stuffed = byte_stuffing(package);
        let is_crc = self.crc_correct(pack_stuffed.as_slice(), checksum);
        self.slot_checked_package(pack_stuffed, is_crc)
    }

    /// The pipeline behind the checksum: counts one packet that was not
    /// empty, given its decoded form and the verdict on its checksum, and
    /// classifies it where the verdict is good.
    pub fn slot_checked_package(&mut self, pack_stuffed: Vec<u8>, is_crc: bool) -> (out: Outcome)
        requires
            old(self).inv(),
            old(self)@.received < u32::MAX,
        ensures
            final(self).inv(),
            final(self)@ == old(self)@.after(pack_stuffed@, is_crc),
            out.is_outcome_of(pack_stuffed@, is_crc),
    {
        self.input_package_counter += 1;
        if is_crc {
            self.crc_correct_counter += 1;
            let pack_struct = self.make_package_struct(pack_stuffed.as_slice());
            let pack_type = self.package_identificator(&pack_struct);
            if pack_type == TEMPERATURE {
                self.send_pack_forTmon_counter += 1;
            }
            Outcome::Dispatched { category: pack_type, packet: pack_stuffed }
        } else {
            self.crc_incorrect_counter += 1;
            Outcome::Rejected
        }
    }

    /// Checks the checksum of a decoded frame: computes `checksum` over all
    /// but the last two bytes and compares it with the code that those two
    /// carry. A frame of fewer than two bytes is never right.
    pub fn crc_correct<F: Fn(&[u8]) -> u16>(&self, byte_buffer: &[u8], checksum: F) -> (is_crc:
        bool)
        requires
            forall|p: &[u8]| call_requires(checksum, (p,)),
        ensures
            is_verdict(checksum, byte_buffer@, is_crc),
            byte_buffer@.len() < 2 ==> !is_crc,
    {
        let n: usize = byte_buffer.len();
        if n < 2 {
            return false;
        }
        let payload = slice_subrange(byte_buffer, 0, n - 2);
        let crc_computed: u16 = checksum(payload);
        assert(may_compute(checksum, payload_of(byte_buffer@), crc_computed));
        checksum_matches(byte_buffer, crc_computed)
    }

    /// Maps a decoded frame onto the fields of a packet. A frame shorter
    /// than fourteen bytes gives the zeroed packet.
    pub fn make_package_struct(&self, input_package: &[u8]) -> (ps: PackageStruct)
        ensures
            ps == PackageStruct::decoded(input_package@),
    {
        let zero = Linear11 { mantissa: 0, exponent: 0 };
        let mut ps = PackageStruct {
            addr: 0,
            module_addr: 0,
            module_addr_mcu: 0,
            module_addr_bm: 0,
            module_id: 0,
            package_type: 0,
            src: 0,
            dev_id: 0,
            pwr_line: 0,
            src_id: 0,
            rtr: false,
            data_type: 0,
            prm_id: 0,
            alarms: 0,
            prm_type: 0,
            prm: 0,
            prm_max: 0,
            prm_min: 0,
            temperature: zero,
            temp_max: zero,
            temp_min: zero,
        };
        if input_package.len() < MIN_PACKAGE_LEN {
            return ps;
        }
        let mask_1b: u16 = 0x0001;
        let mask_2b: u16 = 0x0003;
        let mask_3b: u16 = 0x0007;
        let mask_4b: u16 = 0x000F;
        let mask_5b: u16 = 0x001F;
        let mask_7b: u16 = 0x007F;
        let mask_10b: u16 = 0x03FF;

        ps.addr = read_word(input_package, 0);
        proof {
            lemma_address_fields(ps.addr);
        }
        ps.module_addr = (ps.addr & mask_7b) as u8;
        ps.module_addr_mcu = (ps.module_addr as u16 & mask_3b) as u8;
        ps.module_addr_bm = ps.module_addr >> 3;
        ps.module_id = ((ps.addr >> 7) & mask_4b) as u8;

        ps.package_type = read_word(input_package, 2);

        ps.src = read_word(input_package, 4);
        proof {
            lemma_source_fields(ps.src);
        }
        ps.dev_id = (ps.src & mask_7b) as u8;
        ps.pwr_line = ((ps.src >> 7) & mask_4b) as u8;
        ps.src_id = ((ps.src >> 11) & mask_5b) as u8;
        ps.rtr = ((ps.src >> 15) & mask_1b) != 0;

        ps.data_type = read_word(input_package, 6);
        proof {
            lemma_data_type_fields(ps.data_type);
        }
        ps.prm_id = ps.data_type & mask_10b;
        ps.alarms = ((ps.data_type >> 10) & mask_4b) as u8;
        ps.prm_type = ((ps.data_type >> 14) & mask_2b) as u8;

        ps.prm = read_word(input_package, 8);
        ps.prm_max = read_word(input_package, 10);
        ps.prm_min = read_word(input_package, 12);

        ps.temperature = from_linear11_f(ps.prm);
        ps.temp_max = from_linear11_f(ps.prm_max);
        ps.temp_min = from_linear11_f(ps.prm_min);

        ps
    }

    /// Classifies a packet into one of the five categories.
    pub fn package_identificator(&self, ps: &PackageStruct) -> (category: i32)
        ensures
            category == category_of(*ps),
            TEMPERATURE <= category <= CONTROL,
    {
        let max_bm: u8 = 15;

        if ps.module_addr_mcu == 1 || ps.module_addr_mcu == 2 {
            if ps.module_id == 2 {
                if ps.module_addr_bm <= max_bm {
                    if ps.package_type == PARAMETER_REPORT {
                        if ps.prm_type == 0 || ps.prm_type == 1 || ps.prm_type == 2 {
                            if ps.src_id == 2 || ps.src_id == 3 {
                                if ps.prm_id == 10 || ps.prm_id == 11 || ps.prm_id == 12 {
                                    if ps.dev_id >= 1 && ps.dev_id <= 6 {
                                        return TEMPERATURE;
                                    } else {
                                        return CONTROL;
                                    }
                                }
                            }
                        }
                    }
                }
            }
        }
        if ps.package_type == PARAMETER_REPORT && ps.prm_id == 20 {
            return SYSTEM;
        }
        if ps.package_type == PARAMETER_REPORT && ps.prm_id == 30 {
            return POWER_USAGE;
        }
        if ps.dev_id > 6 || ps.module_addr_bm > max_bm {
            return CONTROL;
        }
        OVERVIEW
    }
}

/// Compares a computed checksum with the one that a decoded frame carries
/// in its last two bytes, high byte first.
pub fn checksum_matches(byte_buffer: &[u8], crc_computed: u16) -> (is_crc: bool)
    ensures
        is_crc == carries_checksum(byte_buffer@, crc_computed),
{
    let n: usize = byte_buffer.len();
    if n < 2 {
        return false;
    }
    let high: u8 = byte_buffer[n - 2];
    let low: u8 = byte_buffer[n - 1];
    let crc_received: u16 = ((high as u16) << 8) | (low as u16);
    assert(crc_received == 256 * high + low) by (bit_vector)
        requires
            crc_received == ((high as u16) << 8) | (low as u16),
    ;
    crc_received == crc_computed
}

} // verus!
