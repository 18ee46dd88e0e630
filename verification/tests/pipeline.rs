use hwmon::byte_stuffing::request_byte_stuffing;
use hwmon::controller::{Controller, Monitor};
use hwmon::crc::crc16;
use hwmon::dump_reader::DumpReader;
use hwmon::psorter::{
    checksum_matches, Outcome, PSorter, CONTROL, OVERVIEW, POWER_USAGE, SYSTEM, TEMPERATURE,
};

fn checksum(payload: &[u8]) -> u16 {
    crc16(payload, 0x1021, 0xFFFF)
}

/// The payload with its checksum behind it, high byte first.
fn sealed(payload: &[u8]) -> Vec<u8> {
    let code = checksum(payload);
    let mut frame = payload.to_vec();
    frame.push((code >> 8) as u8);
    frame.push((code & 0xFF) as u8);
    frame
}

/// The frame as it goes over the wire, without its delimiter.
fn escaped(frame: &[u8]) -> Vec<u8> {
    let mut raw = frame.to_vec();
    request_byte_stuffing(&mut raw);
    raw
}

/// Fourteen bytes of a packet with the given words.
fn payload(addr: u16, package_type: u16, src: u16, data_type: u16, prm: u16) -> Vec<u8> {
    let mut bytes = Vec::new();
    for word in [addr, package_type, src, data_type, prm, 0, 0] {
        bytes.push((word & 0xFF) as u8);
        bytes.push((word >> 8) as u8);
    }
    bytes
}

fn system_payload(prm: u16) -> Vec<u8> {
    payload(0, 0x8000, 0, 20, prm)
}

fn counters(sorter: &PSorter) -> (u32, u32, u32, u32) {
    (
        sorter.input_package_counter(),
        sorter.crc_correct_counter(),
        sorter.crc_incorrect_counter(),
        sorter.send_pack_forTmon_counter(),
    )
}

fn dispatched(outcome: Outcome) -> (i32, Vec<u8>) {
    match outcome {
        Outcome::Dispatched { category, packet } => (category, packet),
        other => panic!("not dispatched: {:?}", other),
    }
}

#[test]
fn new_sorter_has_counted_nothing() {
    assert_eq!(counters(&PSorter::new()), (0, 0, 0, 0));
}

#[test]
fn validator_rejects_buffers_shorter_than_two_bytes() {
    let sorter = PSorter::new();
    assert!(!sorter.crc_correct(&[], checksum));
    assert!(!sorter.crc_correct(&[0x00], checksum));
    assert!(!sorter.crc_correct(&[0xFF], |_: &[u8]| 0x00FF));
    assert!(!checksum_matches(&[], 0));
    assert!(!checksum_matches(&[0x12], 0x0012));
    assert!(!checksum_matches(&[0x12], 0x1200));
}

#[test]
fn validator_accepts_a_bare_checksum() {
    // Two bytes are a checksum over no payload.
    let sorter = PSorter::new();
    assert!(sorter.crc_correct(&sealed(&[]), checksum));
    assert!(sorter.crc_correct(&[0xFF, 0xFF], checksum));
    assert!(!sorter.crc_correct(&[0xFF, 0xFE], checksum));
}

#[test]
fn validator_reads_the_trailer_high_byte_first() {
    assert!(checksum_matches(&[0xAA, 0x12, 0x34], 0x1234));
    assert!(!checksum_matches(&[0xAA, 0x12, 0x34], 0x3412));
    let sorter = PSorter::new();
    assert!(sorter.crc_correct(&[0xAA, 0x12, 0x34], |_: &[u8]| 0x1234));
    assert!(!sorter.crc_correct(&[0xAA, 0x12, 0x34], |_: &[u8]| 0x3412));
}

#[test]
fn validator_hands_the_payload_to_the_checksum() {
    let sorter = PSorter::new();
    // A checksum that is the payload's length and its first byte.
    let probe = |p: &[u8]| ((p.len() as u16) << 8) | p[0] as u16;
    assert!(sorter.crc_correct(&[0x07, 0x08, 0x09, 0x03, 0x07], probe));
    assert!(!sorter.crc_correct(&[0x07, 0x08, 0x09, 0x05, 0x07], probe));
}

#[test]
fn validator_accepts_sealed_frames_and_rejects_damaged_ones() {
    let sorter = PSorter::new();
    let frame = sealed(&system_payload(0x1805));
    assert!(sorter.crc_correct(&frame, checksum));
    for i in 0..frame.len() {
        let mut bad = frame.clone();
        bad[i] ^= 0x01;
        assert!(!sorter.crc_correct(&bad, checksum));
    }
}

#[test]
fn valid_frame_is_counted_and_dispatched_with_its_checksum() {
    let mut sorter = PSorter::new();
    let frame = sealed(&system_payload(0));
    let (category, packet) = dispatched(sorter.slot_input_package(&escaped(&frame), checksum));
    assert_eq!(category, SYSTEM);
    assert_eq!(packet, frame);
    assert_eq!(counters(&sorter), (1, 1, 0, 0));
}

#[test]
fn frame_is_unescaped_before_it_is_checked() {
    let mut sorter = PSorter::new();
    // A payload full of delimiters and escape bytes.
    let frame = sealed(&[0xC0, 0xDB, 0xC0, 0xDB, 0xDC, 0xDD, 0xC0, 0xDB, 0x00, 0xC0, 0xDB, 0xDB, 0xC0, 0xC0]);
    let raw = escaped(&frame);
    assert!(raw.len() > frame.len());
    let (_, packet) = dispatched(sorter.slot_input_package(&raw, checksum));
    assert_eq!(packet, frame);
    assert_eq!(counters(&sorter), (1, 1, 0, 0));
}

#[test]
fn wrong_checksum_is_counted_and_dropped() {
    let mut sorter = PSorter::new();
    let mut frame = sealed(&system_payload(0));
    let last = frame.len() - 1;
    frame[last] ^= 0xFF;
    let outcome = sorter.slot_input_package(&escaped(&frame), checksum);
    assert!(matches!(outcome, Outcome::Rejected));
    assert_eq!(counters(&sorter), (1, 0, 1, 0));
}

#[test]
fn one_byte_frame_is_counted_as_wrong() {
    let mut sorter = PSorter::new();
    assert!(matches!(sorter.slot_input_package(&[0x42], checksum), Outcome::Rejected));
    assert_eq!(counters(&sorter), (1, 0, 1, 0));
}

#[test]
fn short_valid_frame_is_overview() {
    let mut sorter = PSorter::new();
    // Eight bytes of payload and two of checksum: ten in all.
    let frame = sealed(&[0x29, 0x01, 0x00, 0x80, 0x83, 0x14, 0x14, 0x00]);
    assert_eq!(frame.len(), 10);
    let (category, packet) = dispatched(sorter.slot_input_package(&escaped(&frame), checksum));
    assert_eq!(category, OVERVIEW);
    assert_eq!(packet, frame);
    assert_eq!(counters(&sorter), (1, 1, 0, 0));
    let ps = sorter.make_package_struct(&frame);
    assert_eq!(ps.addr, 0);
    assert_eq!(ps.package_type, 0);
    assert_eq!(ps.prm_id, 0);
    assert!(!ps.rtr);
}

#[test]
fn empty_frame_changes_nothing() {
    let mut sorter = PSorter::new();
    assert!(matches!(sorter.slot_input_package(&[], checksum), Outcome::Empty));
    assert_eq!(counters(&sorter), (0, 0, 0, 0));
    let frame = sealed(&system_payload(0));
    sorter.slot_input_package(&escaped(&frame), checksum);
    assert!(matches!(sorter.slot_input_package(&[], checksum), Outcome::Empty));
    assert_eq!(counters(&sorter), (1, 1, 0, 0));
}

#[test]
fn temperature_packets_are_counted() {
    let mut sorter = PSorter::new();
    // module 0x29 (BM 5, MCU 1), module id 2; device 3, source 2; parameter 11
    let frame = sealed(&payload(0x0129, 0x8000, 0x1003, 11, 0x1805));
    let (category, _) = dispatched(sorter.slot_input_package(&escaped(&frame), checksum));
    assert_eq!(category, TEMPERATURE);
    assert_eq!(counters(&sorter), (1, 1, 0, 1));
}

#[test]
fn each_category_comes_out_of_the_pipeline() {
    let mut sorter = PSorter::new();
    let cases = [
        (payload(0x0129, 0x8000, 0x1003, 11, 0), TEMPERATURE),
        (payload(0, 0x8000, 0, 20, 0), SYSTEM),
        (payload(0, 0x8000, 0, 30, 0), POWER_USAGE),
        (payload(0, 0, 0, 0, 0), OVERVIEW),
        (payload(0x0129, 0x8000, 0x1007, 11, 0), CONTROL),
        (payload(0, 0, 0x0007, 0, 0), CONTROL),
    ];
    for (bytes, expected) in cases {
        let frame = sealed(&bytes);
        let (category, packet) = dispatched(sorter.slot_input_package(&escaped(&frame), checksum));
        assert_eq!(category, expected);
        assert_eq!(packet, frame);
    }
    assert_eq!(counters(&sorter), (6, 6, 0, 1));
}

#[test]
fn counters_add_up_over_a_mixed_stream() {
    let mut sorter = PSorter::new();
    let good = escaped(&sealed(&system_payload(0)));
    let hot = escaped(&sealed(&payload(0x0129, 0x8000, 0x1003, 10, 0)));
    let bad = vec![0x01, 0x02, 0x03];
    for raw in [&good, &bad, &hot, &vec![], &bad, &hot, &good, &vec![0x00]] {
        sorter.slot_input_package(raw, checksum);
        assert_eq!(
            sorter.crc_correct_counter() + sorter.crc_incorrect_counter(),
            sorter.input_package_counter()
        );
        assert!(sorter.send_pack_forTmon_counter() <= sorter.crc_correct_counter());
    }
    assert_eq!(counters(&sorter), (7, 4, 3, 2));
}

#[test]
fn checked_package_follows_the_verdict() {
    let mut sorter = PSorter::new();
    let frame = system_payload(0);
    let (category, packet) = dispatched(sorter.slot_checked_package(frame.clone(), true));
    assert_eq!(category, SYSTEM);
    assert_eq!(packet, frame);
    assert!(matches!(sorter.slot_checked_package(frame, false), Outcome::Rejected));
    assert_eq!(counters(&sorter), (2, 1, 1, 0));
}

#[test]
fn dump_with_two_system_packets() {
    let a = sealed(&system_payload(0x1805));
    let b = sealed(&system_payload(0xF005));
    let mut dump = escaped(&a);
    dump.push(0xC0);
    dump.extend_from_slice(&escaped(&b));
    dump.push(0xC0);

    let packages = DumpReader::new().start_read(&dump);
    assert_eq!(packages.len(), 2);

    let mut controller = Controller::new();
    let mut sent = Vec::new();
    for package in &packages {
        if let Some(delivery) = controller.handle_packages(package, checksum) {
            sent.push(delivery);
        }
    }
    assert_eq!(sent.len(), 2);
    assert_eq!(sent[0].monitor, Monitor::SMonitor);
    assert_eq!(sent[0].monitor.port(), 5556);
    assert_eq!(sent[0].packet, a);
    assert_eq!(sent[1].monitor, Monitor::SMonitor);
    assert_eq!(sent[1].monitor.port(), 5556);
    assert_eq!(sent[1].packet, b);
    assert_eq!(controller.sorter().input_package_counter(), 2);
    assert_eq!(controller.sorter().crc_correct_counter(), 2);
    assert_eq!(controller.sorter().crc_incorrect_counter(), 0);
    assert_eq!(controller.sorter().send_pack_forTmon_counter(), 0);
}

#[test]
fn dump_with_an_empty_frame_between_two_delimiters() {
    let a = sealed(&system_payload(1));
    let mut dump = escaped(&a);
    dump.push(0xC0);
    dump.push(0xC0);
    dump.extend_from_slice(&escaped(&a));
    dump.push(0xC0);
    let packages = DumpReader::new().start_read(&dump);
    assert_eq!(packages.len(), 2);
    let mut sorter = PSorter::new();
    for package in &packages {
        sorter.slot_input_package(package, checksum);
    }
    assert_eq!(counters(&sorter), (2, 2, 0, 0));
}
