use hwmon::controller::{
    route, select_operation, ConfigError, Controller, Launch, Monitor, ReadOperation,
};
use hwmon::preader::PortStatus;
use hwmon::psorter::Outcome;
use hwmon::pwriter::{PWriter, WriteError};

fn checksum(_: &[u8]) -> u16 {
    0x1234
}

#[test]
fn each_category_has_its_monitor() {
    assert_eq!(Monitor::for_category(1), Monitor::TMonitor);
    assert_eq!(Monitor::for_category(2), Monitor::SMonitor);
    assert_eq!(Monitor::for_category(3), Monitor::PUMonitor);
    assert_eq!(Monitor::for_category(4), Monitor::OMonitor);
    assert_eq!(Monitor::for_category(5), Monitor::CMonitor);
}

#[test]
fn unknown_category_goes_to_the_overview_monitor() {
    for code in [0, 6, 7, -1, 100, i32::MAX, i32::MIN] {
        assert_eq!(Monitor::for_category(code), Monitor::OMonitor);
        assert_eq!(Monitor::for_category(code).port(), 5558);
    }
}

#[test]
fn each_monitor_has_its_port() {
    assert_eq!(Monitor::TMonitor.port(), 5555);
    assert_eq!(Monitor::SMonitor.port(), 5556);
    assert_eq!(Monitor::PUMonitor.port(), 5557);
    assert_eq!(Monitor::OMonitor.port(), 5558);
    assert_eq!(Monitor::CMonitor.port(), 5559);
}

#[test]
fn route_sends_dispatched_packets_only() {
    assert!(route(Outcome::Empty).is_none());
    assert!(route(Outcome::Rejected).is_none());
    let delivery = route(Outcome::Dispatched { category: 3, packet: vec![1, 2, 3] }).unwrap();
    assert_eq!(delivery.monitor, Monitor::PUMonitor);
    assert_eq!(delivery.packet, vec![1, 2, 3]);
}

#[test]
fn operation_names() {
    assert_eq!(select_operation(b"UART", false), Ok(ReadOperation::Uart));
    assert_eq!(select_operation(b"UART", true), Ok(ReadOperation::Uart));
    assert_eq!(select_operation(b"CAN", false), Ok(ReadOperation::Can));
    assert_eq!(select_operation(b"DUMP", true), Ok(ReadOperation::Dump));
}

#[test]
fn dump_needs_a_filename() {
    assert_eq!(select_operation(b"DUMP", false), Err(ConfigError::FilenameRequired));
}

#[test]
fn other_names_are_unknown() {
    for name in [&b""[..], b"dump", b"Uart", b"CAN ", b"DUMPS", b"UAR", b"CA", b"USB", b"CANX"] {
        assert_eq!(select_operation(name, true), Err(ConfigError::UnknownOperation));
        assert_eq!(select_operation(name, false), Err(ConfigError::UnknownOperation));
    }
}

#[test]
fn new_controller_reads_the_serial_line() {
    let controller = Controller::new();
    assert!(matches!(controller.start(), Ok(Launch::Uart)));
    assert_eq!(controller.sorter().input_package_counter(), 0);
}

#[test]
fn dump_starts_with_its_filename() {
    let mut controller = Controller::new();
    controller.set_read_operation(ReadOperation::Dump);
    assert!(matches!(controller.start(), Err(ConfigError::DumpFilenameNotSet)));
    controller.set_dump_filename("capture.bin".to_string());
    match controller.start() {
        Ok(Launch::Dump(name)) => assert_eq!(name, "capture.bin"),
        other => panic!("not a dump: {:?}", other),
    }
    controller.set_dump_filename("other.bin".to_string());
    match controller.start() {
        Ok(Launch::Dump(name)) => assert_eq!(name, "other.bin"),
        other => panic!("not a dump: {:?}", other),
    }
}

#[test]
fn filename_is_ignored_by_the_other_sources() {
    let mut controller = Controller::new();
    controller.set_dump_filename("capture.bin".to_string());
    assert!(matches!(controller.start(), Ok(Launch::Uart)));
    controller.set_read_operation(ReadOperation::Can);
    assert!(matches!(controller.start(), Ok(Launch::Nothing)));
}

#[test]
fn controller_counts_and_routes() {
    let mut controller = Controller::new();
    assert!(controller.handle_packages(&[], checksum).is_none());
    assert!(controller.handle_packages(&[0x00, 0x12, 0x35], checksum).is_none());
    let delivery = controller.handle_packages(&[0x00, 0x12, 0x34], checksum).unwrap();
    assert_eq!(delivery.monitor, Monitor::OMonitor);
    assert_eq!(delivery.packet, vec![0x00, 0x12, 0x34]);
    let sorter = controller.sorter();
    assert_eq!(sorter.input_package_counter(), 2);
    assert_eq!(sorter.crc_correct_counter(), 1);
    assert_eq!(sorter.crc_incorrect_counter(), 1);
    assert_eq!(sorter.send_pack_forTmon_counter(), 0);
}

#[test]
fn controller_sends_temperature_to_its_monitor() {
    let mut controller = Controller::new();
    // module 0x29 (BM 5, MCU 1), module id 2; device 3, source 2; parameter 11
    let frame = vec![
        0x29, 0x01, 0x00, 0x80, 0x03, 0x10, 0x0B, 0x00, 0x05, 0x18, 0, 0, 0, 0, 0x12, 0x34,
    ];
    let delivery = controller.handle_packages(&frame, checksum).unwrap();
    assert_eq!(delivery.monitor, Monitor::TMonitor);
    assert_eq!(delivery.monitor.port(), 5555);
    assert_eq!(controller.sorter().send_pack_forTmon_counter(), 1);
}

#[test]
fn command_is_checked_before_the_port() {
    let writer = PWriter::new();
    assert_eq!(writer.write_command(&[], PortStatus::Open), Err(WriteError::EmptyCommand));
    assert_eq!(writer.write_command(&[], PortStatus::Busy), Err(WriteError::EmptyCommand));
    assert_eq!(writer.write_command(&[], PortStatus::Closed), Err(WriteError::EmptyCommand));
}

#[test]
fn command_needs_an_open_port() {
    let writer = PWriter::new();
    assert_eq!(writer.write_command(&[1], PortStatus::Busy), Err(WriteError::PortBusy));
    assert_eq!(writer.write_command(&[1], PortStatus::Closed), Err(WriteError::PortNotOpen));
    assert_eq!(writer.write_command(&[1], PortStatus::Open), Ok(()));
    assert_eq!(writer.write_command(&[0xC0, 0xDB], PortStatus::Open), Ok(()));
}

#[test]
fn controller_remembers_the_source() {
    let mut controller = Controller::new();
    assert_eq!(controller.read_operation(), ReadOperation::Uart);
    controller.set_read_operation(ReadOperation::Can);
    assert_eq!(controller.read_operation(), ReadOperation::Can);
    controller.set_read_operation(ReadOperation::Dump);
    assert_eq!(controller.read_operation(), ReadOperation::Dump);
}
