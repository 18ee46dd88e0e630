use hwmon::crc::crc16;

#[test]
fn check_values_of_known_parameter_sets() {
    // polynomial 0x1021, start 0xFFFF
    assert_eq!(crc16(b"123456789", 0x1021, 0xFFFF), 0x29B1);
    // polynomial 0x1021, start 0x0000
    assert_eq!(crc16(b"123456789", 0x1021, 0x0000), 0x31C3);
    // polynomial 0x1021, start 0x1D0F
    assert_eq!(crc16(b"123456789", 0x1021, 0x1D0F), 0xE5CC);
    // polynomial 0x8005, start 0x0000
    assert_eq!(crc16(b"123456789", 0x8005, 0x0000), 0xFEE8);
}

#[test]
fn crc_of_nothing_is_the_start_value() {
    assert_eq!(crc16(&[], 0x1021, 0xFFFF), 0xFFFF);
    assert_eq!(crc16(&[], 0x8005, 0x1234), 0x1234);
}

#[test]
fn crc_of_one_byte() {
    // 0x01 shifted through eight times with polynomial 0x1021 leaves the polynomial.
    assert_eq!(crc16(&[0x01], 0x1021, 0x0000), 0x1021);
    assert_eq!(crc16(&[0x00], 0x1021, 0x0000), 0x0000);
}

#[test]
fn crc_can_be_computed_in_pieces() {
    let data = b"hardware telemetry gateway";
    for cut in 0..=data.len() {
        let first = crc16(&data[..cut], 0x1021, 0xFFFF);
        assert_eq!(crc16(&data[cut..], 0x1021, first), crc16(data, 0x1021, 0xFFFF));
    }
}

#[test]
fn data_followed_by_its_crc_has_crc_zero() {
    let inputs: Vec<Vec<u8>> =
        vec![vec![], vec![0x00], vec![0xC0, 0xDB], b"123456789".to_vec(), (0u8..=255).collect()];
    for (polynomial, initial) in [(0x1021u16, 0xFFFFu16), (0x1021, 0), (0x8005, 0), (0xA001, 7)] {
        for input in &inputs {
            let code = crc16(input, polynomial, initial);
            let mut sealed = input.clone();
            sealed.push((code >> 8) as u8);
            sealed.push((code & 0xFF) as u8);
            assert_eq!(crc16(&sealed, polynomial, initial), 0);
        }
    }
}

#[test]
fn crc_notices_a_changed_bit() {
    let data = b"123456789".to_vec();
    let good = crc16(&data, 0x1021, 0xFFFF);
    for i in 0..data.len() {
        for bit in 0..8 {
            let mut bad = data.clone();
            bad[i] ^= 1 << bit;
            assert_ne!(crc16(&bad, 0x1021, 0xFFFF), good);
        }
    }
}
