use aht20_driver::compute_crc;

/// Test a valid CRC invocation.
#[test]
fn crc_correct() {
    // Known-good reference vector for this CRC-8 parameterization.
    assert_eq!(compute_crc(&vec![0xBE, 0xEF]), 0x92);
}

/// Test a CRC call that does not match.
#[test]
fn crc_wrong() {
    // The reference vector with its input bytes changed: the expected
    // result stays the same, so the comparison must fail.
    assert_ne!(compute_crc(&vec![0xFF, 0xFF]), 0x92);
}

/// The checksum of the empty message is the initial register value.
#[test]
fn crc_empty_is_initial() {
    assert_eq!(compute_crc(&vec![]), 0xFF);
}

/// The checksum over a captured 6-byte measurement reply matches the
/// byte the sensor appended to it.
#[test]
fn crc_real_measurement_reply() {
    assert_eq!(compute_crc(&vec![0x1C, 0x65, 0xB4, 0x25, 0xCD, 0x26]), 0xC6);
}
