use aht20_driver::SensorStatus;

/// Test SensorStatus reporting being ready.
#[test]
fn sensorstatus_is_ready() {
    let status = SensorStatus::new(0x00);
    assert_eq!(status.is_ready(), true);
}

/// Test SensorStatus reporting being busy.
#[test]
fn sensorstatus_is_not_ready() {
    // 8th bit being 1 signifies "busy"
    // Equiv to 0x01 << 7, or 128 (dec) or 0x80 (hex)
    let status = SensorStatus::new(0b1000_0000);
    assert_eq!(status.is_ready(), false);
}

/// Test SensorStatus reporting being calibrated.
#[test]
fn sensorstatus_is_calibrated() {
    // 4th bit being 1 signifies the sensor being calibrated.
    // Equiv to 0x01 << 3, or 8 (dec) or 0x08
    let status = SensorStatus::new(0b0000_1000);
    assert_eq!(status.is_calibrated(), true);
}

/// Test SensorStatus reporting being uncalibrated.
#[test]
fn sensorstatus_is_not_calibrated() {
    let status = SensorStatus::new(0b0000_0000);
    assert_eq!(status.is_calibrated(), false);
}

/// Both flags read independently out of one byte with every bit set.
#[test]
fn sensorstatus_all_bits_set() {
    let status = SensorStatus::new(0xFF);
    assert_eq!(status.is_ready(), false);
    assert_eq!(status.is_calibrated(), true);
}
