use aht20_driver::AHT20;
use aht20_driver::AHT20Initialized;
use aht20_driver::Command;
use aht20_driver::Error;
use aht20_driver::NoopDelay;
use aht20_driver::ScriptedBus;
use aht20_driver::SensorReading;
use aht20_driver::SENSOR_ADDRESS;
use aht20_driver::Transaction;

/// One full, successful measurement exchange: trigger, one ready
/// poll, and the 7-byte reply captured from a real sensor run.
fn good_attempt(expectations: &mut Vec<Transaction>) {
    expectations.push(Transaction::write(
        SENSOR_ADDRESS,
        vec![Command::TriggerMeasurement.opcode(), 0x33, 0x00],
    ));
    expectations.push(Transaction::write(
        SENSOR_ADDRESS,
        vec![Command::CheckStatus.opcode()],
    ));
    expectations.push(Transaction::read(SENSOR_ADDRESS, vec![0b0000_1000]));
    expectations.push(Transaction::read(
        SENSOR_ADDRESS,
        vec![0x1C, 0x65, 0xB4, 0x25, 0xCD, 0x26, 0xC6],
    ));
}

/// The same exchange with one data byte corrupted, so the checksum
/// comparison fails.
fn corrupted_attempt(expectations: &mut Vec<Transaction>) {
    expectations.push(Transaction::write(
        SENSOR_ADDRESS,
        vec![Command::TriggerMeasurement.opcode(), 0x33, 0x00],
    ));
    expectations.push(Transaction::write(
        SENSOR_ADDRESS,
        vec![Command::CheckStatus.opcode()],
    ));
    expectations.push(Transaction::read(SENSOR_ADDRESS, vec![0b0000_1000]));
    expectations.push(Transaction::read(
        SENSOR_ADDRESS,
        vec![0x1C, 0x65, 0xB4, 0x25, 0xCD, 0x27, 0xC6],
    ));
}

/// The same exchange whose poll answered ready but whose
/// checksum-protected reply says busy (checksum itself is valid).
fn contradicted_attempt(expectations: &mut Vec<Transaction>) {
    expectations.push(Transaction::write(
        SENSOR_ADDRESS,
        vec![Command::TriggerMeasurement.opcode(), 0x33, 0x00],
    ));
    expectations.push(Transaction::write(
        SENSOR_ADDRESS,
        vec![Command::CheckStatus.opcode()],
    ));
    expectations.push(Transaction::read(SENSOR_ADDRESS, vec![0b0000_1000]));
    expectations.push(Transaction::read(
        SENSOR_ADDRESS,
        vec![0x9C, 0x65, 0xB4, 0x25, 0xCD, 0x26, 0x2A],
    ));
}

fn assert_reading_plausible(measurement: SensorReading) {
    let temperature = measurement.temperature_raw as f32 / ((1u32 << 20) as f32) * 200.0 - 50.0;
    let humidity = measurement.humidity_raw as f32 / ((1u32 << 20) as f32) * 100.0;
    assert!(temperature > 22.0 && temperature < 23.0);
    assert!(humidity > 39.0 && humidity < 41.0);
}

/// measure retries transparently past a single checksum failure and
/// returns the next attempt's reading, with no error surfaced.
#[test]
fn measure_retries_past_bad_crc() {
    let mut expectations = Vec::new();
    corrupted_attempt(&mut expectations);
    good_attempt(&mut expectations);
    let mock_i2c = ScriptedBus::new(expectations);
    let mut mock_delay = NoopDelay;

    let aht20 = AHT20::new(mock_i2c, SENSOR_ADDRESS);
    let mut aht20_init = AHT20Initialized { aht20 };
    let measurement = aht20_init.measure(&mut mock_delay).unwrap();

    let mock = aht20_init.destroy().aht20.i2c;
    assert!(mock.done());
    assert_reading_plausible(measurement);
}

/// measure retries transparently past a single contradictory reply
/// and returns the next attempt's reading, with no error surfaced.
#[test]
fn measure_retries_past_unexpected_ready() {
    let mut expectations = Vec::new();
    contradicted_attempt(&mut expectations);
    good_attempt(&mut expectations);
    let mock_i2c = ScriptedBus::new(expectations);
    let mut mock_delay = NoopDelay;

    let aht20 = AHT20::new(mock_i2c, SENSOR_ADDRESS);
    let mut aht20_init = AHT20Initialized { aht20 };
    let measurement = aht20_init.measure(&mut mock_delay).unwrap();

    let mock = aht20_init.destroy().aht20.i2c;
    assert!(mock.done());
    assert_reading_plausible(measurement);
}

/// A transfer the bus refuses surfaces as the I2c error, untouched.
#[test]
fn check_status_bus_error() {
    // An empty script refuses every transfer.
    let mock_i2c = ScriptedBus::new(vec![]);

    let mut aht20 = AHT20::new(mock_i2c, SENSOR_ADDRESS);
    match aht20.check_status() {
        Err(Error::I2c(_)) => {}
        other => panic!("expected a bus error, got {:?}", other),
    }
}

/// A sensor that never clears its busy flag times out instead of
/// hanging the caller.
#[test]
fn measure_once_times_out_on_sustained_busy() {
    let mut expectations = vec![Transaction::write(
        SENSOR_ADDRESS,
        vec![Command::TriggerMeasurement.opcode(), 0x33, 0x00],
    )];
    for _ in 0..aht20_driver::MAX_STATUS_POLLS {
        expectations.push(Transaction::write(
            SENSOR_ADDRESS,
            vec![Command::CheckStatus.opcode()],
        ));
        // Busy bit set: measurement never becomes ready.
        expectations.push(Transaction::read(SENSOR_ADDRESS, vec![0b1000_1000]));
    }
    let mock_i2c = ScriptedBus::new(expectations);
    let mut mock_delay = NoopDelay;

    let aht20 = AHT20::new(mock_i2c, SENSOR_ADDRESS);
    let mut aht20_init = AHT20Initialized { aht20 };
    assert_eq!(aht20_init.measure_once(&mut mock_delay), Err(Error::Timeout));

    let mock = aht20_init.destroy().aht20.i2c;
    assert!(mock.done());
}

/// Two driver instances over two independent buses, at the same
/// address, measure independently without interfering.
#[test]
fn two_instances_measure_independently() {
    let mut expectations_1 = Vec::new();
    good_attempt(&mut expectations_1);
    let mut expectations_2 = Vec::new();
    corrupted_attempt(&mut expectations_2);
    good_attempt(&mut expectations_2);

    let aht20_1 = AHT20::new(ScriptedBus::new(expectations_1), SENSOR_ADDRESS);
    let aht20_2 = AHT20::new(ScriptedBus::new(expectations_2), SENSOR_ADDRESS);
    let mut init_1 = AHT20Initialized { aht20: aht20_1 };
    let mut init_2 = AHT20Initialized { aht20: aht20_2 };
    let mut mock_delay = NoopDelay;

    // Interleave the two drivers' work: the first driver's
    // measurement is unaffected by the second one's retry.
    let measurement_1 = init_1.measure(&mut mock_delay).unwrap();
    let measurement_2 = init_2.measure(&mut mock_delay).unwrap();
    assert_reading_plausible(measurement_1);
    assert_reading_plausible(measurement_2);

    assert!(init_1.destroy().aht20.i2c.done());
    assert!(init_2.destroy().aht20.i2c.done());
}

/// The decoder splits the captured payload into the documented
/// 20-bit fields exactly.
#[test]
fn from_bytes_unpacks_bit_fields() {
    let reading = SensorReading::from_bytes([0x65, 0xB4, 0x25, 0xCD, 0x26]);
    // humidity20 = 0x65 << 12 | 0xB4 << 4 | 0x25 >> 4
    assert_eq!(reading.humidity_raw, 0x65B42);
    // temperature20 = (0x25 & 0x0F) << 16 | 0xCD << 8 | 0x26
    assert_eq!(reading.temperature_raw, 0x5CD26);
    assert_reading_plausible(reading);
}

/// A bus whose script was not fully consumed reports not done.
#[test]
fn scripted_bus_reports_leftover_expectations() {
    let expectations = vec![Transaction::write(
        SENSOR_ADDRESS,
        vec![Command::SoftReset.opcode()],
    )];
    let bus = ScriptedBus::new(expectations);
    assert!(!bus.done());
}
