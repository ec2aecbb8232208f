//! A verified driver for the AHT20 humidity and temperature sensor.
//!
//! The sensor speaks a small command set over a two-wire bus: a status
//! byte tells whether it is calibrated and whether a measurement is
//! ready, a measurement reply packs two 20-bit readings into five data
//! bytes, and a CRC-8 checksum guards the reply against corruption on
//! the wire. This crate models the bus as a trait whose specification
//! records every transfer, and proves that the driver issues exactly
//! the documented command sequences and only accepts replies whose
//! checksum and status agree.

pub mod bus;
pub mod command;
pub mod crc;
pub mod driver;
pub mod mock;
pub mod protocol;
pub mod reading;
pub mod status;

pub use bus::BusOp;
pub use bus::Delay;
pub use bus::I2cBus;
pub use command::Command;
pub use driver::AHT20;
pub use driver::AHT20Initialized;
pub use driver::Error;
pub use driver::MAX_MEASUREMENT_ATTEMPTS;
pub use driver::MAX_STATUS_POLLS;
pub use driver::SENSOR_ADDRESS;
pub use driver::parse_measurement;
pub use crc::compute_crc;
pub use crc::crc8_of;
pub use reading::SensorReading;
pub use reading::humidity_raw_of;
pub use reading::temperature_raw_of;
pub use mock::NoopDelay;
pub use mock::ScriptMismatch;
pub use mock::ScriptedBus;
pub use mock::Transaction;
pub use status::SensorStatus;
pub use status::Status;
pub use status::is_calibrated_byte;
pub use status::is_ready_byte;
