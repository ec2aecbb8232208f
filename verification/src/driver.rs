use vstd::prelude::*;

use crate::bus::BusOp;
use crate::bus::Delay;
use crate::bus::I2cBus;
use crate::command::Command;
use crate::crc::compute_crc;
use crate::crc::crc8_of;
use crate::protocol::busy_polls;
use crate::protocol::contradicted_attempt;
use crate::protocol::crc_failed_attempt;
use crate::protocol::failed_attempts;
use crate::protocol::initialize_bytes;
use crate::protocol::initialize_ops;
use crate::protocol::lemma_busy_polls_extend;
use crate::protocol::lemma_contradicted_is_failed;
use crate::protocol::lemma_crc_failed_is_failed;
use crate::protocol::lemma_failed_attempts_extend;
use crate::protocol::lemma_uncalibrated_rounds_extend;
use crate::protocol::measurement_attempt_ops;
use crate::protocol::soft_reset_ops;
use crate::protocol::status_poll_ops;
use crate::protocol::successful_attempt;
use crate::protocol::trigger_measurement_bytes;
use crate::protocol::trigger_measurement_ops;
use crate::protocol::uncalibrated_round_ops;
use crate::protocol::uncalibrated_rounds;
use crate::reading::SensorReading;
use crate::reading::humidity_raw_of;
use crate::reading::temperature_raw_of;
use crate::status::SensorStatus;
use crate::status::is_calibrated_byte;
use crate::status::is_ready_byte;

verus! {

/// The sensor's fixed bus address.
pub const SENSOR_ADDRESS: u8 = 0x38;

/// How many status polls one wait loop performs before giving up
/// with [`Error::Timeout`]: the bound that keeps waiting for
/// calibration (one `Initialize` and 10 ms between polls) and
/// waiting for a measurement (1 ms between polls, after the 80 ms
/// settle time) finite even against a sensor that never answers
/// ready.
pub const MAX_STATUS_POLLS: u32 = 100;

/// How many whole measurement attempts [`AHT20Initialized::measure`]
/// makes before surfacing the last recoverable fault instead of
/// retrying once more.
pub const MAX_MEASUREMENT_ATTEMPTS: u32 = 8;

/// Driver errors.
#[derive(Debug, PartialEq)]
pub enum Error<E> {
    /// The bus transport failed. Wraps the transport's own error,
    /// which is propagated immediately and never retried at this
    /// layer.
    I2c(E),
    /// The checksum computed over the six status-and-data bytes of a
    /// measurement reply does not match the checksum byte received.
    InvalidCrc,
    /// The checksum-validated status byte of a measurement reply
    /// reports busy although the unvalidated poll just before said
    /// ready: the reply contradicts itself and is discarded.
    UnexpectedReady,
    /// The sensor kept reporting busy or uncalibrated for the whole
    /// bounded wait. Every wait loop in this driver is finite, so a
    /// sensor that never becomes ready surfaces this error instead
    /// of hanging the caller.
    Timeout,
}

/// An AHT20 sensor on the two-wire bus `I`, not yet known to be
/// calibrated.
///
/// In this state only status checks and the initialization routine
/// are available; measuring requires the [`AHT20Initialized`] handle
/// that a successful [`AHT20::init`] returns.
pub struct AHT20<I: I2cBus> {
    /// The bus the sensor is wired to; owned exclusively by this
    /// driver.
    pub i2c: I,
    /// The sensor's bus address, almost always [`SENSOR_ADDRESS`].
    pub address: u8,
}

/// An AHT20 sensor that a successful [`AHT20::init`] confirmed
/// calibrated: measurements and soft resets are available.
pub struct AHT20Initialized<I: I2cBus> {
    /// The underlying driver, with its exclusive bus ownership.
    pub aht20: AHT20<I>,
}

impl<I: I2cBus> AHT20<I> {
    /// Bind a driver to the bus `i2c` and the device address
    /// `address`.
    ///
    /// This consumes the bus: each driver instance owns its bus
    /// exclusively, so independent sensors on independent buses
    /// cannot interfere with one another.
    pub fn new(i2c: I, address: u8) -> (device: Self)
        ensures
            device.i2c == i2c,
            device.address == address,
    {
        AHT20 { i2c, address }
    }

    /// Ask the sensor to report its status: write the `CheckStatus`
    /// command, read one status byte back.
    pub fn check_status(&mut self) -> (result: Result<SensorStatus, Error<I::BusError>>)
        ensures
            final(self).address == old(self).address,
            result matches Ok(status) ==> final(self).i2c.log() == old(self).i2c.log()
                + status_poll_ops(old(self).address, status.0),
            result is Err ==> result matches Err(Error::I2c(_)),
    {
        let mut command: Vec<u8> = Vec::new();
        command.push(Command::CheckStatus.opcode());
        match self.i2c.bus_write(self.address, &command) {
            Ok(()) => {},
            Err(error) => {
                return Err(Error::I2c(error));
            },
        }
        let data = match self.i2c.bus_read(self.address, 1) {
            Ok(data) => data,
            Err(error) => {
                return Err(Error::I2c(error));
            },
        };
        let status_byte = data[0];
        proof {
            assert(data@ =~= seq![status_byte]);
            assert(self.i2c.log() =~= old(self).i2c.log() + status_poll_ops(
                old(self).address,
                status_byte,
            ));
        }
        Ok(SensorStatus::new(status_byte))
    }

    /// Send the `Initialize` command, which makes the sensor start
    /// its self-calibration. The caller polls the status byte
    /// afterwards to see the calibration finish; [`AHT20::init`]
    /// does both.
    pub fn send_initialize(&mut self) -> (result: Result<(), Error<I::BusError>>)
        ensures
            final(self).address == old(self).address,
            result is Ok ==> final(self).i2c.log() == old(self).i2c.log() + initialize_ops(
                old(self).address,
            ),
            result is Err ==> result matches Err(Error::I2c(_)),
    {
        let mut command: Vec<u8> = Vec::new();
        command.push(Command::Initialize.opcode());
        command.push(0x08);
        command.push(0x00);
        match self.i2c.bus_write(self.address, &command) {
            Ok(()) => {},
            Err(error) => {
                return Err(Error::I2c(error));
            },
        }
        proof {
            assert(command@ =~= initialize_bytes());
            assert(self.i2c.log() =~= old(self).i2c.log() + initialize_ops(old(self).address));
        }
        Ok(())
    }

    /// Run the initialization and calibration routine.
    ///
    /// After the 40 ms power-on settle time the driver polls the
    /// status byte; while it reports uncalibrated, each report is
    /// answered with exactly one `Initialize` command and a 10 ms
    /// wait. A calibrated report ends the routine and hands back the
    /// [`AHT20Initialized`] handle that unlocks measuring. A bus
    /// error aborts immediately, and a sensor that stays
    /// uncalibrated for [`MAX_STATUS_POLLS`] reports times out; in
    /// both cases the driver itself is handed back beside the error,
    /// still uninitialized.
    #[verifier::loop_isolation(false)]
    pub fn init<D: Delay>(self, delay: &mut D) -> (result: Result<
        AHT20Initialized<I>,
        (AHT20<I>, Error<I::BusError>),
    >)
        ensures
            result matches Ok(initialized) ==> {
                &&& initialized.aht20.address == self.address
                &&& exists|rounds: Seq<BusOp>, status: u8|
                    {
                        &&& uncalibrated_rounds(rounds, self.address)
                        &&& is_calibrated_byte(status)
                        &&& initialized.aht20.i2c.log() == self.i2c.log() + rounds
                            + status_poll_ops(self.address, status)
                    }
            },
            result matches Err((device, error)) ==> {
                &&& device.address == self.address
                &&& (error matches Error::I2c(_) || error == Error::<I::BusError>::Timeout)
                &&& error == Error::<I::BusError>::Timeout ==> exists|rounds: Seq<BusOp>|
                    {
                        &&& uncalibrated_rounds(rounds, self.address)
                        &&& rounds.len() == 3 * MAX_STATUS_POLLS
                        &&& device.i2c.log() == self.i2c.log() + rounds
                    }
            },
    {
        let ghost address = self.address;
        let ghost initial_log = self.i2c.log();
        let mut device = self;
        delay.delay_ms(40);
        let ghost mut rounds = Seq::<BusOp>::empty();
        let mut polls: u32 = 0;
        while polls < MAX_STATUS_POLLS
            invariant
                polls <= MAX_STATUS_POLLS,
                device.address == address,
                uncalibrated_rounds(rounds, address),
                rounds.len() == 3 * polls,
                device.i2c.log() == initial_log + rounds,
            decreases MAX_STATUS_POLLS - polls,
        {
            let status = match device.check_status() {
                Ok(status) => status,
                Err(error) => {
                    return Err((device, error));
                },
            };
            if status.is_calibrated() {
                proof {
                    assert(device.i2c.log() =~= initial_log + rounds + status_poll_ops(
                        address,
                        status.0,
                    ));
                }
                return Ok(AHT20Initialized { aht20: device });
            }
            match device.send_initialize() {
                Ok(()) => {},
                Err(error) => {
                    return Err((device, error));
                },
            }
            delay.delay_ms(10);
            proof {
                lemma_uncalibrated_rounds_extend(rounds, address, status.0);
                rounds = rounds + uncalibrated_round_ops(address, status.0);
                assert(device.i2c.log() =~= initial_log + rounds);
            }
            polls = polls + 1;
        }
        Err((device, Error::Timeout))
    }

    /// Release the driver, and with it the bus it owns, back to the
    /// caller.
    pub fn destroy(self) -> (device: Self)
        ensures
            device == self,
    {
        self
    }
}

/// Check a 7-byte measurement reply and extract its five payload
/// bytes.
///
/// The reply is accepted only if the checksum computed over its
/// first six bytes (the repeated status byte and the five data
/// bytes) equals the seventh byte, and the checksum-protected status
/// byte confirms ready. A checksum mismatch is [`Error::InvalidCrc`];
/// a matching checksum whose status byte still reports busy is
/// [`Error::UnexpectedReady`], guarding against a poll answer that
/// was corrupted into "ready" on the wire.
pub fn parse_measurement<E>(bytes: &Vec<u8>) -> (result: Result<[u8; 5], Error<E>>)
    requires
        bytes@.len() == 7,
    ensures
        crc8_of(bytes@.take(6)) != bytes@[6] ==> result == Err::<[u8; 5], Error<E>>(
            Error::InvalidCrc,
        ),
        crc8_of(bytes@.take(6)) == bytes@[6] && !is_ready_byte(bytes@[0]) ==> result == Err::<
            [u8; 5],
            Error<E>,
        >(Error::UnexpectedReady),
        crc8_of(bytes@.take(6)) == bytes@[6] && is_ready_byte(bytes@[0]) ==> (result matches Ok(
            payload,
        ) && payload@ == bytes@.subrange(1, 6)),
{
    let guarded = take_prefix(bytes, 6);
    let crc = compute_crc(&guarded);
    if crc != bytes[6] {
        return Err(Error::InvalidCrc);
    }
    let status = SensorStatus::new(bytes[0]);
    if !status.is_ready() {
        return Err(Error::UnexpectedReady);
    }
    let payload: [u8; 5] = [bytes[1], bytes[2], bytes[3], bytes[4], bytes[5]];
    proof {
        assert(payload@ =~= bytes@.subrange(1, 6));
    }
    Ok(payload)
}

/// Copy the first `count` bytes of `bytes`.
fn take_prefix(bytes: &Vec<u8>, count: usize) -> (prefix: Vec<u8>)
    requires
        count <= bytes@.len(),
    ensures
        prefix@ == bytes@.take(count as int),
{
    let mut prefix: Vec<u8> = Vec::new();
    let mut i: usize = 0;
    while i < count
        invariant
            i <= count,
            count <= bytes@.len(),
            prefix@ == bytes@.take(i as int),
        decreases count - i,
    {
        prefix.push(bytes[i]);
        proof {
            assert(prefix@ =~= bytes@.take(i + 1 as int));
        }
        i = i + 1;
    }
    prefix
}

impl<I: I2cBus> AHT20Initialized<I> {
    /// Send the `TriggerMeasurement` command. The measurement result
    /// becomes readable once the busy flag clears, at most 80 ms
    /// later; [`AHT20Initialized::measure_once`] does the whole
    /// exchange.
    pub fn send_trigger_measurement(&mut self) -> (result: Result<(), Error<I::BusError>>)
        ensures
            final(self).aht20.address == old(self).aht20.address,
            result is Ok ==> final(self).aht20.i2c.log() == old(self).aht20.i2c.log()
                + trigger_measurement_ops(old(self).aht20.address),
            result is Err ==> result matches Err(Error::I2c(_)),
    {
        let mut command: Vec<u8> = Vec::new();
        command.push(Command::TriggerMeasurement.opcode());
        command.push(0x33);
        command.push(0x00);
        match self.aht20.i2c.bus_write(self.aht20.address, &command) {
            Ok(()) => {},
            Err(error) => {
                return Err(Error::I2c(error));
            },
        }
        proof {
            assert(command@ =~= trigger_measurement_bytes());
            assert(self.aht20.i2c.log() =~= old(self).aht20.i2c.log() + trigger_measurement_ops(
                old(self).aht20.address,
            ));
        }
        Ok(())
    }

    /// Perform one measurement exchange and return the five raw
    /// payload bytes.
    ///
    /// Triggers a measurement, waits the 80 ms conversion time,
    /// polls the status byte until it reports ready (1 ms between
    /// polls, at most [`MAX_STATUS_POLLS`] polls), then reads the
    /// 7-byte reply and checks it with [`parse_measurement`]. The
    /// recoverable faults [`Error::InvalidCrc`] and
    /// [`Error::UnexpectedReady`] are surfaced to
    /// [`AHT20Initialized::measure`], which retries them.
    #[verifier::loop_isolation(false)]
    pub fn measure_once<D: Delay>(&mut self, delay: &mut D) -> (result: Result<
        [u8; 5],
        Error<I::BusError>,
    >)
        ensures
            final(self).aht20.address == old(self).aht20.address,
            result matches Ok(payload) ==> exists|attempt: Seq<BusOp>|
                successful_attempt(attempt, old(self).aht20.address, payload@)
                    && final(self).aht20.i2c.log() == old(self).aht20.i2c.log() + attempt,
            result == Err::<[u8; 5], Error<I::BusError>>(Error::InvalidCrc) ==> exists|
                attempt: Seq<BusOp>,
            |
                crc_failed_attempt(attempt, old(self).aht20.address) && final(self).aht20.i2c.log()
                    == old(self).aht20.i2c.log() + attempt,
            result == Err::<[u8; 5], Error<I::BusError>>(Error::UnexpectedReady) ==> exists|
                attempt: Seq<BusOp>,
            |
                contradicted_attempt(attempt, old(self).aht20.address)
                    && final(self).aht20.i2c.log() == old(self).aht20.i2c.log() + attempt,
            result == Err::<[u8; 5], Error<I::BusError>>(Error::Timeout) ==> exists|
                polls: Seq<BusOp>,
            |
                busy_polls(polls, old(self).aht20.address) && polls.len() == 2 * MAX_STATUS_POLLS
                    && final(self).aht20.i2c.log() == old(self).aht20.i2c.log()
                    + trigger_measurement_ops(old(self).aht20.address) + polls,
    {
        let ghost address = self.aht20.address;
        let ghost initial_log = self.aht20.i2c.log();
        match self.send_trigger_measurement() {
            Ok(()) => {},
            Err(error) => {
                return Err(error);
            },
        }
        delay.delay_ms(80);

        let ghost mut busy_ops = Seq::<BusOp>::empty();
        let mut polls: u32 = 0;
        let mut status = match self.aht20.check_status() {
            Ok(status) => status,
            Err(error) => {
                return Err(error);
            },
        };
        while !status.is_ready() && polls + 1 < MAX_STATUS_POLLS
            invariant
                polls + 1 <= MAX_STATUS_POLLS,
                self.aht20.address == address,
                busy_polls(busy_ops, address),
                busy_ops.len() == 2 * polls,
                self.aht20.i2c.log() == initial_log + trigger_measurement_ops(address) + busy_ops
                    + status_poll_ops(address, status.0),
            decreases MAX_STATUS_POLLS - polls,
        {
            delay.delay_ms(1);
            proof {
                lemma_busy_polls_extend(busy_ops, address, status.0);
                busy_ops = busy_ops + status_poll_ops(address, status.0);
            }
            status = match self.aht20.check_status() {
                Ok(status) => status,
                Err(error) => {
                    return Err(error);
                },
            };
            polls = polls + 1;
        }
        if !status.is_ready() {
            proof {
                lemma_busy_polls_extend(busy_ops, address, status.0);
                busy_ops = busy_ops + status_poll_ops(address, status.0);
                assert(self.aht20.i2c.log() =~= initial_log + trigger_measurement_ops(address)
                    + busy_ops);
            }
            return Err(Error::Timeout);
        }

        let ghost ready_status = status.0;
        let data = match self.aht20.i2c.bus_read(self.aht20.address, 7) {
            Ok(data) => data,
            Err(error) => {
                return Err(Error::I2c(error));
            },
        };
        let ghost attempt = measurement_attempt_ops(address, busy_ops, ready_status, data@);
        proof {
            assert(self.aht20.i2c.log() =~= initial_log + attempt);
        }
        match parse_measurement::<I::BusError>(&data) {
            Ok(payload) => {
                proof {
                    assert(successful_attempt(attempt, address, payload@));
                }
                Ok(payload)
            },
            Err(error) => {
                proof {
                    if crc8_of(data@.take(6)) != data@[6] {
                        assert(crc_failed_attempt(attempt, address));
                    } else {
                        assert(contradicted_attempt(attempt, address));
                    }
                }
                Err(error)
            },
        }
    }

    /// Measure temperature and humidity.
    ///
    /// Runs measurement attempts until one yields a reply that
    /// passes both the checksum comparison and the ready re-check,
    /// and decodes its payload into the two raw 20-bit readings.
    /// Replies lost to the two recoverable faults are retried
    /// silently; only after [`MAX_MEASUREMENT_ATTEMPTS`] failed
    /// attempts in a row is the last such fault surfaced. A bus
    /// error or a timeout is surfaced immediately.
    #[verifier::loop_isolation(false)]
    pub fn measure<D: Delay>(&mut self, delay: &mut D) -> (result: Result<
        SensorReading,
        Error<I::BusError>,
    >)
        ensures
            final(self).aht20.address == old(self).aht20.address,
            result matches Ok(reading) ==> exists|
                failed: Seq<BusOp>,
                count: nat,
                attempt: Seq<BusOp>,
                payload: Seq<u8>,
            |
                {
                    &&& failed_attempts(failed, old(self).aht20.address, count)
                    &&& count < MAX_MEASUREMENT_ATTEMPTS
                    &&& successful_attempt(attempt, old(self).aht20.address, payload)
                    &&& reading.humidity_raw == humidity_raw_of(payload)
                    &&& reading.temperature_raw == temperature_raw_of(payload)
                    &&& final(self).aht20.i2c.log() == old(self).aht20.i2c.log() + failed + attempt
                },
            result == Err::<SensorReading, Error<I::BusError>>(Error::InvalidCrc) || result
                == Err::<SensorReading, Error<I::BusError>>(Error::UnexpectedReady) ==> exists|
                failed: Seq<BusOp>,
            |
                failed_attempts(
                    failed,
                    old(self).aht20.address,
                    MAX_MEASUREMENT_ATTEMPTS as nat,
                ) && final(self).aht20.i2c.log() == old(self).aht20.i2c.log() + failed,
            result == Err::<SensorReading, Error<I::BusError>>(Error::Timeout) ==> exists|
                failed: Seq<BusOp>,
                count: nat,
                polls: Seq<BusOp>,
            |
                {
                    &&& failed_attempts(failed, old(self).aht20.address, count)
                    &&& count < MAX_MEASUREMENT_ATTEMPTS
                    &&& busy_polls(polls, old(self).aht20.address)
                    &&& polls.len() == 2 * MAX_STATUS_POLLS
                    &&& final(self).aht20.i2c.log() == old(self).aht20.i2c.log() + failed
                        + trigger_measurement_ops(old(self).aht20.address) + polls
                },
    {
        let ghost address = self.aht20.address;
        let ghost initial_log = self.aht20.i2c.log();
        let mut attempts: u32 = 0;
        let ghost mut failed = Seq::<BusOp>::empty();
        loop
            invariant
                attempts < MAX_MEASUREMENT_ATTEMPTS,
                self.aht20.address == address,
                failed_attempts(failed, address, attempts as nat),
                self.aht20.i2c.log() == initial_log + failed,
            decreases MAX_MEASUREMENT_ATTEMPTS - attempts,
        {
            let ghost log_before = self.aht20.i2c.log();
            match self.measure_once(delay) {
                Ok(payload) => {
                    let reading = SensorReading::from_bytes(payload);
                    proof {
                        let attempt = choose|attempt: Seq<BusOp>|
                            successful_attempt(attempt, address, payload@) && self.aht20.i2c.log()
                                == log_before + attempt;
                        assert(self.aht20.i2c.log() =~= initial_log + failed + attempt);
                        assert(failed_attempts(failed, address, attempts as nat) && (attempts
                            as nat) < MAX_MEASUREMENT_ATTEMPTS && successful_attempt(
                            attempt,
                            address,
                            payload@,
                        ) && reading.humidity_raw == humidity_raw_of(payload@)
                            && reading.temperature_raw == temperature_raw_of(payload@)
                            && self.aht20.i2c.log() == initial_log + failed + attempt);
                    }
                    return Ok(reading);
                },
                Err(Error::InvalidCrc) => {
                    proof {
                        let attempt = choose|attempt: Seq<BusOp>|
                            crc_failed_attempt(attempt, address) && self.aht20.i2c.log()
                                == log_before + attempt;
                        lemma_crc_failed_is_failed(attempt, address);
                        lemma_failed_attempts_extend(failed, attempt, address, attempts as nat);
                        failed = failed + attempt;
                        assert(self.aht20.i2c.log() =~= initial_log + failed);
                    }
                    if attempts + 1 == MAX_MEASUREMENT_ATTEMPTS {
                        return Err(Error::InvalidCrc);
                    }
                    attempts = attempts + 1;
                },
                Err(Error::UnexpectedReady) => {
                    proof {
                        let attempt = choose|attempt: Seq<BusOp>|
                            contradicted_attempt(attempt, address) && self.aht20.i2c.log()
                                == log_before + attempt;
                        lemma_contradicted_is_failed(attempt, address);
                        lemma_failed_attempts_extend(failed, attempt, address, attempts as nat);
                        failed = failed + attempt;
                        assert(self.aht20.i2c.log() =~= initial_log + failed);
                    }
                    if attempts + 1 == MAX_MEASUREMENT_ATTEMPTS {
                        return Err(Error::UnexpectedReady);
                    }
                    attempts = attempts + 1;
                },
                Err(other) => {
                    proof {
                        if other == Error::<I::BusError>::Timeout {
                            let polls = choose|polls: Seq<BusOp>|
                                busy_polls(polls, address) && polls.len() == 2 * MAX_STATUS_POLLS
                                    && self.aht20.i2c.log() == log_before
                                    + trigger_measurement_ops(address) + polls;
                            assert(self.aht20.i2c.log() =~= initial_log + failed
                                + trigger_measurement_ops(address) + polls);
                            assert(failed_attempts(failed, address, attempts as nat) && (attempts
                                as nat) < MAX_MEASUREMENT_ATTEMPTS && busy_polls(polls, address)
                                && polls.len() == 2 * MAX_STATUS_POLLS && self.aht20.i2c.log()
                                == initial_log + failed + trigger_measurement_ops(address)
                                + polls);
                        }
                    }
                    return Err(other);
                },
            }
        }
    }

    /// Send the `SoftReset` command and wait out the 20 ms the
    /// datasheet guarantees a reset takes at most, so the caller may
    /// issue further commands immediately after this returns.
    pub fn soft_reset<D: Delay>(&mut self, delay: &mut D) -> (result: Result<
        (),
        Error<I::BusError>,
    >)
        ensures
            final(self).aht20.address == old(self).aht20.address,
            result is Ok ==> final(self).aht20.i2c.log() == old(self).aht20.i2c.log()
                + soft_reset_ops(old(self).aht20.address),
            result is Err ==> result matches Err(Error::I2c(_)),
    {
        let mut command: Vec<u8> = Vec::new();
        command.push(Command::SoftReset.opcode());
        match self.aht20.i2c.bus_write(self.aht20.address, &command) {
            Ok(()) => {},
            Err(error) => {
                return Err(Error::I2c(error));
            },
        }
        delay.delay_ms(20);
        proof {
            assert(self.aht20.i2c.log() =~= old(self).aht20.i2c.log() + soft_reset_ops(
                old(self).aht20.address,
            ));
        }
        Ok(())
    }

    /// Release the initialized driver, and with it the bus it owns,
    /// back to the caller.
    pub fn destroy(self) -> (device: Self)
        ensures
            device == self,
    {
        self
    }
}

} // verus!
