use vstd::prelude::*;

verus! {

/// Bit masks of the sensor's status byte.
///
/// `Busy` is bit 7: while it is set the sensor is still working on a
/// measurement and the data registers must not be read. `Calibrated` is
/// bit 3: while it is clear the sensor has not finished its internal
/// calibration and the `Initialize` command has to be issued.
#[derive(Clone, Copy)]
pub enum Status {
    Busy,
    Calibrated,
}

impl Status {
    /// The bit mask this flag occupies inside the status byte.
    pub open spec fn mask_spec(self) -> u8 {
        match self {
            Status::Busy => 0x80,
            Status::Calibrated => 0x08,
        }
    }

    /// Executable twin of [`Status::mask_spec`].
    #[verifier::when_used_as_spec(mask_spec)]
    pub fn mask(self) -> (mask: u8)
        ensures
            mask == self.mask_spec(),
    {
        match self {
            Status::Busy => 0x80,
            Status::Calibrated => 0x08,
        }
    }
}

/// A status byte reports "ready" when the busy bit (bit 7) is clear.
pub open spec fn is_ready_byte(byte: u8) -> bool {
    byte & 0x80 == 0
}

/// A status byte reports "calibrated" when the calibrated bit (bit 3) is set.
pub open spec fn is_calibrated_byte(byte: u8) -> bool {
    byte & 0x08 != 0
}

/// The sensor's reply to the `CheckStatus` command: one raw status byte.
///
/// It is consumed right after it is read, both while waiting for the
/// calibration that `initialize` triggers and while waiting for a
/// measurement to finish.
#[derive(Debug, Clone, Copy)]
pub struct SensorStatus(pub u8);

impl SensorStatus {
    /// Wrap a raw status byte as reported by the sensor.
    pub fn new(status: u8) -> (result: Self)
        ensures
            result.0 == status,
    {
        SensorStatus(status)
    }

    /// True exactly when the busy bit is clear, i.e. the byte is
    /// `b` with `b & 0x80 == 0`: measurement data may be read.
    pub fn is_ready(self) -> (ready: bool)
        ensures
            ready == is_ready_byte(self.0),
    {
        (self.0 & Status::Busy.mask()) == 0
    }

    /// True exactly when the calibrated bit is set, i.e. the byte is
    /// `b` with `b & 0x08 != 0`: no `Initialize` command is needed.
    pub fn is_calibrated(self) -> (calibrated: bool)
        ensures
            calibrated == is_calibrated_byte(self.0),
    {
        (self.0 & Status::Calibrated.mask()) != 0
    }
}

} // verus!
