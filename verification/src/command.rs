use vstd::prelude::*;

verus! {

/// The commands the sensor understands, from the device's command
/// table.
///
/// `Initialize` and `TriggerMeasurement` each take two fixed
/// parameter bytes on the wire (`0x08, 0x00` and `0x33, 0x00`); the
/// datasheet gives no meaning for them, they are simply part of the
/// three-byte command. `Calibrate` is listed in the command table but
/// the protocol flow never issues it: calibration is requested with
/// `Initialize` and observed through the status byte.
#[derive(Debug, Clone, Copy)]
pub enum Command {
    /// Ask for one byte of status word (`0x71`).
    CheckStatus,
    /// Initialize and calibrate the sensor (`0xBE`).
    Initialize,
    /// Return calibration status (`0xE1`).
    Calibrate,
    /// Start a measurement; its result is ready to read after the
    /// busy flag clears (`0xAC`).
    TriggerMeasurement,
    /// Reset the sensor; complete within 20 ms (`0xBA`).
    SoftReset,
}

impl Command {
    /// The opcode byte that starts this command on the wire.
    pub open spec fn opcode_spec(self) -> u8 {
        match self {
            Command::CheckStatus => 0x71,
            Command::Initialize => 0xBE,
            Command::Calibrate => 0xE1,
            Command::TriggerMeasurement => 0xAC,
            Command::SoftReset => 0xBA,
        }
    }

    /// Executable twin of [`Command::opcode_spec`].
    #[verifier::when_used_as_spec(opcode_spec)]
    pub fn opcode(self) -> (opcode: u8)
        ensures
            opcode == self.opcode_spec(),
    {
        match self {
            Command::CheckStatus => 0x71,
            Command::Initialize => 0xBE,
            Command::Calibrate => 0xE1,
            Command::TriggerMeasurement => 0xAC,
            Command::SoftReset => 0xBA,
        }
    }
}

} // verus!
