use aht20_driver::parse_measurement;
use aht20_driver::Error;
use aht20_driver::ScriptMismatch;

// A 7-byte reply captured from a real sensor run: repeated status,
// five payload bytes, checksum.
const GOOD_REPLY: [u8; 7] = [0x1C, 0x65, 0xB4, 0x25, 0xCD, 0x26, 0xC6];

/// A reply whose checksum matches and whose status byte confirms
/// ready yields exactly the five payload bytes.
#[test]
fn parse_accepts_valid_reply() {
    let reply = GOOD_REPLY.to_vec();
    let result: Result<[u8; 5], Error<ScriptMismatch>> = parse_measurement(&reply);
    assert_eq!(result, Ok([0x65, 0xB4, 0x25, 0xCD, 0x26]));
}

/// One flipped payload bit makes the checksum comparison fail.
#[test]
fn parse_rejects_corrupted_reply() {
    let mut reply = GOOD_REPLY.to_vec();
    reply[5] ^= 0x01;
    let result: Result<[u8; 5], Error<ScriptMismatch>> = parse_measurement(&reply);
    assert_eq!(result, Err(Error::InvalidCrc));
}

/// A reply whose checksum-protected status byte reports busy is
/// rejected even though its checksum matches.
#[test]
fn parse_rejects_busy_reply() {
    // Captured reply with the busy bit set in the status byte and
    // the checksum recomputed to match.
    let reply = vec![0x9C, 0x65, 0xB4, 0x25, 0xCD, 0x26, 0x2A];
    let result: Result<[u8; 5], Error<ScriptMismatch>> = parse_measurement(&reply);
    assert_eq!(result, Err(Error::UnexpectedReady));
}
