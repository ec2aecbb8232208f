use vstd::prelude::*;

verus! {

/// The CRC-8 checksum of a byte sequence, with polynomial `0x31`,
/// initial register value `0xFF`, no input or output reflection and
/// no final XOR, processing the bytes in order, most significant bit
/// first — the parameterization the sensor's datasheet prescribes
/// (the Dallas/Maxim 1-Wire style CRC-8).
///
/// The checksum itself is computed by the `crc_any` crate; this name
/// stands for its result, which depends on the input bytes alone.
pub uninterp spec fn crc8_of(data: Seq<u8>) -> u8;

/// Relies on `crc_any::CRCu8` with polynomial `0x31`, width 8 bits,
/// initial value `0xFF`, final XOR `0x00` and no reflection: the
/// checksum is a pure table-driven function of the input bytes and
/// those parameters alone.
#[verifier::external_body]
fn crc8_dallas_maxim(bytes: &Vec<u8>) -> (checksum: u8)
    ensures
        checksum == crc8_of(bytes@),
{
    let mut crc = crc_any::CRCu8::create_crc(0x31, 8, 0xff, 0x00, false);
    crc.digest(bytes);
    crc.get_crc()
}

/// The checksum the sensor appends to a measurement reply: an 8-bit
/// CRC over the six bytes of repeated status and packed reading. A
/// reply is accepted only when the checksum computed here equals the
/// seventh byte received.
pub fn compute_crc(bytes: &Vec<u8>) -> (checksum: u8)
    ensures
        checksum == crc8_of(bytes@),
{
    crc8_dallas_maxim(bytes)
}

} // verus!
