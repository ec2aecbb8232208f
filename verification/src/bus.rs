use vstd::prelude::*;

verus! {

/// One transfer on the two-wire bus, as seen on the wire: either a
/// write of some bytes to a device address, or a read of some bytes
/// from it.
///
/// Values of this type exist only in specifications. A bus
/// implementation keeps a ghost history of the transfers it has
/// performed, and the driver's contracts describe that history.
pub enum BusOp {
    Write { address: u8, bytes: Seq<u8> },
    Read { address: u8, bytes: Seq<u8> },
}

/// A blocking two-wire bus master.
///
/// The driver is generic over this trait; the hardware abstraction
/// layer of the target platform supplies the implementation. The
/// specification views a bus as the growing log of transfers it has
/// carried out: a successful write appends a `BusOp::Write`, a
/// successful read appends a `BusOp::Read` holding whatever bytes the
/// device answered. Nothing is promised about the bytes a read
/// returns — the device, not the driver, chooses them — nor about the
/// log when a transfer fails.
pub trait I2cBus: Sized {
    /// The transport's own error type, propagated untouched.
    type BusError;

    /// The history of transfers this bus has performed so far.
    ///
    /// An implementation verified against this trait overrides this
    /// with its own model of the hardware's history. The default
    /// body exists so that implementations outside the verifier —
    /// adapters over a hardware abstraction layer — can leave it
    /// out; what such an implementation does on the wire is trusted,
    /// not checked.
    open spec fn log(&self) -> Seq<BusOp> {
        Seq::empty()
    }

    /// Write all of `bytes` to the device at `address`.
    fn bus_write(&mut self, address: u8, bytes: &Vec<u8>) -> (result: Result<(), Self::BusError>)
        ensures
            result is Ok ==> final(self).log() == old(self).log().push(
                BusOp::Write { address, bytes: bytes@ },
            ),
    ;

    /// Read exactly `len` bytes from the device at `address`.
    fn bus_read(&mut self, address: u8, len: usize) -> (result: Result<
        Vec<u8>,
        Self::BusError,
    >)
        ensures
            result matches Ok(data) ==> data@.len() == len && final(self).log() == old(
                self,
            ).log().push(BusOp::Read { address, bytes: data@ }),
    ;
}

/// A blocking timing source.
///
/// The sensor's datasheet prescribes settle times between commands;
/// the driver asks this trait to wait them out. An implementation
/// must block for at least the requested time and must not return
/// early.
pub trait Delay {
    /// Block the calling thread for at least `ms` milliseconds.
    fn delay_ms(&mut self, ms: u16);
}

} // verus!
