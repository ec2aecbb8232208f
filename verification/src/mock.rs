use vstd::prelude::*;

use crate::bus::BusOp;
use crate::bus::Delay;
use crate::bus::I2cBus;

verus! {

/// One expected transfer in a scripted bus session: the direction,
/// the device address, and the bytes on the wire (for a read, the
/// bytes the scripted device will answer).
pub enum Transaction {
    Write { address: u8, bytes: Vec<u8> },
    Read { address: u8, bytes: Vec<u8> },
}

impl Transaction {
    /// Expect a write of exactly `bytes` to `address`.
    pub fn write(address: u8, bytes: Vec<u8>) -> (t: Self)
        ensures
            t == (Transaction::Write { address, bytes }),
    {
        Transaction::Write { address, bytes }
    }

    /// Expect a read from `address`, answered with `bytes`.
    pub fn read(address: u8, bytes: Vec<u8>) -> (t: Self)
        ensures
            t == (Transaction::Read { address, bytes }),
    {
        Transaction::Read { address, bytes }
    }
}

/// The error a [`ScriptedBus`] reports when the driver attempts a
/// transfer that its script does not expect next.
#[derive(Debug, Clone, Copy, PartialEq, Eq)]
pub struct ScriptMismatch;

/// Compare two byte vectors element by element.
fn bytes_equal(a: &Vec<u8>, b: &Vec<u8>) -> (equal: bool)
    ensures
        equal == (a@ == b@),
{
    if a.len() != b.len() {
        return false;
    }
    let mut i: usize = 0;
    while i < a.len()
        invariant
            i <= a@.len(),
            a@.len() == b@.len(),
            forall|j: int| 0 <= j < i ==> a@[j] == b@[j],
        decreases a@.len() - i,
    {
        if a[i] != b[i] {
            return false;
        }
        i = i + 1;
    }
    proof {
        assert(a@ =~= b@);
    }
    true
}

/// Copy a byte vector element by element.
fn copy_bytes(src: &Vec<u8>) -> (copy: Vec<u8>)
    ensures
        copy@ == src@,
{
    let mut copy: Vec<u8> = Vec::new();
    let mut i: usize = 0;
    while i < src.len()
        invariant
            i <= src@.len(),
            copy@ == src@.take(i as int),
        decreases src@.len() - i,
    {
        copy.push(src[i]);
        proof {
            assert(copy@ =~= src@.take(i + 1 as int));
        }
        i = i + 1;
    }
    proof {
        assert(src@.take(src@.len() as int) =~= src@);
    }
    copy
}

/// A bus that follows a fixed script of expected transactions.
///
/// Each write must match the next scripted write byte for byte; each
/// read is answered with the next scripted read's bytes. Any
/// deviation — wrong direction, wrong address, wrong bytes, wrong
/// length, or a script that has run out — fails the transfer with
/// [`ScriptMismatch`]. This stands in for the real sensor in tests
/// and doubles as the one in-crate implementation of [`I2cBus`],
/// verified against the trait's contract.
pub struct ScriptedBus {
    script: Vec<Transaction>,
    position: usize,
    history: Ghost<Seq<BusOp>>,
}

impl ScriptedBus {
    /// The transfers performed so far, same as the trait's `log`.
    pub closed spec fn performed(&self) -> Seq<BusOp> {
        self.history@
    }

    /// True when every scripted transaction has been consumed.
    pub closed spec fn script_exhausted(&self) -> bool {
        self.position == self.script.len()
    }

    /// A bus that expects exactly the transactions of `script`, in order.
    pub fn new(script: Vec<Transaction>) -> (bus: Self)
        ensures
            bus.performed() == Seq::<BusOp>::empty(),
            script@.len() == 0 ==> bus.script_exhausted(),
    {
        ScriptedBus { script, position: 0, history: Ghost(Seq::empty()) }
    }

    /// True when every scripted transaction has been consumed; call
    /// at the end of a test to check that nothing expected was left
    /// undone.
    pub fn done(&self) -> (done: bool)
        ensures
            done == self.script_exhausted(),
    {
        self.position == self.script.len()
    }
}

impl I2cBus for ScriptedBus {
    type BusError = ScriptMismatch;

    closed spec fn log(&self) -> Seq<BusOp> {
        self.history@
    }

    fn bus_write(&mut self, address: u8, bytes: &Vec<u8>) -> (result: Result<(), ScriptMismatch>) {
        if self.position < self.script.len() {
            let matches_script = match &self.script[self.position] {
                Transaction::Write { address: expected_address, bytes: expected_bytes } => {
                    *expected_address == address && bytes_equal(expected_bytes, bytes)
                },
                Transaction::Read { .. } => false,
            };
            if matches_script {
                self.position = self.position + 1;
                self.history = Ghost(self.history@.push(BusOp::Write { address, bytes: bytes@ }));
                return Ok(());
            }
        }
        Err(ScriptMismatch)
    }

    fn bus_read(&mut self, address: u8, len: usize) -> (result: Result<Vec<u8>, ScriptMismatch>) {
        if self.position < self.script.len() {
            let answer = match &self.script[self.position] {
                Transaction::Read { address: expected_address, bytes: answer_bytes } => {
                    if *expected_address == address && answer_bytes.len() == len {
                        Some(copy_bytes(answer_bytes))
                    } else {
                        None
                    }
                },
                Transaction::Write { .. } => None,
            };
            if let Some(data) = answer {
                self.position = self.position + 1;
                self.history = Ghost(self.history@.push(BusOp::Read { address, bytes: data@ }));
                return Ok(data);
            }
        }
        Err(ScriptMismatch)
    }
}

/// A timing source that does not wait: the scripted bus answers
/// immediately, so tests have nothing to wait for.
pub struct NoopDelay;

impl Delay for NoopDelay {
    fn delay_ms(&mut self, _ms: u16) {
    }
}

} // verus!
