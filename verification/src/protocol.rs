use vstd::prelude::*;

use crate::bus::BusOp;
use crate::command::Command;
use crate::crc::crc8_of;
use crate::status::is_calibrated_byte;
use crate::status::is_ready_byte;

verus! {

// The exact byte strings each command puts on the wire.

/// `CheckStatus` is the bare opcode.
pub open spec fn check_status_bytes() -> Seq<u8> {
    seq![Command::CheckStatus.opcode()]
}

/// `Initialize` carries its two fixed parameter bytes.
pub open spec fn initialize_bytes() -> Seq<u8> {
    seq![Command::Initialize.opcode(), 0x08u8, 0x00u8]
}

/// `TriggerMeasurement` carries its two fixed parameter bytes.
pub open spec fn trigger_measurement_bytes() -> Seq<u8> {
    seq![Command::TriggerMeasurement.opcode(), 0x33u8, 0x00u8]
}

/// `SoftReset` is the bare opcode.
pub open spec fn soft_reset_bytes() -> Seq<u8> {
    seq![Command::SoftReset.opcode()]
}

// Transfer blocks, the building bricks of every driver trace.

/// One status poll: the `CheckStatus` command written, one byte
/// `status` read back.
pub open spec fn status_poll_ops(address: u8, status: u8) -> Seq<BusOp> {
    seq![
        BusOp::Write { address, bytes: check_status_bytes() },
        BusOp::Read { address, bytes: seq![status] },
    ]
}

/// One `Initialize` command.
pub open spec fn initialize_ops(address: u8) -> Seq<BusOp> {
    seq![BusOp::Write { address, bytes: initialize_bytes() }]
}

/// One `TriggerMeasurement` command.
pub open spec fn trigger_measurement_ops(address: u8) -> Seq<BusOp> {
    seq![BusOp::Write { address, bytes: trigger_measurement_bytes() }]
}

/// One `SoftReset` command.
pub open spec fn soft_reset_ops(address: u8) -> Seq<BusOp> {
    seq![BusOp::Write { address, bytes: soft_reset_bytes() }]
}

// Initialization traces.

/// One round of the initialization loop: a status poll whose answer
/// reported uncalibrated, followed by exactly one `Initialize`
/// command.
pub open spec fn uncalibrated_round_ops(address: u8, status: u8) -> Seq<BusOp> {
    status_poll_ops(address, status) + initialize_ops(address)
}

/// `ops` is a concatenation of uncalibrated rounds: every status
/// byte read in it reported uncalibrated, and each such report was
/// answered with exactly one `Initialize` command.
pub open spec fn uncalibrated_rounds(ops: Seq<BusOp>, address: u8) -> bool
    decreases ops.len(),
{
    if ops.len() == 0 {
        true
    } else if ops.len() < 3 {
        false
    } else {
        (exists|status: u8|
            !is_calibrated_byte(status) && ops.take(3) == uncalibrated_round_ops(address, status))
            && uncalibrated_rounds(ops.skip(3), address)
    }
}

/// Appending one more uncalibrated round keeps a trace a
/// concatenation of uncalibrated rounds.
pub proof fn lemma_uncalibrated_rounds_extend(ops: Seq<BusOp>, address: u8, status: u8)
    requires
        uncalibrated_rounds(ops, address),
        !is_calibrated_byte(status),
    ensures
        uncalibrated_rounds(ops + uncalibrated_round_ops(address, status), address),
    decreases ops.len(),
{
    let round = uncalibrated_round_ops(address, status);
    let combined = ops + round;
    if ops.len() == 0 {
        assert(combined.take(3) =~= round);
        assert(combined.skip(3) =~= Seq::<BusOp>::empty());
        assert(uncalibrated_rounds(combined.skip(3), address));
        assert(!is_calibrated_byte(status) && combined.take(3) == uncalibrated_round_ops(
            address,
            status,
        ));
    } else {
        let witness = choose|s: u8|
            !is_calibrated_byte(s) && ops.take(3) == uncalibrated_round_ops(address, s);
        assert(combined.take(3) =~= ops.take(3));
        assert(combined.skip(3) =~= ops.skip(3) + round);
        lemma_uncalibrated_rounds_extend(ops.skip(3), address, status);
        assert(uncalibrated_rounds(combined.skip(3), address));
        assert(!is_calibrated_byte(witness) && combined.take(3) == uncalibrated_round_ops(
            address,
            witness,
        ));
    }
}

// Busy-wait traces.

/// `ops` is a sequence of status polls, every one of which was
/// answered with a byte still reporting busy.
pub open spec fn busy_polls(ops: Seq<BusOp>, address: u8) -> bool
    decreases ops.len(),
{
    if ops.len() == 0 {
        true
    } else if ops.len() < 2 {
        false
    } else {
        (exists|status: u8|
            !is_ready_byte(status) && ops.take(2) == status_poll_ops(address, status))
            && busy_polls(ops.skip(2), address)
    }
}

/// Appending one more busy answer keeps a trace a sequence of busy
/// polls.
pub proof fn lemma_busy_polls_extend(ops: Seq<BusOp>, address: u8, status: u8)
    requires
        busy_polls(ops, address),
        !is_ready_byte(status),
    ensures
        busy_polls(ops + status_poll_ops(address, status), address),
    decreases ops.len(),
{
    let poll = status_poll_ops(address, status);
    let combined = ops + poll;
    if ops.len() == 0 {
        assert(combined.take(2) =~= poll);
        assert(combined.skip(2) =~= Seq::<BusOp>::empty());
        assert(busy_polls(combined.skip(2), address));
        assert(!is_ready_byte(status) && combined.take(2) == status_poll_ops(address, status));
    } else {
        let witness = choose|s: u8|
            !is_ready_byte(s) && ops.take(2) == status_poll_ops(address, s);
        assert(combined.take(2) =~= ops.take(2));
        assert(combined.skip(2) =~= ops.skip(2) + poll);
        lemma_busy_polls_extend(ops.skip(2), address, status);
        assert(busy_polls(combined.skip(2), address));
        assert(!is_ready_byte(witness) && combined.take(2) == status_poll_ops(address, witness));
    }
}

// Measurement traces.

/// All transfers of one measurement attempt that reached the data
/// read: the trigger command, `polls` polls answered busy, one poll
/// answered `ready_status`, and one 7-byte read answered `data`.
pub open spec fn measurement_attempt_ops(
    address: u8,
    polls: Seq<BusOp>,
    ready_status: u8,
    data: Seq<u8>,
) -> Seq<BusOp> {
    trigger_measurement_ops(address) + polls + status_poll_ops(address, ready_status) + seq![
        BusOp::Read { address, bytes: data },
    ]
}

/// A measurement attempt whose 7-byte reply passed both checks: the
/// checksum over the first six bytes matches the seventh, and the
/// checksum-protected status byte confirms ready. `payload` is the
/// five data bytes the attempt yields.
pub open spec fn successful_attempt(ops: Seq<BusOp>, address: u8, payload: Seq<u8>) -> bool {
    exists|polls: Seq<BusOp>, ready_status: u8, data: Seq<u8>|
        {
            &&& busy_polls(polls, address)
            &&& is_ready_byte(ready_status)
            &&& data.len() == 7
            &&& crc8_of(data.take(6)) == data[6]
            &&& is_ready_byte(data[0])
            &&& payload == data.subrange(1, 6)
            &&& ops == measurement_attempt_ops(address, polls, ready_status, data)
        }
}

/// A measurement attempt whose 7-byte reply had to be discarded:
/// either its checksum does not match the seventh byte, or it does
/// but the checksum-protected status byte reports busy, contradicting
/// the unprotected ready answer that allowed the read.
pub open spec fn failed_attempt(ops: Seq<BusOp>, address: u8) -> bool {
    exists|polls: Seq<BusOp>, ready_status: u8, data: Seq<u8>|
        {
            &&& busy_polls(polls, address)
            &&& is_ready_byte(ready_status)
            &&& data.len() == 7
            &&& (crc8_of(data.take(6)) != data[6] || !is_ready_byte(data[0]))
            &&& ops == measurement_attempt_ops(address, polls, ready_status, data)
        }
}

/// A measurement attempt whose reply failed the checksum comparison:
/// the checksum computed over the first six bytes does not match the
/// seventh.
pub open spec fn crc_failed_attempt(ops: Seq<BusOp>, address: u8) -> bool {
    exists|polls: Seq<BusOp>, ready_status: u8, data: Seq<u8>|
        {
            &&& busy_polls(polls, address)
            &&& is_ready_byte(ready_status)
            &&& data.len() == 7
            &&& crc8_of(data.take(6)) != data[6]
            &&& ops == measurement_attempt_ops(address, polls, ready_status, data)
        }
}

/// A measurement attempt whose reply passed the checksum comparison
/// but whose checksum-protected status byte reports busy, although
/// the unprotected poll just before answered ready.
pub open spec fn contradicted_attempt(ops: Seq<BusOp>, address: u8) -> bool {
    exists|polls: Seq<BusOp>, ready_status: u8, data: Seq<u8>|
        {
            &&& busy_polls(polls, address)
            &&& is_ready_byte(ready_status)
            &&& data.len() == 7
            &&& crc8_of(data.take(6)) == data[6]
            &&& !is_ready_byte(data[0])
            &&& ops == measurement_attempt_ops(address, polls, ready_status, data)
        }
}

/// A reply that failed the checksum comparison makes the attempt a
/// failed one.
pub proof fn lemma_crc_failed_is_failed(ops: Seq<BusOp>, address: u8)
    requires
        crc_failed_attempt(ops, address),
    ensures
        failed_attempt(ops, address),
{
    let (polls, ready_status, data) = choose|
        polls: Seq<BusOp>,
        ready_status: u8,
        data: Seq<u8>,
    |
        {
            &&& busy_polls(polls, address)
            &&& is_ready_byte(ready_status)
            &&& data.len() == 7
            &&& crc8_of(data.take(6)) != data[6]
            &&& ops == measurement_attempt_ops(address, polls, ready_status, data)
        };
    assert(busy_polls(polls, address) && is_ready_byte(ready_status) && data.len() == 7 && (
    crc8_of(data.take(6)) != data[6] || !is_ready_byte(data[0])) && ops
        == measurement_attempt_ops(address, polls, ready_status, data));
}

/// A self-contradicting reply makes the attempt a failed one.
pub proof fn lemma_contradicted_is_failed(ops: Seq<BusOp>, address: u8)
    requires
        contradicted_attempt(ops, address),
    ensures
        failed_attempt(ops, address),
{
    let (polls, ready_status, data) = choose|
        polls: Seq<BusOp>,
        ready_status: u8,
        data: Seq<u8>,
    |
        {
            &&& busy_polls(polls, address)
            &&& is_ready_byte(ready_status)
            &&& data.len() == 7
            &&& crc8_of(data.take(6)) == data[6]
            &&& !is_ready_byte(data[0])
            &&& ops == measurement_attempt_ops(address, polls, ready_status, data)
        };
    assert(busy_polls(polls, address) && is_ready_byte(ready_status) && data.len() == 7 && (
    crc8_of(data.take(6)) != data[6] || !is_ready_byte(data[0])) && ops
        == measurement_attempt_ops(address, polls, ready_status, data));
}

/// A failed attempt holds at least the trigger, one poll and the
/// read.
pub proof fn lemma_failed_attempt_nonempty(ops: Seq<BusOp>, address: u8)
    requires
        failed_attempt(ops, address),
    ensures
        ops.len() >= 4,
{
    let (polls, ready_status, data) = choose|
        polls: Seq<BusOp>,
        ready_status: u8,
        data: Seq<u8>,
    |
        {
            &&& busy_polls(polls, address)
            &&& is_ready_byte(ready_status)
            &&& data.len() == 7
            &&& (crc8_of(data.take(6)) != data[6] || !is_ready_byte(data[0]))
            &&& ops == measurement_attempt_ops(address, polls, ready_status, data)
        };
    assert(ops.len() == 4 + polls.len());
}

/// `ops` is a concatenation of exactly `count` failed attempts.
pub open spec fn failed_attempts(ops: Seq<BusOp>, address: u8, count: nat) -> bool
    decreases count,
{
    if count == 0 {
        ops.len() == 0
    } else {
        exists|split: int|
            {
                &&& 0 < split <= ops.len()
                &&& failed_attempt(ops.take(split), address)
                &&& failed_attempts(ops.skip(split), address, (count - 1) as nat)
            }
    }
}

/// Appending one more failed attempt raises the count by one.
pub proof fn lemma_failed_attempts_extend(
    ops: Seq<BusOp>,
    attempt: Seq<BusOp>,
    address: u8,
    count: nat,
)
    requires
        failed_attempts(ops, address, count),
        failed_attempt(attempt, address),
    ensures
        failed_attempts(ops + attempt, address, count + 1),
    decreases count,
{
    let combined = ops + attempt;
    if count == 0 {
        lemma_failed_attempt_nonempty(attempt, address);
        let split = combined.len() as int;
        assert(combined.take(split) =~= attempt);
        assert(combined.skip(split) =~= Seq::<BusOp>::empty());
        assert(0 < split <= combined.len() && failed_attempt(combined.take(split), address)
            && failed_attempts(combined.skip(split), address, 0));
    } else {
        let split = choose|split: int|
            {
                &&& 0 < split <= ops.len()
                &&& failed_attempt(ops.take(split), address)
                &&& failed_attempts(ops.skip(split), address, (count - 1) as nat)
            };
        assert(combined.take(split) =~= ops.take(split));
        assert(combined.skip(split) =~= ops.skip(split) + attempt);
        lemma_failed_attempts_extend(ops.skip(split), attempt, address, (count - 1) as nat);
        assert(0 < split <= combined.len() && failed_attempt(combined.take(split), address)
            && failed_attempts(combined.skip(split), address, count));
    }
}

// The counting law of the initialization loop.

/// The number of `Initialize` commands among `ops`.
pub open spec fn initialize_command_count(ops: Seq<BusOp>, address: u8) -> nat
    decreases ops.len(),
{
    if ops.len() == 0 {
        0
    } else {
        (if ops[0] == (BusOp::Write { address, bytes: initialize_bytes() }) {
            1nat
        } else {
            0nat
        }) + initialize_command_count(ops.skip(1), address)
    }
}

/// Counting `Initialize` commands distributes over concatenation.
pub proof fn lemma_initialize_command_count_concat(a: Seq<BusOp>, b: Seq<BusOp>, address: u8)
    ensures
        initialize_command_count(a + b, address) == initialize_command_count(a, address)
            + initialize_command_count(b, address),
    decreases a.len(),
{
    if a.len() == 0 {
        assert(a + b =~= b);
    } else {
        assert((a + b).skip(1) =~= a.skip(1) + b);
        lemma_initialize_command_count_concat(a.skip(1), b, address);
    }
}

/// A status poll never carries an `Initialize` command.
pub proof fn lemma_status_poll_has_no_initialize(address: u8, status: u8)
    ensures
        initialize_command_count(status_poll_ops(address, status), address) == 0,
{
    let poll = status_poll_ops(address, status);
    let tail = poll.skip(1);
    let end = tail.skip(1);
    assert(check_status_bytes().len() == 1);
    assert(initialize_bytes().len() == 3);
    assert(tail[0] == poll[1]);
    assert(end =~= Seq::<BusOp>::empty());
    assert(initialize_command_count(end, address) == 0);
    assert(initialize_command_count(tail, address) == 0);
}

/// Law: an initialization polling trace contains exactly one
/// `Initialize` command for every uncalibrated status report — three
/// transfers per round, exactly one of them the `Initialize` command.
/// In particular, a run whose first status report was already
/// calibrated has an empty polling trace and issues no `Initialize`
/// command at all, and a run with a single uncalibrated report
/// followed by a calibrated one issues exactly one.
pub proof fn lemma_one_initialize_per_uncalibrated_report(ops: Seq<BusOp>, address: u8)
    requires
        uncalibrated_rounds(ops, address),
    ensures
        3 * initialize_command_count(ops, address) == ops.len(),
    decreases ops.len(),
{
    if ops.len() == 0 {
    } else {
        let status = choose|s: u8|
            !is_calibrated_byte(s) && ops.take(3) == uncalibrated_round_ops(address, s);
        let round = ops.take(3);
        let rest = ops.skip(3);
        lemma_one_initialize_per_uncalibrated_report(rest, address);
        assert(ops =~= round + rest);
        lemma_initialize_command_count_concat(round, rest, address);
        assert(initialize_command_count(round, address) == 1) by {
            assert(check_status_bytes().len() == 1);
            assert(initialize_bytes().len() == 3);
            let r1 = round.skip(1);
            let r2 = r1.skip(1);
            let r3 = r2.skip(1);
            assert(r1[0] == round[1]);
            assert(r2[0] == round[2]);
            assert(r3 =~= Seq::<BusOp>::empty());
            assert(initialize_command_count(r3, address) == 0);
            assert(round[2] == (BusOp::Write { address, bytes: initialize_bytes() }));
            assert(initialize_command_count(r2, address) == 1);
            assert(initialize_command_count(r1, address) == 1);
        };
    }
}

/// Law: over the whole trace a successful initialization appends —
/// the uncalibrated rounds followed by the final, calibrated status
/// poll — the number of `Initialize` commands issued equals the
/// number of uncalibrated status reports received. A run whose
/// first report is calibrated therefore issues no `Initialize`
/// command, and a run with exactly one uncalibrated report followed
/// by a calibrated one issues exactly one.
pub proof fn lemma_init_trace_initialize_count(rounds: Seq<BusOp>, address: u8, status: u8)
    requires
        uncalibrated_rounds(rounds, address),
        is_calibrated_byte(status),
    ensures
        3 * initialize_command_count(rounds + status_poll_ops(address, status), address)
            == rounds.len(),
{
    lemma_one_initialize_per_uncalibrated_report(rounds, address);
    lemma_status_poll_has_no_initialize(address, status);
    lemma_initialize_command_count_concat(rounds, status_poll_ops(address, status), address);
}

} // verus!
