use vstd::prelude::*;

use crate::codec::{be_i16, raw_from_response, RAW_OFFSET};
use crate::error::{TemperReadErr, TransferStatus};

verus! {

/// `bmRequestType` of every control write: class request to an interface.
pub const REQUEST_TYPE: u8 = 0x21;
/// `bRequest` of every control write: HID SET_REPORT.
pub const REQUEST: u8 = 0x09;
/// `wValue` of every control write: output report, id 0.
pub const VALUE: u16 = 0x0200;
/// `wIndex` of every control write.
pub const INDEX: u16 = 0x01;
/// Interrupt endpoint the device answers on.
pub const ENDPOINT: u8 = 0x82;
/// Length of every interrupt read.
pub const REQ_INT_LEN: usize = 8;
/// Timeout of every transfer, in milliseconds.
pub const TIMEOUT: u32 = 5000;

/// One of the fixed vendor commands sent as control-write payloads.
#[derive(Debug, Clone, Copy, PartialEq, Eq, Structural)]
pub enum Command {
    Temp,
    Ini1,
    Ini2,
}

/// The eight payload bytes of each command.
pub open spec fn command_spec(c: Command) -> Seq<u8> {
    match c {
        Command::Temp => seq![0x01u8, 0x80, 0x33, 0x01, 0x00, 0x00, 0x00, 0x00],
        Command::Ini1 => seq![0x01u8, 0x82, 0x77, 0x01, 0x00, 0x00, 0x00, 0x00],
        Command::Ini2 => seq![0x01u8, 0x86, 0xff, 0x01, 0x00, 0x00, 0x00, 0x00],
    }
}

/// The payload of command `c`.
pub fn command_bytes(c: Command) -> (r: [u8; 8])
    ensures
        r@ == command_spec(c),
{
    let r: [u8; 8] = match c {
        Command::Temp => [0x01u8, 0x80, 0x33, 0x01, 0x00, 0x00, 0x00, 0x00],
        Command::Ini1 => [0x01u8, 0x82, 0x77, 0x01, 0x00, 0x00, 0x00, 0x00],
        Command::Ini2 => [0x01u8, 0x86, 0xff, 0x01, 0x00, 0x00, 0x00, 0x00],
    };
    assert(r@ =~= command_spec(c));
    r
}

/// A single USB transfer the driver asks the caller to perform.
#[derive(Debug, Clone, Copy, PartialEq, Eq, Structural)]
pub enum Transfer {
    /// Control write of the command's payload, with `REQUEST_TYPE`,
    /// `REQUEST`, `VALUE`, `INDEX` and `TIMEOUT`.
    ControlWrite(Command),
    /// Interrupt read of `REQ_INT_LEN` bytes from `ENDPOINT`, with `TIMEOUT`.
    InterruptRead,
}

/// An operation of the driver, carried out as a fixed sequence of transfers.
#[derive(Debug, Clone, Copy, PartialEq, Eq, Structural)]
pub enum Operation {
    /// The handshake that primes the device's report state.
    Initialize,
    /// One acquisition of the raw sensor sample.
    ReadRaw,
}

/// The transfers of each operation, in the order they are made.
pub open spec fn plan(op: Operation) -> Seq<Transfer> {
    match op {
        Operation::Initialize => seq![
            Transfer::ControlWrite(Command::Temp),
            Transfer::InterruptRead,
            Transfer::ControlWrite(Command::Ini1),
            Transfer::InterruptRead,
            Transfer::ControlWrite(Command::Ini2),
            Transfer::InterruptRead,
            Transfer::InterruptRead,
        ],
        Operation::ReadRaw => seq![Transfer::ControlWrite(Command::Temp), Transfer::InterruptRead],
    }
}

/// How a transfer ended, as the caller reports it.
#[derive(Debug)]
pub enum Event {
    /// The transfer succeeded; for a read, with the bytes received
    /// (empty for a write).
    Completed(Vec<u8>),
    /// The transfer failed with this status.
    Failed(TransferStatus),
}

/// How an operation ended.
#[derive(Debug, Clone, Copy, PartialEq, Eq, Structural)]
pub enum Outcome {
    /// The handshake went through.
    Initialized,
    /// The raw sample that the device reported.
    Raw(i16),
    /// The operation stopped with this error.
    Failed(TemperReadErr),
}

/// What the caller is to do next.
#[derive(Debug, Clone, Copy, PartialEq, Eq, Structural)]
pub enum Action {
    /// Perform this transfer and report how it ended.
    Perform(Transfer),
    /// The operation is over.
    Finish(Outcome),
}

/// How an operation ends once its last transfer completed with `data`.
pub open spec fn finish_outcome(op: Operation, data: Seq<u8>) -> Outcome {
    match op {
        Operation::Initialize => Outcome::Initialized,
        Operation::ReadRaw => if data.len() >= RAW_OFFSET + 2 {
            Outcome::Raw(be_i16(data[2], data[3]) as i16)
        } else {
            Outcome::Failed(TemperReadErr::MalformedResponse)
        },
    }
}

/// The state of an operation in progress: which operation, and the index in
/// its plan of the transfer being performed.
#[derive(Debug, Clone, Copy, PartialEq, Eq, Structural)]
pub struct Exchange {
    pub op: Operation,
    pub current: usize,
}

/// The decision taken when the transfer in flight in `ex` ends with `ev`:
/// a failure ends the operation at once with its status; a success moves on
/// to the next transfer of the plan, or ends the operation after the last.
pub open spec fn step_spec(ex: Exchange, ev: Event) -> (Exchange, Action) {
    match ev {
        Event::Failed(s) => (ex, Action::Finish(Outcome::Failed(TemperReadErr::UsbTransfer(s)))),
        Event::Completed(data) => if ex.current + 1 < plan(ex.op).len() {
            (
                Exchange { op: ex.op, current: (ex.current + 1) as usize },
                Action::Perform(plan(ex.op)[ex.current + 1]),
            )
        } else {
            (ex, Action::Finish(finish_outcome(ex.op, data@)))
        },
    }
}

impl Exchange {
    /// The index of the transfer in flight lies within the plan.
    pub open spec fn wf(&self) -> bool {
        self.current < plan(self.op).len()
    }

    /// Starts `op`: the first transfer of its plan is to be performed.
    pub fn begin(op: Operation) -> (r: (Exchange, Transfer))
        ensures
            r.0 == (Exchange { op, current: 0 }),
            r.0.wf(),
            r.1 == plan(op)[0],
    {
        (Exchange { op, current: 0 }, Transfer::ControlWrite(Command::Temp))
    }

    /// Takes the outcome of the transfer in flight and decides what follows.
    pub fn step(&mut self, ev: Event) -> (a: Action)
        requires
            old(self).wf(),
        ensures
            final(self).wf(),
            (*final(self), a) == step_spec(*old(self), ev),
    {
        match ev {
            Event::Failed(s) => Action::Finish(Outcome::Failed(TemperReadErr::from(s))),
            Event::Completed(data) => {
                let len = plan_len(self.op);
                if self.current + 1 < len {
                    self.current = self.current + 1;
                    Action::Perform(transfer_at(self.op, self.current))
                } else {
                    Action::Finish(finish(self.op, &data))
                }
            },
        }
    }
}

/// The number of transfers in the plan of `op`.
fn plan_len(op: Operation) -> (r: usize)
    ensures
        r == plan(op).len(),
{
    match op {
        Operation::Initialize => 7,
        Operation::ReadRaw => 2,
    }
}

/// The transfer at index `i` of the plan of `op`.
fn transfer_at(op: Operation, i: usize) -> (r: Transfer)
    requires
        i < plan(op).len(),
    ensures
        r == plan(op)[i as int],
{
    match op {
        Operation::Initialize => if i == 0 {
            Transfer::ControlWrite(Command::Temp)
        } else if i == 2 {
            Transfer::ControlWrite(Command::Ini1)
        } else if i == 4 {
            Transfer::ControlWrite(Command::Ini2)
        } else {
            Transfer::InterruptRead
        },
        Operation::ReadRaw => if i == 0 {
            Transfer::ControlWrite(Command::Temp)
        } else {
            Transfer::InterruptRead
        },
    }
}

/// How `op` ends once its last transfer completed with `data`.
fn finish(op: Operation, data: &Vec<u8>) -> (r: Outcome)
    ensures
        r == finish_outcome(op, data@),
{
    match op {
        Operation::Initialize => Outcome::Initialized,
        Operation::ReadRaw => match raw_from_response(data.as_slice()) {
            Ok(v) => Outcome::Raw(v),
            Err(e) => Outcome::Failed(e),
        },
    }
}

/// Drives the state machine from `ex` with `evs`, the outcomes of the
/// transfers in the order they are performed: the transfers asked for after
/// the one in flight, and how the operation ended, if it did.
pub open spec fn drive(ex: Exchange, evs: Seq<Event>) -> (Seq<Transfer>, Option<Outcome>)
    decreases evs.len(),
{
    if evs.len() == 0 {
        (seq![], None)
    } else {
        let (next, a) = step_spec(ex, evs[0]);
        match a {
            Action::Finish(o) => (seq![], Some(o)),
            Action::Perform(t) => {
                let rest = drive(next, evs.drop_first());
                (seq![t] + rest.0, rest.1)
            },
        }
    }
}

/// A whole run of `op` on the outcomes `evs`: every transfer performed,
/// in order, and how the operation ended, if it did.
pub open spec fn session(op: Operation, evs: Seq<Event>) -> (Seq<Transfer>, Option<Outcome>) {
    let rest = drive(Exchange { op, current: 0 }, evs);
    (seq![plan(op)[0]] + rest.0, rest.1)
}

proof fn lemma_drive_completes(ex: Exchange, evs: Seq<Event>)
    requires
        ex.wf(),
        evs.len() >= plan(ex.op).len() - ex.current,
        forall|i: int| 0 <= i < plan(ex.op).len() - ex.current ==> evs[i] is Completed,
    ensures
        drive(ex, evs).0 == plan(ex.op).subrange(ex.current + 1, plan(ex.op).len() as int),
        drive(ex, evs).1 == Some(
            finish_outcome(ex.op, evs[plan(ex.op).len() - ex.current - 1]->Completed_0@),
        ),
    decreases plan(ex.op).len() - ex.current,
{
    let p = plan(ex.op);
    if ex.current + 1 < p.len() {
        let next = Exchange { op: ex.op, current: (ex.current + 1) as usize };
        let tail = evs.drop_first();
        assert forall|i: int| 0 <= i < p.len() - next.current implies tail[i] is Completed by {
            assert(tail[i] == evs[i + 1]);
        }
        lemma_drive_completes(next, tail);
        assert(tail[p.len() - next.current - 1] == evs[p.len() - ex.current - 1]);
        assert(seq![p[ex.current + 1]] + p.subrange(ex.current + 2, p.len() as int) =~= p.subrange(
            ex.current + 1,
            p.len() as int,
        ));
    } else {
        assert(p.subrange(ex.current + 1, p.len() as int) =~= seq![]);
    }
}

proof fn lemma_drive_fails(ex: Exchange, evs: Seq<Event>, k: int, s: TransferStatus)
    requires
        ex.wf(),
        ex.current <= k < plan(ex.op).len(),
        evs.len() > k - ex.current,
        forall|i: int| 0 <= i < k - ex.current ==> evs[i] is Completed,
        evs[k - ex.current] == Event::Failed(s),
    ensures
        drive(ex, evs).0 == plan(ex.op).subrange(ex.current + 1, k + 1),
        drive(ex, evs).1 == Some(Outcome::Failed(TemperReadErr::UsbTransfer(s))),
    decreases k - ex.current,
{
    let p = plan(ex.op);
    if ex.current < k {
        let next = Exchange { op: ex.op, current: (ex.current + 1) as usize };
        let tail = evs.drop_first();
        assert forall|i: int| 0 <= i < k - next.current implies tail[i] is Completed by {
            assert(tail[i] == evs[i + 1]);
        }
        assert(tail[k - next.current] == evs[k - ex.current]);
        lemma_drive_fails(next, tail, k, s);
        assert(seq![p[ex.current + 1]] + p.subrange(ex.current + 2, k + 1) =~= p.subrange(
            ex.current + 1,
            k + 1,
        ));
    } else {
        assert(p.subrange(ex.current + 1, k + 1) =~= seq![]);
    }
}

/// When every transfer succeeds, an operation performs exactly the
/// transfers of its plan, in order, and then ends as its last response
/// decides. In particular the handshake makes three control writes and four
/// interrupt reads: write `Temp`, read, write `Ini1`, read, write `Ini2`,
/// read, read; and then reports success whatever the responses held.
pub proof fn lemma_session_completes(op: Operation, evs: Seq<Event>)
    requires
        evs.len() >= plan(op).len(),
        forall|i: int| 0 <= i < plan(op).len() ==> evs[i] is Completed,
    ensures
        session(op, evs).0 == plan(op),
        session(op, evs).1 == Some(finish_outcome(op, evs[plan(op).len() - 1]->Completed_0@)),
        op == Operation::Initialize ==> session(op, evs) == (
            seq![
                Transfer::ControlWrite(Command::Temp),
                Transfer::InterruptRead,
                Transfer::ControlWrite(Command::Ini1),
                Transfer::InterruptRead,
                Transfer::ControlWrite(Command::Ini2),
                Transfer::InterruptRead,
                Transfer::InterruptRead,
            ],
            Some(Outcome::Initialized),
        ),
{
    let p = plan(op);
    lemma_drive_completes(Exchange { op, current: 0 }, evs);
    assert(seq![p[0]] + p.subrange(1, p.len() as int) =~= p);
}

/// When a transfer fails, the operation ends right there with that
/// transfer's status, having performed no transfer after it: a run whose
/// transfer number `k` fails performs exactly the first `k + 1` transfers of
/// the plan and ends with `UsbTransfer(s)`.
pub proof fn lemma_session_stops_on_failure(
    op: Operation,
    evs: Seq<Event>,
    k: int,
    s: TransferStatus,
)
    requires
        0 <= k < plan(op).len(),
        evs.len() > k,
        forall|i: int| 0 <= i < k ==> evs[i] is Completed,
        evs[k] == Event::Failed(s),
    ensures
        session(op, evs) == (
            plan(op).take(k + 1),
            Some(Outcome::Failed(TemperReadErr::UsbTransfer(s))),
        ),
{
    let p = plan(op);
    lemma_drive_fails(Exchange { op, current: 0 }, evs, k, s);
    assert(seq![p[0]] + p.subrange(1, k + 1) =~= p.take(k + 1));
}

} // verus!
