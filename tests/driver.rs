use temper::{
    command_bytes, raw_from_response, Action, Command, Event, Exchange, Operation, Outcome,
    TemperReadErr, Transfer, TransferStatus,
};

/// Runs `op`, answering each transfer with the next of `answers`; returns the
/// transfers asked for and how the operation ended.
fn run(op: Operation, answers: Vec<Event>) -> (Vec<Transfer>, Option<Outcome>) {
    let (mut ex, first) = Exchange::begin(op);
    let mut performed = vec![first];
    for ev in answers {
        match ex.step(ev) {
            Action::Perform(t) => performed.push(t),
            Action::Finish(o) => return (performed, Some(o)),
        }
    }
    (performed, None)
}

fn response(hi: u8, lo: u8) -> Vec<u8> {
    vec![0x01, 0x80, hi, lo, 0, 0, 0, 0]
}

#[test]
fn decodes_positive_sample() {
    let buf = vec![0x01u8, 0x80, 0x00, 0xC8, 0, 0, 0, 0];
    let raw = raw_from_response(&buf).unwrap();
    assert_eq!(raw, 200);
    assert_eq!(125.0 * raw as f64 / 32000.0, 0.78125);
}

#[test]
fn decodes_negative_sample() {
    let raw = raw_from_response(&response(0xFF, 0x38)).unwrap();
    assert_eq!(raw, -200);
    assert_eq!(125.0 * raw as f64 / 32000.0, -0.78125);
}

#[test]
fn conversion_formula_on_extremes() {
    for (hi, lo, expected) in [(0x80u8, 0x00u8, -128.0f64), (0x7F, 0xFF, 127.99609375), (0, 0, 0.0)] {
        let raw = raw_from_response(&response(hi, lo)).unwrap();
        assert_eq!(125.0 * raw as f64 / 32000.0, expected);
    }
}

#[test]
fn round_trip_boundary_values() {
    for v in [i16::MIN, -1, 0, 1, i16::MAX, 200, -200, 0x1234] {
        let [hi, lo] = v.to_be_bytes();
        assert_eq!(raw_from_response(&response(hi, lo)), Ok(v));
    }
}

#[test]
fn sample_reads_bytes_two_and_three_only() {
    let buf = vec![0xAAu8, 0xBB, 0x12, 0x34, 0xCC, 0xDD, 0xEE, 0xFF];
    assert_eq!(raw_from_response(&buf), Ok(0x1234));
    let exact = vec![0u8, 0, 0x00, 0x01];
    assert_eq!(raw_from_response(&exact), Ok(1));
}

#[test]
fn short_response_is_malformed() {
    assert_eq!(raw_from_response(&[]), Err(TemperReadErr::MalformedResponse));
    assert_eq!(raw_from_response(&[1, 2, 3]), Err(TemperReadErr::MalformedResponse));
}

#[test]
fn command_payloads() {
    assert_eq!(command_bytes(Command::Temp), [0x01, 0x80, 0x33, 0x01, 0x00, 0x00, 0x00, 0x00]);
    assert_eq!(command_bytes(Command::Ini1), [0x01, 0x82, 0x77, 0x01, 0x00, 0x00, 0x00, 0x00]);
    assert_eq!(command_bytes(Command::Ini2), [0x01, 0x86, 0xff, 0x01, 0x00, 0x00, 0x00, 0x00]);
}

#[test]
fn initialize_issues_fixed_sequence() {
    let answers = (0..7).map(|i| Event::Completed(vec![i as u8; 8])).collect();
    let (performed, outcome) = run(Operation::Initialize, answers);
    assert_eq!(
        performed,
        vec![
            Transfer::ControlWrite(Command::Temp),
            Transfer::InterruptRead,
            Transfer::ControlWrite(Command::Ini1),
            Transfer::InterruptRead,
            Transfer::ControlWrite(Command::Ini2),
            Transfer::InterruptRead,
            Transfer::InterruptRead,
        ]
    );
    let writes = performed.iter().filter(|t| matches!(t, Transfer::ControlWrite(_))).count();
    assert_eq!(writes, 3);
    assert_eq!(performed.len() - writes, 4);
    assert_eq!(outcome, Some(Outcome::Initialized));
}

#[test]
fn initialize_stops_at_first_failure() {
    for k in 0..7usize {
        let mut answers: Vec<Event> = (0..k).map(|_| Event::Completed(Vec::new())).collect();
        answers.push(Event::Failed(TransferStatus::TimedOut));
        answers.push(Event::Completed(Vec::new()));
        let (performed, outcome) = run(Operation::Initialize, answers);
        assert_eq!(performed.len(), k + 1);
        assert_eq!(
            outcome,
            Some(Outcome::Failed(TemperReadErr::UsbTransfer(TransferStatus::TimedOut)))
        );
    }
}

#[test]
fn raw_read_returns_sample() {
    let answers = vec![Event::Completed(Vec::new()), Event::Completed(response(0x00, 0xC8))];
    let (performed, outcome) = run(Operation::ReadRaw, answers);
    assert_eq!(performed, vec![Transfer::ControlWrite(Command::Temp), Transfer::InterruptRead]);
    assert_eq!(outcome, Some(Outcome::Raw(200)));
}

#[test]
fn raw_read_short_response() {
    let answers = vec![Event::Completed(Vec::new()), Event::Completed(vec![1, 2, 3])];
    let (_, outcome) = run(Operation::ReadRaw, answers);
    assert_eq!(outcome, Some(Outcome::Failed(TemperReadErr::MalformedResponse)));
}

#[test]
fn stall_on_write_surfaces_status() {
    let answers = vec![Event::Failed(TransferStatus::Stall), Event::Completed(response(0, 1))];
    let (performed, outcome) = run(Operation::ReadRaw, answers);
    assert_eq!(performed, vec![Transfer::ControlWrite(Command::Temp)]);
    assert_eq!(outcome, Some(Outcome::Failed(TemperReadErr::UsbTransfer(TransferStatus::Stall))));
}

#[test]
fn failed_read_surfaces_status() {
    let answers = vec![Event::Completed(Vec::new()), Event::Failed(TransferStatus::NoDevice)];
    let (performed, outcome) = run(Operation::ReadRaw, answers);
    assert_eq!(performed.len(), 2);
    assert_eq!(
        outcome,
        Some(Outcome::Failed(TemperReadErr::UsbTransfer(TransferStatus::NoDevice)))
    );
}

#[test]
fn status_converts_into_error() {
    assert_eq!(
        TemperReadErr::from(TransferStatus::Overflow),
        TemperReadErr::UsbTransfer(TransferStatus::Overflow)
    );
}
