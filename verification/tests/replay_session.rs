use detterot::command_queue::Command;
use detterot::replay::{ReplaySession, TimedCommand};

fn timed(tick: u32, key: &str, value: i32) -> TimedCommand {
    TimedCommand { tick, command: Command::meter(key, value) }
}

fn record() -> Vec<TimedCommand> {
    vec![timed(3, "b", 2), timed(1, "a", 1), timed(3, "c", 3)]
}

#[test]
fn faithful_replay_has_no_mismatch() {
    let mut session = ReplaySession::replay(&record(), false, false);
    assert!(session.push_commands(0, &[]).unwrap().is_none());
    assert!(session.push_commands(1, &[Command::meter("a", 1)]).unwrap().is_none());
    assert!(session.push_commands(2, &[]).unwrap().is_none());
    assert!(session.push_commands(3, &[Command::meter("b", 2)]).unwrap().is_none());
    assert!(session.push_commands(3, &[Command::meter("c", 3)]).unwrap().is_none());
    assert!(session.push_commands(4, &[]).unwrap().is_none());
    let report = session.finalize();
    assert!(!report.failed);
    assert!(report.mismatches.is_empty());
}

#[test]
fn wrong_command_is_reported_with_the_whole_tick() {
    let mut session = ReplaySession::replay(&record(), true, false);
    assert!(session.compute_mismatch(1, &[Command::meter("a", 1)]).is_none());
    let m = session.compute_mismatch(3, &[Command::meter("x", 9)]).expect("mismatch");
    assert_eq!(m.tick, 3);
    assert_eq!(m.expected.len(), 2);
    assert!(m.expected[0].same_as(&Command::meter("b", 2)));
    assert_eq!(m.got.len(), 1);
}

#[test]
fn skipped_tick_is_reported_late() {
    let mut session = ReplaySession::replay(&record(), false, false);
    let err = session.push_commands(2, &[]).expect_err("late tick fails");
    assert_eq!(err.tick, 1);
    assert!(err.got.is_empty());
    let report = session.finalize();
    assert!(report.failed);
}

#[test]
fn extra_commands_are_reported() {
    let mut session = ReplaySession::replay(&record(), true, false);
    let m = session.push_commands(0, &[Command::meter("z", 0)]).unwrap().expect("mismatch");
    assert_eq!(m.tick, 0);
    assert!(m.expected.is_empty());
    assert_eq!(m.got.len(), 1);
}

#[test]
fn unfinished_recording_fails_at_finalize() {
    let mut session = ReplaySession::replay(&record(), true, false);
    assert!(session.push_commands(1, &[Command::meter("a", 1)]).unwrap().is_none());
    assert!(session.push_commands(3, &[Command::meter("b", 2)]).unwrap().is_none());
    let report = session.finalize();
    assert!(!report.failed);
    assert_eq!(report.mismatches.len(), 1);
    assert_eq!(report.mismatches[0].tick, 3);
    assert!(report.mismatches[0].expected[0].same_as(&Command::meter("c", 3)));
}

#[test]
fn partial_tick_then_next_tick_is_a_mismatch() {
    let mut session = ReplaySession::replay(&record(), true, false);
    assert!(session.push_commands(1, &[Command::meter("a", 1)]).unwrap().is_none());
    assert!(session.push_commands(3, &[Command::meter("b", 2)]).unwrap().is_none());
    let m = session.push_commands(4, &[]).unwrap().expect("rest of tick 3 missing");
    assert_eq!(m.tick, 3);
    assert_eq!(m.expected.len(), 1);
    assert!(m.expected[0].same_as(&Command::meter("c", 3)));
}

#[test]
fn same_stream_with_quiet_ticks_matches() {
    let mut session = ReplaySession::replay(&record(), false, false);
    assert!(session.push_commands(0, &[]).unwrap().is_none());
    assert!(session.push_commands(1, &[Command::meter("a", 1)]).unwrap().is_none());
    assert!(session.push_commands(2, &[]).unwrap().is_none());
    assert!(session.push_commands(3, &[Command::meter("b", 2), Command::meter("c", 3)]).unwrap().is_none());
    assert!(session.push_commands(9, &[]).unwrap().is_none());
    let report = session.finalize();
    assert!(!report.failed);
    assert!(report.mismatches.is_empty());
}
