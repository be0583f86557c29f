use batch_renamer::command::Command;
use batch_renamer::plan::{Entry, PlannedRename};
use batch_renamer::session::{Action, Event, Outcome, Session, Stage};

fn entry(name: &str) -> Entry {
    Entry { name: Some(name.to_string()), path: format!("dir/{name}") }
}

fn scanned(names: &[&str]) -> Event {
    Event::Scanned(names.iter().map(|name| entry(name)).collect())
}

fn inspected_ok() -> Event {
    Event::Inspected { exists: true, is_dir: true }
}

fn answered(line: &str) -> Event {
    Event::Answered(line.to_string())
}

fn renamed(succeeded: bool) -> Event {
    Event::Renamed { succeeded }
}

fn remove_digit_one() -> Command {
    Command::Remove { pattern: "1".into() }
}

/// A session that has scanned `names` and shown its plan.
fn confirming(names: &[&str]) -> Session {
    let (mut session, _) = Session::start(remove_digit_one());
    assert_eq!(session.step(inspected_ok()), Some(Action::ScanDirectory));
    assert_eq!(session.step(scanned(names)), Some(Action::Confirm));
    session
}

#[test]
fn run_begins_by_inspecting_the_directory() {
    let (session, action) = Session::start(remove_digit_one());
    assert_eq!(action, Action::InspectDirectory);
    assert_eq!(session.stage(), Stage::Validating);
    assert!(session.plan().is_empty());
    assert_eq!(session.command(), &remove_digit_one());
}

#[test]
fn missing_directory_is_fatal() {
    let (mut session, _) = Session::start(remove_digit_one());
    let action = session.step(Event::Inspected { exists: false, is_dir: false });
    assert_eq!(action, Some(Action::Finish(Outcome::DirectoryMissing)));
    assert_eq!(session.stage(), Stage::Finished(Outcome::DirectoryMissing));
    assert!(Outcome::DirectoryMissing.is_fatal());
}

#[test]
fn path_that_is_no_directory_is_fatal() {
    let (mut session, _) = Session::start(remove_digit_one());
    let action = session.step(Event::Inspected { exists: true, is_dir: false });
    assert_eq!(action, Some(Action::Finish(Outcome::NotADirectory)));
    assert!(Outcome::NotADirectory.is_fatal());
}

#[test]
fn existence_is_checked_before_kind() {
    let (mut session, _) = Session::start(remove_digit_one());
    let action = session.step(Event::Inspected { exists: false, is_dir: true });
    assert_eq!(action, Some(Action::Finish(Outcome::DirectoryMissing)));
}

#[test]
fn unreadable_directory_is_fatal() {
    let (mut session, _) = Session::start(remove_digit_one());
    assert_eq!(session.step(inspected_ok()), Some(Action::ScanDirectory));
    assert_eq!(session.stage(), Stage::Scanning);
    assert_eq!(session.step(Event::ScanFailed), Some(Action::Finish(Outcome::ScanFailed)));
    assert!(Outcome::ScanFailed.is_fatal());
    assert!(session.plan().is_empty());
}

#[test]
fn empty_directory_ends_the_run_without_a_prompt() {
    let (mut session, _) = Session::start(remove_digit_one());
    session.step(inspected_ok());
    assert_eq!(session.step(scanned(&[])), Some(Action::Finish(Outcome::EmptyDirectory)));
    assert!(!Outcome::EmptyDirectory.is_fatal());
}

#[test]
fn empty_plan_ends_the_run_without_a_prompt() {
    let (mut session, _) = Session::start(remove_digit_one());
    session.step(inspected_ok());
    assert_eq!(session.step(scanned(&["a", "b"])), Some(Action::Finish(Outcome::NothingToChange)));
    assert_eq!(session.stage(), Stage::Finished(Outcome::NothingToChange));
    assert!(!Outcome::NothingToChange.is_fatal());
}

#[test]
fn plan_is_shown_before_anything_is_renamed() {
    let session = confirming(&["a1", "b", "c1"]);
    assert_eq!(session.stage(), Stage::Confirming);
    assert_eq!(
        session.plan(),
        &vec![
            PlannedRename { old_name: "a1".into(), new_name: "a".into(), path: "dir/a1".into() },
            PlannedRename { old_name: "c1".into(), new_name: "c".into(), path: "dir/c1".into() },
        ]
    );
}

#[test]
fn any_answer_but_yes_cancels_without_a_rename() {
    for line in ["", "\n", "n", "no", "yep", "yes please", "q", "Y E S"] {
        let mut session = confirming(&["a1", "b1"]);
        let action = session.step(answered(line));
        assert_eq!(action, Some(Action::Finish(Outcome::Cancelled)), "{line:?}");
        assert_eq!(session.stage(), Stage::Finished(Outcome::Cancelled));
        assert_eq!(session.step(renamed(true)), None);
        assert_eq!(session.step(answered("y")), None);
        assert_eq!(session.stage(), Stage::Finished(Outcome::Cancelled));
    }
    assert!(!Outcome::Cancelled.is_fatal());
}

#[test]
fn yes_starts_with_the_first_rename() {
    for line in ["y", "Y\n", " yes \r\n", "YES"] {
        let mut session = confirming(&["a1", "b1"]);
        assert_eq!(session.step(answered(line)), Some(Action::Rename { index: 0 }), "{line:?}");
        assert_eq!(session.stage(), Stage::Applying { succeeded: 0, failed: 0 });
    }
}

#[test]
fn every_rename_is_attempted_once_and_in_order() {
    let mut session = confirming(&["a1", "b1", "c1"]);
    assert_eq!(session.step(answered("y")), Some(Action::Rename { index: 0 }));
    assert_eq!(session.step(renamed(true)), Some(Action::Rename { index: 1 }));
    assert_eq!(session.step(renamed(true)), Some(Action::Rename { index: 2 }));
    let done = Outcome::Completed { succeeded: 3, failed: 0 };
    assert_eq!(session.step(renamed(true)), Some(Action::Finish(done)));
    assert_eq!(session.stage(), Stage::Finished(done));
    assert_eq!(session.step(renamed(true)), None);
    assert!(!done.is_fatal());
}

#[test]
fn one_failure_does_not_stop_the_others() {
    let names = ["a1", "b1", "c1", "d1", "e1"];
    for failing in 0..names.len() {
        let mut session = confirming(&names);
        let mut action = session.step(answered("yes")).unwrap();
        let mut attempted = Vec::new();
        while let Action::Rename { index } = action {
            attempted.push(index);
            action = session.step(renamed(index != failing)).unwrap();
        }
        assert_eq!(attempted, vec![0, 1, 2, 3, 4]);
        assert_eq!(action, Action::Finish(Outcome::Completed { succeeded: 4, failed: 1 }));
    }
}

#[test]
fn failures_are_counted_not_fatal() {
    let mut session = confirming(&["a1", "b1"]);
    session.step(answered("y"));
    assert_eq!(session.step(renamed(false)), Some(Action::Rename { index: 1 }));
    assert_eq!(session.stage(), Stage::Applying { succeeded: 0, failed: 1 });
    let done = Outcome::Completed { succeeded: 0, failed: 2 };
    assert_eq!(session.step(renamed(false)), Some(Action::Finish(done)));
    assert!(!done.is_fatal());
}

#[test]
fn plan_of_one_entry_completes_after_one_attempt() {
    let mut session = confirming(&["a1"]);
    assert_eq!(session.step(answered("y")), Some(Action::Rename { index: 0 }));
    assert_eq!(
        session.step(renamed(false)),
        Some(Action::Finish(Outcome::Completed { succeeded: 0, failed: 1 }))
    );
}

#[test]
fn plan_does_not_change_after_the_preview() {
    let mut session = confirming(&["a1", "b1"]);
    let previewed = session.plan().clone();
    session.step(scanned(&["zzz1"]));
    assert_eq!(session.plan(), &previewed);
    session.step(answered("y"));
    assert_eq!(session.plan(), &previewed);
    session.step(renamed(true));
    session.step(renamed(false));
    assert_eq!(session.plan(), &previewed);
}

#[test]
fn event_out_of_turn_is_refused_and_changes_nothing() {
    let (mut session, _) = Session::start(remove_digit_one());
    for event in [Event::ScanFailed, scanned(&["a1"]), answered("y"), renamed(true)] {
        assert_eq!(session.step(event), None);
        assert_eq!(session.stage(), Stage::Validating);
    }
    session.step(inspected_ok());
    for event in [inspected_ok(), answered("y"), renamed(true)] {
        assert_eq!(session.step(event), None);
        assert_eq!(session.stage(), Stage::Scanning);
    }
    session.step(scanned(&["a1"]));
    for event in [inspected_ok(), Event::ScanFailed, scanned(&["b1"]), renamed(true)] {
        assert_eq!(session.step(event), None);
        assert_eq!(session.stage(), Stage::Confirming);
    }
    session.step(answered("y"));
    for event in [inspected_ok(), Event::ScanFailed, scanned(&["b1"]), answered("n")] {
        assert_eq!(session.step(event), None);
        assert_eq!(session.stage(), Stage::Applying { succeeded: 0, failed: 0 });
    }
}

#[test]
fn invalid_regular_expression_ends_with_nothing_to_change() {
    let command = Command::RegexReplace { pattern: "[".into(), replacement: "x".into() };
    let (mut session, _) = Session::start(command);
    session.step(inspected_ok());
    assert_eq!(
        session.step(scanned(&["a[b", "[", "c"])),
        Some(Action::Finish(Outcome::NothingToChange))
    );
}

#[test]
fn only_the_three_early_failures_are_fatal() {
    let outcomes = [
        (Outcome::DirectoryMissing, true),
        (Outcome::NotADirectory, true),
        (Outcome::ScanFailed, true),
        (Outcome::EmptyDirectory, false),
        (Outcome::NothingToChange, false),
        (Outcome::Cancelled, false),
        (Outcome::Completed { succeeded: 0, failed: 7 }, false),
        (Outcome::Completed { succeeded: 7, failed: 0 }, false),
    ];
    for (outcome, fatal) in outcomes {
        assert_eq!(outcome.is_fatal(), fatal, "{outcome:?}");
    }
}
