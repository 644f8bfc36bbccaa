use freya_terminal::lifecycle::{Setup, Step, TerminalError};

fn name(step: &Step) -> &'static str {
    match step {
        Step::OpenPty(_) => "open",
        Step::SpawnCommand => "spawn",
        Step::TakeWriter => "writer",
        Step::CloneReader => "reader",
        Step::KillChild => "kill",
        Step::ReapChild => "reap",
    }
}

/// Runs a setup in which the steps named in `failing` fail, and lists the steps.
fn drive(mut state: Setup<String>, failing: &[&str]) -> (Vec<&'static str>, Option<String>) {
    let mut done = Vec::new();
    while let Some(step) = state.next_step() {
        let step = name(&step);
        done.push(step);
        let outcome = if failing.contains(&step) {
            Err(format!("{step} failed"))
        } else {
            Ok(())
        };
        assert!(done.len() <= 6, "a setup ends");
        state = state.advance(outcome);
    }
    match state.finish(100) {
        Some(Ok(session)) => {
            assert!(session.writer_open);
            (done, None)
        }
        Some(Err(TerminalError::PtyError(text))) => (done, Some(text)),
        None => panic!("the setup has not ended"),
    }
}

#[test]
fn failed_attach_kills_and_reaps_the_child() {
    let (done, error) = drive(Setup::attach_spawned_child(), &["writer"]);
    assert_eq!(done, ["writer", "kill", "reap"]);
    assert_eq!(error.as_deref(), Some("writer failed"));

    let (done, error) = drive(Setup::attach_spawned_child(), &["reader"]);
    assert_eq!(done, ["writer", "reader", "kill", "reap"]);
    assert_eq!(error.as_deref(), Some("reader failed"));
}

#[test]
fn a_failing_kill_is_still_followed_by_the_wait() {
    let (done, error) = drive(Setup::attach_spawned_child(), &["writer", "kill", "reap"]);
    assert_eq!(done, ["writer", "kill", "reap"]);
    assert_eq!(error.as_deref(), Some("writer failed"));
}

#[test]
fn a_child_that_was_attached_is_left_alone() {
    let (done, error) = drive(Setup::attach_spawned_child(), &[]);
    assert_eq!(done, ["writer", "reader"]);
    assert_eq!(error, None);
}

#[test]
fn an_adopted_master_has_no_child_to_kill() {
    let (done, error) = drive(Setup::setup_terminal_from_master(), &["writer"]);
    assert_eq!(done, ["writer"]);
    assert_eq!(error.as_deref(), Some("writer failed"));

    let (done, error) = drive(Setup::setup_terminal_from_master(), &["reader"]);
    assert_eq!(done, ["writer", "reader"]);
    assert_eq!(error.as_deref(), Some("reader failed"));

    let (done, error) = drive(Setup::setup_terminal_from_master(), &[]);
    assert_eq!(done, ["writer", "reader"]);
    assert_eq!(error, None);
}

#[test]
fn spawning_opens_starts_and_attaches() {
    let (done, error) = drive(Setup::spawn_pty(), &[]);
    assert_eq!(done, ["open", "spawn", "writer", "reader"]);
    assert_eq!(error, None);

    let (done, error) = drive(Setup::spawn_pty(), &["open"]);
    assert_eq!(done, ["open"]);
    assert_eq!(error.as_deref(), Some("open failed"));

    let (done, error) = drive(Setup::spawn_pty(), &["spawn"]);
    assert_eq!(done, ["open", "spawn"]);
    assert_eq!(error.as_deref(), Some("spawn failed"));

    let (done, error) = drive(Setup::spawn_pty(), &["reader"]);
    assert_eq!(done, ["open", "spawn", "writer", "reader", "kill", "reap"]);
    assert_eq!(error.as_deref(), Some("reader failed"));
}

#[test]
fn the_pty_is_opened_with_the_default_size() {
    match Setup::spawn_pty().next_step() {
        Some(Step::OpenPty(size)) => {
            assert_eq!((size.rows, size.cols), (24, 80));
            assert_eq!((size.pixel_width, size.pixel_height), (0, 0));
        }
        _ => panic!("a setup begins by opening the pty"),
    }
}

#[test]
fn a_setup_under_way_has_no_result() {
    assert!(Setup::spawn_pty().finish(100).is_none());
    assert!(Setup::attach_spawned_child().finish(100).is_none());
}
