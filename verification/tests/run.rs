use patcher::{Command, Event, Notice, PatchError, PatchRun, Phase, ProgressEvent, Stage};

const HELLO_DIGEST: &str = "2cf24dba5fb0a30e26e83b2ac5b9e29e1b161e5c1fa7425e73043362938b9824";

/// Reports `events` one by one; gives the command pending after each event
/// that was accepted, and all that the subscriber was told.
fn drive(run: &mut PatchRun, events: Vec<Event>) -> (Vec<Command>, Vec<Notice>) {
    let mut commands = Vec::new();
    let mut notices = Vec::new();
    for event in events {
        let accepted = run.accepts(&event);
        let before = run.command();
        let notice = run.step(event);
        if accepted {
            commands.push(run.command());
        } else {
            assert_eq!(run.command(), before);
            assert_eq!(notice, None);
        }
        if let Some(n) = notice {
            notices.push(n);
        }
    }
    (commands, notices)
}

fn plain(phase: Phase) -> Notice {
    Notice::Progress(ProgressEvent { total: 0, current: 0, state: phase })
}

fn downloading(total: usize, current: usize) -> Notice {
    Notice::Progress(ProgressEvent { total, current, state: Phase::Downloading })
}

fn text(s: &str) -> String {
    s.to_string()
}

/// A run for three files, all of them absent locally, that has just
/// announced downloading.
fn run_with_three_changed() -> PatchRun {
    let mut run = PatchRun::new("1\ta\n2\tsub/b\n3\tc", "etag-3", "http://host");
    let (_, notices) = drive(
        &mut run,
        vec![Event::Done, Event::Done, Event::Local(None), Event::Local(None), Event::Local(None)],
    );
    assert_eq!(notices, vec![plain(Phase::Checking), downloading(3, 0)]);
    assert_eq!(run.stage(), Stage::SettleDownloading);
    run
}

#[test]
fn new_run_wants_its_staging_directory() {
    let run = PatchRun::new("", "", "");
    assert_eq!(run.stage(), Stage::CreateStaging);
    assert_eq!(run.command(), Command::CreateStaging);
    assert!(!run.is_finished());
    assert!(run.changed().is_empty());
}

#[test]
fn run_of_one_changed_file() {
    let manifest = format!("{}\tdata/a.txt\nfeed00\tdata/b.txt", HELLO_DIGEST);
    let mut run = PatchRun::new(&manifest, "v2", "http://host/files");
    let (commands, notices) = drive(
        &mut run,
        vec![
            Event::Done,
            Event::Done,
            Event::Local(Some(b"hello".to_vec())),
            Event::Local(None),
            Event::Done,
            Event::Done,
            Event::Response(200),
            Event::Done,
            Event::Done,
            Event::Done,
            Event::Done,
            Event::Done,
            Event::Done,
        ],
    );
    assert_eq!(
        commands,
        vec![
            Command::Pause,
            Command::ReadLocal(text("data/a.txt")),
            Command::ReadLocal(text("data/b.txt")),
            Command::Pause,
            Command::Pause,
            Command::Request(text("http://host/files/data/b.txt")),
            Command::Store(text("data/b.txt")),
            Command::Pause,
            Command::Install(text("data/b.txt")),
            Command::WriteMarker(text("v2")),
            Command::Pause,
            Command::RemoveStaging,
            Command::Finish,
        ]
    );
    assert_eq!(
        notices,
        vec![
            plain(Phase::Checking),
            downloading(1, 0),
            downloading(1, 1),
            plain(Phase::Patching),
            plain(Phase::Done),
        ]
    );
    assert!(run.is_finished());
    assert_eq!(run.changed().len(), 1);
    assert_eq!(run.changed()[0].expected_digest(), "feed00");
    assert_eq!(run.changed()[0].relative_path(), "data/b.txt");
}

#[test]
fn downloads_are_counted_one_by_one() {
    let mut run = run_with_three_changed();
    let (commands, notices) = drive(
        &mut run,
        vec![
            Event::Done,
            Event::Done,
            Event::Response(200),
            Event::Done,
            Event::Done,
            Event::Response(204),
            Event::Done,
            Event::Done,
            Event::Response(299),
            Event::Done,
        ],
    );
    assert_eq!(
        commands,
        vec![
            Command::Pause,
            Command::Request(text("http://host/a")),
            Command::Store(text("a")),
            Command::Pause,
            Command::Request(text("http://host/sub/b")),
            Command::Store(text("sub/b")),
            Command::Pause,
            Command::Request(text("http://host/c")),
            Command::Store(text("c")),
            Command::Pause,
        ]
    );
    assert_eq!(notices, vec![downloading(3, 1), downloading(3, 2), downloading(3, 3)]);
    assert_eq!(run.stage(), Stage::SettleDownloaded);
}

#[test]
fn installs_follow_the_change_set() {
    let mut run = run_with_three_changed();
    drive(
        &mut run,
        vec![
            Event::Done,
            Event::Done,
            Event::Response(200),
            Event::Done,
            Event::Done,
            Event::Response(200),
            Event::Done,
            Event::Done,
            Event::Response(200),
            Event::Done,
        ],
    );
    let (commands, notices) = drive(
        &mut run,
        vec![Event::Done, Event::Done, Event::Done, Event::Done, Event::Done, Event::Done, Event::Done],
    );
    assert_eq!(
        commands,
        vec![
            Command::Install(text("a")),
            Command::Install(text("sub/b")),
            Command::Install(text("c")),
            Command::WriteMarker(text("etag-3")),
            Command::Pause,
            Command::RemoveStaging,
            Command::Finish,
        ]
    );
    assert_eq!(notices, vec![plain(Phase::Patching), plain(Phase::Done)]);
}

#[test]
fn empty_manifest_runs_through() {
    let mut run = PatchRun::new("", "v1", "http://host");
    let (commands, notices) = drive(
        &mut run,
        vec![Event::Done, Event::Done, Event::Done, Event::Done, Event::Done, Event::Done, Event::Done],
    );
    assert_eq!(
        commands,
        vec![
            Command::Pause,
            Command::Pause,
            Command::Pause,
            Command::WriteMarker(text("v1")),
            Command::Pause,
            Command::RemoveStaging,
            Command::Finish,
        ]
    );
    assert_eq!(
        notices,
        vec![plain(Phase::Checking), downloading(0, 0), plain(Phase::Patching), plain(Phase::Done)]
    );
}

#[test]
fn nothing_is_fetched_when_all_files_are_up_to_date() {
    let manifest = format!("{}\ta\n{}\tb", HELLO_DIGEST, HELLO_DIGEST);
    let mut run = PatchRun::new(&manifest, "v1", "http://host");
    let (commands, notices) = drive(
        &mut run,
        vec![
            Event::Done,
            Event::Done,
            Event::Local(Some(b"hello".to_vec())),
            Event::Local(Some(b"hello".to_vec())),
            Event::Done,
            Event::Done,
        ],
    );
    assert_eq!(
        commands,
        vec![
            Command::Pause,
            Command::ReadLocal(text("a")),
            Command::ReadLocal(text("b")),
            Command::Pause,
            Command::Pause,
            Command::WriteMarker(text("v1")),
        ]
    );
    assert_eq!(notices, vec![plain(Phase::Checking), downloading(0, 0), plain(Phase::Patching)]);
    assert!(run.changed().is_empty());
}

#[test]
fn file_with_other_content_is_in_the_change_set() {
    let manifest = format!("{}\ta", HELLO_DIGEST);
    let mut run = PatchRun::new(&manifest, "v1", "http://host");
    let (_, notices) =
        drive(&mut run, vec![Event::Done, Event::Done, Event::Local(Some(b"hello ".to_vec()))]);
    assert_eq!(notices, vec![plain(Phase::Checking), downloading(1, 0)]);
    assert_eq!(run.changed()[0].relative_path(), "a");
}

#[test]
fn failing_to_create_the_staging_directory_ends_the_run() {
    let mut run = PatchRun::new("1\ta", "v1", "http://host");
    let (commands, notices) = drive(&mut run, vec![Event::Failed(PatchError::CreateStaging)]);
    assert_eq!(commands, vec![Command::Finish]);
    assert_eq!(notices, vec![Notice::Failure(PatchError::CreateStaging)]);
    assert!(run.is_finished());
}

#[test]
fn malformed_manifest_fails_after_checking_was_announced() {
    let mut run = PatchRun::new("1\ta\nbroken", "v1", "http://host");
    let (commands, notices) = drive(&mut run, vec![Event::Done, Event::Done, Event::Done]);
    assert_eq!(commands, vec![Command::Pause, Command::RemoveStaging, Command::Finish]);
    assert_eq!(notices, vec![plain(Phase::Checking), Notice::Failure(PatchError::Manifest)]);
    assert!(run.changed().is_empty());
}

#[test]
fn error_status_fails_the_run() {
    for status in [404u16, 500, 199, 300, 301, 0, 100] {
        let mut run = run_with_three_changed();
        let (commands, notices) =
            drive(&mut run, vec![Event::Done, Event::Done, Event::Response(status)]);
        assert_eq!(
            commands,
            vec![Command::Pause, Command::Request(text("http://host/a")), Command::RemoveStaging]
        );
        assert_eq!(notices, vec![Notice::Failure(PatchError::Status)]);
    }
}

#[test]
fn failed_request_fails_the_run() {
    let mut run = run_with_three_changed();
    let (commands, notices) = drive(
        &mut run,
        vec![Event::Done, Event::Done, Event::Failed(PatchError::Request), Event::Done],
    );
    assert_eq!(
        commands,
        vec![
            Command::Pause,
            Command::Request(text("http://host/a")),
            Command::RemoveStaging,
            Command::Finish,
        ]
    );
    assert_eq!(notices, vec![Notice::Failure(PatchError::Request)]);
}

#[test]
fn failed_store_fails_the_run() {
    for error in [
        PatchError::StagedParent,
        PatchError::CreateStagedParent,
        PatchError::OpenStaged,
        PatchError::ReadChunk,
        PatchError::WriteChunk,
    ] {
        let mut run = run_with_three_changed();
        let (commands, notices) = drive(
            &mut run,
            vec![
                Event::Done,
                Event::Done,
                Event::Response(200),
                Event::Done,
                Event::Done,
                Event::Response(200),
                Event::Failed(error),
                Event::Done,
            ],
        );
        assert_eq!(commands[6..], [Command::RemoveStaging, Command::Finish]);
        assert_eq!(notices, vec![downloading(3, 1), Notice::Failure(error)]);
    }
}

#[test]
fn failed_install_fails_the_run_without_rollback() {
    for error in
        [PatchError::TargetParent, PatchError::CreateTargetParent, PatchError::MoveFile]
    {
        let mut run = PatchRun::new("1\ta\n2\tb", "v1", "http://host");
        let (commands, notices) = drive(
            &mut run,
            vec![
                Event::Done,
                Event::Done,
                Event::Local(None),
                Event::Local(None),
                Event::Done,
                Event::Done,
                Event::Response(200),
                Event::Done,
                Event::Done,
                Event::Response(200),
                Event::Done,
                Event::Done,
                Event::Done,
                Event::Failed(error),
                Event::Done,
            ],
        );
        assert_eq!(
            commands[11..],
            [
                Command::Install(text("a")),
                Command::Install(text("b")),
                Command::RemoveStaging,
                Command::Finish,
            ]
        );
        assert_eq!(
            notices,
            vec![
                plain(Phase::Checking),
                downloading(2, 0),
                downloading(2, 1),
                downloading(2, 2),
                plain(Phase::Patching),
                Notice::Failure(error),
            ]
        );
    }
}

#[test]
fn failed_marker_fails_the_run() {
    for error in [PatchError::OpenMarker, PatchError::WriteMarker] {
        let mut run = PatchRun::new("", "v1", "http://host");
        let (commands, notices) = drive(
            &mut run,
            vec![Event::Done, Event::Done, Event::Done, Event::Done, Event::Failed(error), Event::Done],
        );
        assert_eq!(
            commands[3..],
            [Command::WriteMarker(text("v1")), Command::RemoveStaging, Command::Finish]
        );
        assert_eq!(
            notices,
            vec![
                plain(Phase::Checking),
                downloading(0, 0),
                plain(Phase::Patching),
                Notice::Failure(error),
            ]
        );
    }
}

#[test]
fn failing_to_remove_the_staging_directory_ends_the_run_silently() {
    let mut run = PatchRun::new("", "v1", "http://host");
    let (_, notices) = drive(
        &mut run,
        vec![
            Event::Done,
            Event::Done,
            Event::Done,
            Event::Done,
            Event::Done,
            Event::Done,
            Event::Failed(PatchError::RemoveStaging),
        ],
    );
    assert_eq!(
        notices,
        vec![plain(Phase::Checking), downloading(0, 0), plain(Phase::Patching), plain(Phase::Done)]
    );
    assert!(run.is_finished());
}

#[test]
fn only_one_error_is_reported() {
    let mut run = run_with_three_changed();
    let (commands, notices) = drive(
        &mut run,
        vec![
            Event::Done,
            Event::Done,
            Event::Failed(PatchError::Request),
            Event::Failed(PatchError::RemoveStaging),
            Event::Failed(PatchError::RemoveStaging),
            Event::Failed(PatchError::Request),
        ],
    );
    assert_eq!(notices, vec![Notice::Failure(PatchError::Request)]);
    assert_eq!(commands.last(), Some(&Command::Finish));
    assert!(run.is_finished());
}

#[test]
fn cancelling_before_a_request_stops_cleanly() {
    let mut run = run_with_three_changed();
    let (commands, notices) =
        drive(&mut run, vec![Event::Done, Event::Cancelled, Event::Done, Event::Done]);
    assert_eq!(commands, vec![Command::Pause, Command::RemoveStaging, Command::Finish]);
    assert_eq!(notices, vec![]);
}

#[test]
fn cancelling_a_request_stops_cleanly() {
    let mut run = run_with_three_changed();
    let (commands, notices) =
        drive(&mut run, vec![Event::Done, Event::Done, Event::Cancelled, Event::Done]);
    assert_eq!(
        commands,
        vec![
            Command::Pause,
            Command::Request(text("http://host/a")),
            Command::RemoveStaging,
            Command::Finish,
        ]
    );
    assert_eq!(notices, vec![]);
}

#[test]
fn cancelling_while_storing_stops_cleanly() {
    let mut run = run_with_three_changed();
    let (commands, notices) = drive(
        &mut run,
        vec![
            Event::Done,
            Event::Done,
            Event::Response(200),
            Event::Done,
            Event::Done,
            Event::Response(200),
            Event::Cancelled,
            Event::Failed(PatchError::RemoveStaging),
            Event::Done,
            Event::Response(200),
        ],
    );
    assert_eq!(commands[6..], [Command::RemoveStaging, Command::Finish]);
    assert_eq!(notices, vec![downloading(3, 1)]);
    assert!(run.is_finished());
}

#[test]
fn cancelling_outside_the_downloads_has_no_effect() {
    let mut run = PatchRun::new("1\ta", "v1", "http://host");
    assert!(!run.accepts(&Event::Cancelled));
    let script = vec![
        Event::Done,
        Event::Done,
        Event::Local(None),
        Event::Done,
        Event::Done,
        Event::Response(200),
        Event::Done,
        Event::Done,
        Event::Done,
        Event::Done,
        Event::Done,
        Event::Done,
    ];
    let cancellable = [Stage::Pace, Stage::Request, Stage::Store];
    for event in script {
        let stage = run.stage();
        assert_eq!(run.accepts(&Event::Cancelled), cancellable.contains(&stage));
        if !cancellable.contains(&stage) {
            assert_eq!(run.step(Event::Cancelled), None);
            assert_eq!(run.stage(), stage);
        }
        assert!(run.accepts(&event));
        run.step(event);
    }
    assert!(run.is_finished());
}

#[test]
fn events_that_answer_nothing_are_ignored() {
    let mut run = PatchRun::new("1\ta", "v1", "http://host");
    let (commands, notices) = drive(
        &mut run,
        vec![
            Event::Response(200),
            Event::Local(None),
            Event::Failed(PatchError::Request),
            Event::Failed(PatchError::Manifest),
            Event::Cancelled,
        ],
    );
    assert_eq!(commands, vec![]);
    assert_eq!(notices, vec![]);
    assert_eq!(run.stage(), Stage::CreateStaging);
    drive(&mut run, vec![Event::Done, Event::Done]);
    assert_eq!(run.stage(), Stage::Check);
    let (commands, _) = drive(
        &mut run,
        vec![Event::Done, Event::Failed(PatchError::MoveFile), Event::Response(200)],
    );
    assert_eq!(commands, vec![]);
    assert_eq!(run.command(), Command::ReadLocal(text("a")));
}

#[test]
fn failure_of_another_command_is_ignored() {
    let mut run = run_with_three_changed();
    drive(&mut run, vec![Event::Done, Event::Done]);
    assert_eq!(run.stage(), Stage::Request);
    for error in [
        PatchError::CreateStaging,
        PatchError::Manifest,
        PatchError::Status,
        PatchError::OpenStaged,
        PatchError::MoveFile,
        PatchError::WriteMarker,
        PatchError::RemoveStaging,
    ] {
        assert!(!run.accepts(&Event::Failed(error)));
        assert_eq!(run.step(Event::Failed(error)), None);
        assert_eq!(run.stage(), Stage::Request);
    }
    assert!(run.accepts(&Event::Failed(PatchError::Request)));
}

#[test]
fn finished_run_takes_no_event() {
    let mut run = PatchRun::new("", "v1", "http://host");
    drive(&mut run, vec![Event::Failed(PatchError::CreateStaging)]);
    assert!(run.is_finished());
    let (commands, notices) = drive(
        &mut run,
        vec![
            Event::Done,
            Event::Cancelled,
            Event::Local(None),
            Event::Response(200),
            Event::Failed(PatchError::RemoveStaging),
        ],
    );
    assert_eq!(commands, vec![]);
    assert_eq!(notices, vec![]);
    assert_eq!(run.command(), Command::Finish);
}

#[test]
fn base_address_is_joined_with_one_slash() {
    let mut run = PatchRun::new("1\t/x/y.bin", "v1", "http://host/root/");
    drive(&mut run, vec![Event::Done, Event::Done, Event::Local(None), Event::Done, Event::Done]);
    assert_eq!(run.command(), Command::Request(text("http://host/root//x/y.bin")));
    let mut run = PatchRun::new("1\tx", "v1", "");
    drive(&mut run, vec![Event::Done, Event::Done, Event::Local(None), Event::Done, Event::Done]);
    assert_eq!(run.command(), Command::Request(text("/x")));
}

#[test]
fn manifest_that_reaches_outside_the_tree_is_refused() {
    let mut run = PatchRun::new("1\ta\n2\t../../etc/passwd", "v1", "http://host");
    let (commands, notices) = drive(&mut run, vec![Event::Done, Event::Done]);
    assert_eq!(commands, vec![Command::Pause, Command::RemoveStaging]);
    assert_eq!(notices, vec![plain(Phase::Checking), Notice::Failure(PatchError::Manifest)]);
}
