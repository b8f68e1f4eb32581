use resilient::commit::{Commit, CommitError};
use resilient::config::Config;
use resilient::files::{FileRead, FileWrite};
use resilient::text::followed_by;
use resilient::rsync::{
    check_status, check_sync, flags_for, latest_file, make_commit, make_commit_args,
    make_restore_args, make_status_args, path_is_whole, print_status, restore, status_lines, step,
    step_at, Action, Event, Failure, Outcome, Purpose, Stage, State, Step, SyncError, SyncResult,
    WriteResult,
};

fn conf() -> Config {
    Config::new("/home/me".to_string(), "/mnt/repo".to_string())
}

fn words(list: &[&str]) -> Vec<String> {
    list.iter().map(|w| w.to_string()).collect()
}

fn contents(text: &str) -> Event {
    Event::FileWasRead(FileRead::Contents(text.to_string()))
}

fn good() -> Event {
    Event::Synced(SyncResult::Succeeded(None))
}

fn next(step: Step) -> (State, Action) {
    match step {
        Step::Next(state, action) => (state, action),
        other => panic!("the operation ended: {:?}", other),
    }
}

fn after(start: Step, events: Vec<Event>) -> Step {
    let mut current = start;
    for event in events {
        let (state, _) = next(current);
        current = step_at(&conf(), state, event, 77);
    }
    current
}

#[test]
fn commit_arguments() {
    assert_eq!(
        make_commit_args(&conf(), "/mnt/repo/backups/b", None, false),
        words(&["-aAX", "--delete", "/home/me/", "/mnt/repo/backups/b/data"])
    );
    assert_eq!(
        make_commit_args(&conf(), "/mnt/repo/backups/b", Some("/abs/a/data"), true),
        words(&[
            "-aAXv",
            "--delete",
            "--link-dest=/abs/a/data",
            "/home/me/",
            "/mnt/repo/backups/b/data"
        ])
    );
}

#[test]
fn status_arguments() {
    assert_eq!(
        make_status_args(&conf(), "/tmp/empty"),
        words(&["-aAXin", "--delete", "/home/me/", "/tmp/empty"])
    );
}

#[test]
fn restore_arguments_follow_the_kind_of_path() {
    let folder = "/mnt/repo/backups/b";
    assert_eq!(
        make_restore_args(&conf(), folder, "", false),
        words(&["-aAX", "--delete", "/mnt/repo/backups/b/data/", "/home/me"])
    );
    assert_eq!(
        make_restore_args(&conf(), folder, "/", true),
        words(&["-aAXv", "--delete", "/mnt/repo/backups/b/data/", "/home/me"])
    );
    assert_eq!(
        make_restore_args(&conf(), folder, "/docs/a.txt", false),
        words(&["-aAX", "--delete", "/mnt/repo/backups/b/data/docs/a.txt", "/home/me/docs/a.txt"])
    );
    assert_eq!(
        make_restore_args(&conf(), folder, "docs/a.txt", false),
        words(&["-aAX", "--delete", "/mnt/repo/backups/b/data/docs/a.txt", "/home/me/docs/a.txt"])
    );
    assert_eq!(
        make_restore_args(&conf(), folder, "//", false),
        words(&["-aAX", "--delete", "/mnt/repo/backups/b/data//", "/home/me//"])
    );
}

#[test]
fn small_helpers() {
    assert!(path_is_whole(""));
    assert!(path_is_whole("/"));
    assert!(!path_is_whole("//"));
    assert!(!path_is_whole("a"));
    assert_eq!(flags_for(true), "-aAXv");
    assert_eq!(flags_for(false), "-aAX");
    assert_eq!(followed_by("ab", "cd"), "abcd");
    assert_eq!(latest_file(&conf()), "/mnt/repo/backups/latest.commit");
}

#[test]
fn engine_outcomes_are_checked() {
    assert_eq!(check_sync(SyncResult::Succeeded(None)), Ok(()));
    assert_eq!(check_sync(SyncResult::Succeeded(Some("x".to_string()))), Ok(()));
    assert_eq!(check_sync(SyncResult::NotStarted), Err(SyncError::NotStarted));
    assert_eq!(
        check_sync(SyncResult::Failed(Some(23), "partial".to_string())),
        Err(SyncError::Failed(Some(23)))
    );
    assert_eq!(check_status(SyncResult::Succeeded(None)), Err(SyncError::BadOutput));
    assert_eq!(check_status(SyncResult::NotStarted), Err(SyncError::NotStarted));
    assert_eq!(
        check_status(SyncResult::Failed(None, "killed".to_string())),
        Err(SyncError::CompareFailed("killed".to_string()))
    );
    assert_eq!(
        check_status(SyncResult::Succeeded(Some("*deleting gone\n".to_string()))),
        Ok(words(&["\tDeleting: gone"]))
    );
}

#[test]
fn status_report_keeps_the_order_and_skips_other_lines() {
    let output = "sending incremental file list\n*deleting   old/file.txt\n.d..t...... ./\n>f+++++++++ newdir/newfile\ncL+++++++++ l -> /t\n\nsent 100 bytes\n";
    assert_eq!(
        status_lines(output),
        words(&[
            "\tDeleting: old/file.txt",
            "\tUpdating timestamps: ./",
            "\tCreating: newdir/newfile",
            "\tCreating (link): l -> /t",
        ])
    );
    assert_eq!(status_lines(""), Vec::<String>::new());
    assert_eq!(status_lines(">f+++++++++ a\r\n>f+++++++++ b"), words(&["\tCreating: a", "\tCreating: b"]));
}

#[test]
fn first_commit_is_made_without_links() {
    let start = make_commit(&conf(), "first".to_string(), "msg".to_string(), false);
    let (state, action) = next(start);
    assert_eq!(action, Action::CreateDir("/mnt/repo/backups/first".to_string()));
    assert_eq!(state.purpose, Purpose::Create);
    let (state, action) = next(step_at(&conf(), state, Event::DirCreated(true), 77));
    assert_eq!(action, Action::ReadFile("/mnt/repo/backups/latest.commit".to_string()));
    let commit = Commit::with_timestamp(77, "msg".to_string(), "/mnt/repo/backups/first".to_string());
    assert_eq!(state.commit, Some(commit.clone()));
    let (state, action) = next(step_at(&conf(), state, Event::FileWasRead(FileRead::Missing), 78));
    assert_eq!(
        action,
        Action::RunSync(words(&["-aAX", "--delete", "/home/me/", "/mnt/repo/backups/first/data"]))
    );
    let (state, action) = next(step_at(&conf(), state, good(), 79));
    assert_eq!(
        action,
        Action::WriteIn(
            "/mnt/repo/backups/first".to_string(),
            FileWrite {
                path: "/mnt/repo/backups/first/info.commit".to_string(),
                contents: "77\nmsg".to_string(),
            }
        )
    );
    let (state, action) = next(step_at(&conf(), state, Event::Wrote(WriteResult::Written), 80));
    assert_eq!(
        action,
        Action::Write(FileWrite {
            path: "/mnt/repo/backups/latest.commit".to_string(),
            contents: "/mnt/repo/backups/first".to_string(),
        })
    );
    let end = step_at(&conf(), state, Event::Wrote(WriteResult::Written), 81);
    assert_eq!(end, Step::Done(Outcome::Committed(commit)));
}

#[test]
fn later_commit_links_to_the_latest() {
    let start = make_commit(&conf(), "second".to_string(), "m".to_string(), true);
    let (state, _) = next(after(start, vec![Event::DirCreated(true)]));
    let (state, action) = next(step_at(&conf(), state, contents("backups/first"), 1));
    assert_eq!(action, Action::ReadFile("backups/first/info.commit".to_string()));
    let (state, action) = next(step_at(&conf(), state, contents("5\nold\n"), 1));
    assert_eq!(action, Action::Canonicalize("backups/first".to_string()));
    let resolved = Event::Canonical(Some("/mnt/repo/backups/first".to_string()));
    let (state, action) = next(step_at(&conf(), state, resolved, 1));
    assert_eq!(
        action,
        Action::RunSync(words(&[
            "-aAXv",
            "--delete",
            "--link-dest=/mnt/repo/backups/first/data",
            "/home/me/",
            "/mnt/repo/backups/second/data"
        ]))
    );
    assert_eq!(state.stage, Stage::Syncing);
}

#[test]
fn commit_faults_end_the_operation() {
    let start = || make_commit(&conf(), "n".to_string(), "m".to_string(), false);
    assert_eq!(
        after(start(), vec![Event::DirCreated(false)]),
        Step::Failed(Failure::FolderNotCreated("/mnt/repo/backups/n".to_string()))
    );
    assert_eq!(
        after(start(), vec![Event::DirCreated(true), Event::FileWasRead(FileRead::Unreadable)]),
        Step::Failed(Failure::Repository(CommitError::LatestUnreadable))
    );
    assert_eq!(
        after(
            start(),
            vec![Event::DirCreated(true), contents("/b/a"), Event::FileWasRead(FileRead::Missing)]
        ),
        Step::Failed(Failure::Repository(CommitError::NoCommitFile("/b/a".to_string())))
    );
    assert_eq!(
        after(
            start(),
            vec![Event::DirCreated(true), contents("/b/a"), contents("1\n"), Event::Canonical(None)]
        ),
        Step::Failed(Failure::LatestNotResolved("/b/a".to_string()))
    );
    let to_sync = vec![Event::DirCreated(true), Event::FileWasRead(FileRead::Missing)];
    let failed = Event::Synced(SyncResult::Failed(Some(12), "broken pipe".to_string()));
    let mut events = to_sync.clone();
    events.push(failed);
    assert_eq!(
        after(start(), events),
        Step::Failed(Failure::Sync(SyncError::Failed(Some(12))))
    );
    let mut events = to_sync.clone();
    events.push(Event::Synced(SyncResult::NotStarted));
    assert_eq!(after(start(), events), Step::Failed(Failure::Sync(SyncError::NotStarted)));
    let mut events = to_sync.clone();
    events.push(good());
    events.push(Event::Wrote(WriteResult::NoFolder));
    assert_eq!(
        after(start(), events),
        Step::Failed(Failure::Repository(CommitError::FolderMissing(
            "/mnt/repo/backups/n".to_string()
        )))
    );
    let mut events = to_sync.clone();
    events.push(good());
    events.push(Event::Wrote(WriteResult::Failed));
    assert_eq!(
        after(start(), events),
        Step::Failed(Failure::Repository(CommitError::WriteCommitFailed))
    );
    let mut events = to_sync.clone();
    events.push(good());
    events.push(Event::Wrote(WriteResult::Written));
    events.push(Event::Wrote(WriteResult::Failed));
    assert_eq!(
        after(start(), events),
        Step::Failed(Failure::Repository(CommitError::WriteLatestFailed))
    );
}

#[test]
fn unexpected_events_end_the_operation() {
    let start = make_commit(&conf(), "n".to_string(), "m".to_string(), false);
    assert_eq!(after(start, vec![Event::Exists(true)]), Step::Failed(Failure::UnexpectedEvent));
    assert_eq!(
        after(print_status(&conf()), vec![good()]),
        Step::Failed(Failure::UnexpectedEvent)
    );
}

#[test]
fn status_without_commits_compares_with_an_empty_directory() {
    let (state, action) = next(print_status(&conf()));
    assert_eq!(action, Action::ReadFile("/mnt/repo/backups/latest.commit".to_string()));
    let (state, action) = next(step_at(&conf(), state, Event::FileWasRead(FileRead::Missing), 0));
    assert_eq!(action, Action::MakeEmptyDir);
    let made = Event::EmptyDir(Some("/tmp/resilient.x".to_string()));
    let (state, action) = next(step_at(&conf(), state, made, 0));
    assert_eq!(
        action,
        Action::RunSyncCaptured(words(&["-aAXin", "--delete", "/home/me/", "/tmp/resilient.x"]))
    );
    let output = Event::Synced(SyncResult::Succeeded(Some(">f+++++++++ a\n".to_string())));
    assert_eq!(
        step_at(&conf(), state, output, 0),
        Step::Done(Outcome::Report(words(&["\tCreating: a"])))
    );
}

#[test]
fn status_with_commits_compares_with_the_latest() {
    let step = after(print_status(&conf()), vec![contents("/mnt/repo/backups/a"), contents("3\n")]);
    let (state, action) = next(step);
    assert_eq!(
        action,
        Action::RunSyncCaptured(words(&[
            "-aAXin",
            "--delete",
            "/home/me/",
            "/mnt/repo/backups/a/data"
        ]))
    );
    assert_eq!(
        step_at(&conf(), state.clone(), good(), 0),
        Step::Failed(Failure::Sync(SyncError::BadOutput))
    );
    let failed = Event::Synced(SyncResult::Failed(Some(3), "no such dir".to_string()));
    assert_eq!(
        step_at(&conf(), state, failed, 0),
        Step::Failed(Failure::Sync(SyncError::CompareFailed("no such dir".to_string())))
    );
    assert_eq!(
        after(
            print_status(&conf()),
            vec![Event::FileWasRead(FileRead::Missing), Event::EmptyDir(None)]
        ),
        Step::Failed(Failure::NoEmptyDir)
    );
}

#[test]
fn restore_without_commits_fails_before_the_engine_runs() {
    for reference in [None, Some("latest".to_string())] {
        let (state, action) = next(restore(&conf(), reference, "".to_string(), false));
        assert_eq!(action, Action::ReadFile("/mnt/repo/backups/latest.commit".to_string()));
        assert_eq!(
            step_at(&conf(), state, Event::FileWasRead(FileRead::Missing), 0),
            Step::Failed(Failure::NoCommits)
        );
    }
}

#[test]
fn restore_everything_from_the_latest_commit() {
    let start = restore(&conf(), None, "".to_string(), false);
    let step = after(start, vec![contents("/mnt/repo/backups/b"), contents("9\nmsg\n")]);
    let (state, action) = next(step);
    assert_eq!(action, Action::CheckExists("/mnt/repo/backups/b".to_string()));
    let (state, action) = next(step_at(&conf(), state, Event::Exists(true), 0));
    assert_eq!(
        action,
        Action::RunSync(words(&["-aAX", "--delete", "/mnt/repo/backups/b/data/", "/home/me"]))
    );
    assert_eq!(step_at(&conf(), state, good(), 0), Step::Done(Outcome::Restored));
}

#[test]
fn restore_a_path_from_a_named_commit() {
    let start = restore(&conf(), Some("first".to_string()), "docs".to_string(), true);
    let (state, action) = next(start);
    assert_eq!(action, Action::CheckExists("/mnt/repo/backups/first".to_string()));
    let (state, action) = next(step_at(&conf(), state, Event::Exists(true), 0));
    assert_eq!(
        action,
        Action::RunSync(words(&[
            "-aAXv",
            "--delete",
            "/mnt/repo/backups/first/data/docs",
            "/home/me/docs"
        ]))
    );
    let failed = Event::Synced(SyncResult::Failed(Some(1), "".to_string()));
    assert_eq!(
        step_at(&conf(), state, failed, 0),
        Step::Failed(Failure::Sync(SyncError::Failed(Some(1))))
    );
    let start = restore(&conf(), Some("gone".to_string()), "".to_string(), false);
    assert_eq!(
        after(start, vec![Event::Exists(false)]),
        Step::Failed(Failure::CommitNotFound("/mnt/repo/backups/gone".to_string()))
    );
}

#[test]
fn stepping_now_takes_the_time_of_the_clock() {
    let (state, _) = next(make_commit(&conf(), "n".to_string(), "m".to_string(), false));
    let (state, _) = next(step(&conf(), state, Event::DirCreated(true)));
    let made = state.commit.unwrap();
    assert!(made.get_timestamp() > 1_500_000_000);
    assert_eq!(made.get_folder(), "/mnt/repo/backups/n");
    assert_eq!(made.get_message(), "m");
}
