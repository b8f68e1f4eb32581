use resilient::commit::{
    insert_commit, Commit, CommitError, FolderRecord, ListedEntry, COMMIT_FILE_NAME,
    LATEST_FILE_NAME,
};
use resilient::config::Config;
use resilient::files::{FileRead, FileWrite};
use resilient::order::{comes_after, sort_commits};
use std::cmp::Ordering;

fn contents(text: &str) -> FileRead {
    FileRead::Contents(text.to_string())
}

fn folder(name: &str, text: &str) -> ListedEntry {
    ListedEntry::Folder(FolderRecord { folder: name.to_string(), record: contents(text) })
}

fn commit(timestamp: i64, message: &str, folder: &str) -> Commit {
    Commit::with_timestamp(timestamp, message.to_string(), folder.to_string())
}

fn conf() -> Config {
    Config::new("/home/me".to_string(), "/mnt/repo".to_string())
}

#[test]
fn record_is_timestamp_then_message() {
    let c = Commit::parse_commit("/r/backups/a", &contents("1431648000\nfirst line\nsecond\n")).unwrap();
    assert_eq!(c.get_timestamp(), 1431648000);
    assert_eq!(c.get_message(), "first line\nsecond\n");
    assert_eq!(c.get_folder(), "/r/backups/a");
}

#[test]
fn message_lines_each_gain_one_line_feed() {
    let read = |text: &str| Commit::parse_commit("f", &contents(text)).unwrap();
    assert_eq!(read("5").get_message(), "");
    assert_eq!(read("5\n").get_message(), "");
    assert_eq!(read("5\nmsg").get_message(), "msg\n");
    assert_eq!(read("5\nmsg\n").get_message(), "msg\n");
    assert_eq!(read("5\n\n").get_message(), "\n");
    assert_eq!(read("5\na\r\nb").get_message(), "a\nb\n");
    assert_eq!(read("-5\nx").get_timestamp(), -5);
    assert_eq!(read("+5\nx").get_timestamp(), 5);
}

#[test]
fn record_faults_are_errors() {
    let path = "/r/backups/a";
    assert_eq!(
        Commit::parse_commit(path, &FileRead::Missing),
        Err(CommitError::NoCommitFile(path.to_string()))
    );
    assert_eq!(
        Commit::parse_commit(path, &FileRead::Unreadable),
        Err(CommitError::CommitFileUnreadable("/r/backups/a/info.commit".to_string()))
    );
    assert_eq!(
        Commit::parse_commit(path, &contents("")),
        Err(CommitError::EmptyCommitFile("/r/backups/a/info.commit".to_string()))
    );
    assert_eq!(
        Commit::parse_commit(path, &contents("soon\nmsg")),
        Err(CommitError::BadTimestamp("soon".to_string()))
    );
    assert_eq!(
        Commit::parse_commit(path, &contents("\n5\nmsg")),
        Err(CommitError::BadTimestamp("".to_string()))
    );
    assert_eq!(
        Commit::parse_commit(path, &contents(" 5\nmsg")),
        Err(CommitError::BadTimestamp(" 5".to_string()))
    );
    assert_eq!(
        Commit::parse_commit(path, &contents("9223372036854775808\n")),
        Err(CommitError::BadTimestamp("9223372036854775808".to_string()))
    );
}

#[test]
fn written_record_reads_back() {
    for (timestamp, message, expected) in [
        (1431648000i64, "one line", "one line\n"),
        (0, "", ""),
        (-3, "two\nlines\n", "two\nlines\n"),
        (i64::MAX, "ends without feed\nlast", "ends without feed\nlast\n"),
        (i64::MIN, "blank line\n\nafter", "blank line\n\nafter\n"),
        (7, "crlf\r\nline", "crlf\nline\n"),
    ] {
        let c = commit(timestamp, message, "/r/backups/x");
        let file = c.write_commit_file();
        assert_eq!(file.path, "/r/backups/x/info.commit");
        assert_eq!(file.contents, format!("{}\n{}", timestamp, message));
        let back = Commit::parse_commit("/r/backups/x", &FileRead::Contents(file.contents)).unwrap();
        assert_eq!(back.get_timestamp(), timestamp);
        assert_eq!(back.get_message(), expected);
        assert_eq!(back.get_folder(), "/r/backups/x");
    }
}

#[test]
fn empty_backups_folder_lists_no_commits() {
    let none: Vec<ListedEntry> = Vec::new();
    assert_eq!(Commit::get_commits(Some(&none)), Ok(Vec::new()));
}

#[test]
fn unreadable_backups_folder_is_an_error() {
    assert_eq!(Commit::get_commits(None), Err(CommitError::BackupsUnreadable));
}

#[test]
fn commits_are_listed_by_timestamp() {
    let folders = vec![folder("c5", "5\nfive"), folder("c1", "1\none"), folder("c3", "3\nthree")];
    let commits = Commit::get_commits(Some(&folders)).unwrap();
    let stamps: Vec<i64> = commits.iter().map(|c| c.get_timestamp()).collect();
    assert_eq!(stamps, vec![1, 3, 5]);
    let names: Vec<&str> = commits.iter().map(|c| c.get_folder()).collect();
    assert_eq!(names, vec!["c1", "c3", "c5"]);
    assert_eq!(commits[1].get_message(), "three\n");
}

#[test]
fn commits_with_one_timestamp_keep_their_order() {
    let folders = vec![
        folder("b", "2\n"),
        folder("x", "1\n"),
        folder("a", "2\n"),
        folder("y", "1\n"),
        folder("c", "2\n"),
    ];
    let commits = Commit::get_commits(Some(&folders)).unwrap();
    let names: Vec<&str> = commits.iter().map(|c| c.get_folder()).collect();
    assert_eq!(names, vec!["x", "y", "b", "a", "c"]);
}

#[test]
fn one_bad_folder_fails_the_listing() {
    let folders = vec![
        folder("good", "1\n"),
        ListedEntry::Folder(FolderRecord { folder: "crashed".to_string(), record: FileRead::Missing }),
        folder("bad", "x\n"),
    ];
    assert_eq!(
        Commit::get_commits(Some(&folders)),
        Err(CommitError::NoCommitFile("crashed".to_string()))
    );
}

#[test]
fn only_folders_are_commits() {
    let entries = vec![
        ListedEntry::Other("/r/backups/notes.txt".to_string()),
        folder("c2", "2\ntwo"),
        ListedEntry::Unreadable,
        folder("c1", "1\none"),
        ListedEntry::Other("/r/backups/latest".to_string()),
    ];
    let commits = Commit::get_commits(Some(&entries)).unwrap();
    let names: Vec<&str> = commits.iter().map(|c| c.get_folder()).collect();
    assert_eq!(names, vec!["c1", "c2"]);
    let none = vec![ListedEntry::Unreadable, ListedEntry::Other("x".to_string())];
    assert_eq!(Commit::get_commits(Some(&none)), Ok(Vec::new()));
}

#[test]
fn a_bad_folder_among_other_entries_fails_the_listing() {
    let entries = vec![
        ListedEntry::Unreadable,
        folder("good", "1\n"),
        ListedEntry::Other("file".to_string()),
        folder("bad", "x\n"),
        folder("worse", ""),
    ];
    assert_eq!(
        Commit::get_commits(Some(&entries)),
        Err(CommitError::BadTimestamp("x".to_string()))
    );
}

#[test]
fn inserting_keeps_the_order() {
    let mut commits = vec![commit(1, "", "a"), commit(3, "", "b"), commit(3, "", "c")];
    insert_commit(&mut commits, commit(2, "", "d"));
    insert_commit(&mut commits, commit(3, "", "e"));
    insert_commit(&mut commits, commit(0, "", "f"));
    insert_commit(&mut commits, commit(9, "", "g"));
    let names: Vec<&str> = commits.iter().map(|c| c.get_folder()).collect();
    assert_eq!(names, vec!["f", "a", "d", "b", "c", "e", "g"]);
}

#[test]
fn no_pointer_file_means_no_latest_commit() {
    assert_eq!(Commit::get_latest(&FileRead::Missing, &FileRead::Missing), Ok(None));
    assert_eq!(Commit::get_latest(&FileRead::Missing, &contents("5\n")), Ok(None));
}

#[test]
fn latest_commit_is_the_one_the_pointer_names() {
    let latest = Commit::get_latest(&contents("/r/backups/b"), &contents("9\nmsg\n"));
    assert_eq!(latest, Ok(Some(commit(9, "msg\n", "/r/backups/b"))));
}

#[test]
fn latest_commit_faults_are_errors() {
    assert_eq!(
        Commit::get_latest(&FileRead::Unreadable, &contents("9\n")),
        Err(CommitError::LatestUnreadable)
    );
    assert_eq!(
        Commit::get_latest(&contents("/r/backups/b"), &FileRead::Missing),
        Err(CommitError::NoCommitFile("/r/backups/b".to_string()))
    );
    assert_eq!(
        Commit::get_latest(&contents("/r/backups/b"), &contents("nine\n")),
        Err(CommitError::BadTimestamp("nine".to_string()))
    );
}

#[test]
fn pointer_file_holds_the_folder() {
    let c = commit(9, "msg", "/mnt/repo/backups/b");
    assert_eq!(
        Commit::write_latest(&conf(), &c),
        FileWrite {
            path: "/mnt/repo/backups/latest.commit".to_string(),
            contents: "/mnt/repo/backups/b".to_string(),
        }
    );
    assert_eq!(COMMIT_FILE_NAME, "info.commit");
    assert_eq!(LATEST_FILE_NAME, "latest.commit");
}

#[test]
fn new_commit_takes_the_time_of_the_clock() {
    let before = std::time::SystemTime::now()
        .duration_since(std::time::UNIX_EPOCH)
        .unwrap()
        .as_secs() as i64;
    let c = Commit::new("/r/backups/n".to_string(), "msg".to_string());
    let after = std::time::SystemTime::now()
        .duration_since(std::time::UNIX_EPOCH)
        .unwrap()
        .as_secs() as i64;
    assert!(before <= c.get_timestamp() && c.get_timestamp() <= after);
    assert_eq!(c.get_folder(), "/r/backups/n");
    assert_eq!(c.get_message(), "msg");
}

#[test]
fn commits_are_ordered_by_timestamp_alone() {
    let a = commit(1, "z", "z");
    let b = commit(2, "a", "a");
    let c = commit(2, "b", "b");
    assert_eq!(sort_commits(&a, &b), Ordering::Less);
    assert_eq!(sort_commits(&b, &a), Ordering::Greater);
    assert_eq!(sort_commits(&b, &c), Ordering::Equal);
    assert!(comes_after(&b, &a));
    assert!(!comes_after(&a, &b));
    assert!(!comes_after(&b, &c));
}
