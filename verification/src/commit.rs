//! Commits: one snapshot each, with the moment it was made, its message
//! and its folder. A commit's record is a text file in its folder; the
//! commits of a repository are listed in the order of their timestamps,
//! and a pointer file names the folder of the latest.

use crate::config::Config;
use crate::decimal::{
    decimal, format_i64, is_digit, lemma_decimal_chars, lemma_decimal_round_trip, parse_i64,
    parsed_i64,
};
use crate::files::{FileRead, FileReadView, FileWrite, FileWriteView};
use crate::order::comes_after;
use crate::paths::{join, joined};
use crate::text::{
    find, lemma_find_from_is, line_bounds, lines, occurs_at, to_chars, without_cr,
};
use crate::views::{result_view, seq_view};
use vstd::prelude::*;

verus! {

/// The name of the record file in a commit's folder.
pub const COMMIT_FILE_NAME: &'static str = "info.commit";

/// The name of the pointer file in the backups folder.
pub const LATEST_FILE_NAME: &'static str = "latest.commit";

/// One snapshot.
#[derive(Debug, Clone, PartialEq, Eq)]
pub struct Commit {
    timestamp: i64,
    message: String,
    folder: String,
}

/// The mathematical value of a `Commit`: seconds since the epoch, the
/// message and the folder.
pub struct CommitView {
    pub timestamp: int,
    pub message: Seq<char>,
    pub folder: Seq<char>,
}

impl View for Commit {
    type V = CommitView;

    closed spec fn view(&self) -> CommitView {
        CommitView {
            timestamp: self.timestamp as int,
            message: self.message@,
            folder: self.folder@,
        }
    }
}

/// Why the repository cannot be read or written as asked.
#[derive(Debug, Clone, PartialEq, Eq)]
pub enum CommitError {
    /// The backups folder could not be listed.
    BackupsUnreadable,
    /// The pointer file is there but could not be read.
    LatestUnreadable,
    /// The commit folder at this path has no record file.
    NoCommitFile(String),
    /// The record file at this path could not be read.
    CommitFileUnreadable(String),
    /// The record file at this path is empty.
    EmptyCommitFile(String),
    /// The first line of a record, this text, is no timestamp.
    BadTimestamp(String),
    /// The commit folder at this path does not exist.
    FolderMissing(String),
    /// The record file could not be written.
    WriteCommitFailed,
    /// The pointer file could not be written.
    WriteLatestFailed,
}

/// The mathematical value of a `CommitError`.
pub enum CommitErrorView {
    BackupsUnreadable,
    LatestUnreadable,
    NoCommitFile(Seq<char>),
    CommitFileUnreadable(Seq<char>),
    EmptyCommitFile(Seq<char>),
    BadTimestamp(Seq<char>),
    FolderMissing(Seq<char>),
    WriteCommitFailed,
    WriteLatestFailed,
}

impl View for CommitError {
    type V = CommitErrorView;

    open spec fn view(&self) -> CommitErrorView {
        match self {
            CommitError::BackupsUnreadable => CommitErrorView::BackupsUnreadable,
            CommitError::LatestUnreadable => CommitErrorView::LatestUnreadable,
            CommitError::NoCommitFile(path) => CommitErrorView::NoCommitFile(path@),
            CommitError::CommitFileUnreadable(path) => CommitErrorView::CommitFileUnreadable(
                path@,
            ),
            CommitError::EmptyCommitFile(path) => CommitErrorView::EmptyCommitFile(path@),
            CommitError::BadTimestamp(text) => CommitErrorView::BadTimestamp(text@),
            CommitError::FolderMissing(path) => CommitErrorView::FolderMissing(path@),
            CommitError::WriteCommitFailed => CommitErrorView::WriteCommitFailed,
            CommitError::WriteLatestFailed => CommitErrorView::WriteLatestFailed,
        }
    }
}

/// A folder inside the backups folder, and what reading the record file
/// in it gave.
#[derive(Debug, Clone, PartialEq, Eq)]
pub struct FolderRecord {
    pub folder: String,
    pub record: FileRead,
}

/// The mathematical value of a `FolderRecord`.
pub struct FolderRecordView {
    pub folder: Seq<char>,
    pub record: FileReadView,
}

impl View for FolderRecord {
    type V = FolderRecordView;

    open spec fn view(&self) -> FolderRecordView {
        FolderRecordView { folder: self.folder@, record: self.record@ }
    }
}

/// One entry of the listing of the backups folder.
#[derive(Debug, Clone, PartialEq, Eq)]
pub enum ListedEntry {
    /// An entry that could not be read.
    Unreadable,
    /// Something at this path that is no folder.
    Other(String),
    /// A folder, and what reading the record file in it gave.
    Folder(FolderRecord),
}

/// The mathematical value of a `ListedEntry`.
pub enum ListedEntryView {
    Unreadable,
    Other(Seq<char>),
    Folder(FolderRecordView),
}

impl View for ListedEntry {
    type V = ListedEntryView;

    open spec fn view(&self) -> ListedEntryView {
        match self {
            ListedEntry::Unreadable => ListedEntryView::Unreadable,
            ListedEntry::Other(path) => ListedEntryView::Other(path@),
            ListedEntry::Folder(folder) => ListedEntryView::Folder(folder@),
        }
    }
}

/// The lines `ls`, each followed by one line feed, as one text.
pub open spec fn joined_lines(ls: Seq<Seq<char>>) -> Seq<char>
    decreases ls.len(),
{
    if ls.len() == 0 {
        Seq::empty()
    } else {
        joined_lines(ls.drop_last()) + ls.last() + seq!['\n']
    }
}

/// The text of a commit's record: the timestamp in decimal on the first
/// line, then the message as it is.
pub open spec fn record_text(timestamp: int, message: Seq<char>) -> Seq<char> {
    decimal(timestamp) + seq!['\n'] + message
}

/// The path of the record file of the commit folder `folder`.
pub open spec fn record_path(folder: Seq<char>) -> Seq<char> {
    joined(folder, COMMIT_FILE_NAME@)
}

/// The commit in the folder `path`, from what reading its record file
/// gave. The first line of the record is the timestamp; the lines after
/// it, each followed by one line feed, are the message.
pub open spec fn parsed_commit(path: Seq<char>, record: FileReadView) -> Result<
    CommitView,
    CommitErrorView,
> {
    match record {
        FileReadView::Missing => Err(CommitErrorView::NoCommitFile(path)),
        FileReadView::Unreadable => Err(CommitErrorView::CommitFileUnreadable(record_path(path))),
        FileReadView::Contents(text) => {
            let ls = lines(text);
            if ls.len() == 0 {
                Err(CommitErrorView::EmptyCommitFile(record_path(path)))
            } else {
                match parsed_i64(ls[0]) {
                    None => Err(CommitErrorView::BadTimestamp(ls[0])),
                    Some(timestamp) => Ok(
                        CommitView {
                            timestamp: timestamp as int,
                            message: joined_lines(ls.skip(1)),
                            folder: path,
                        },
                    ),
                }
            }
        },
    }
}

/// Whether the timestamps of `commits` never decrease.
pub open spec fn sorted_by_timestamp(commits: Seq<CommitView>) -> bool {
    forall|i: int, j: int|
        0 <= i <= j < commits.len() ==> commits[i].timestamp <= commits[j].timestamp
}

/// The commits `sorted` with `commit` put in after the last of them whose
/// timestamp is not greater than its own.
pub open spec fn inserted(sorted: Seq<CommitView>, commit: CommitView) -> Seq<CommitView>
    decreases sorted.len(),
{
    if sorted.len() == 0 || sorted.last().timestamp <= commit.timestamp {
        sorted.push(commit)
    } else {
        inserted(sorted.drop_last(), commit).push(sorted.last())
    }
}

/// `commits` in the order of their timestamps; commits with the same
/// timestamp keep the order that they came in.
pub open spec fn sorted_commits(commits: Seq<CommitView>) -> Seq<CommitView>
    decreases commits.len(),
{
    if commits.len() == 0 {
        Seq::empty()
    } else {
        inserted(sorted_commits(commits.drop_last()), commits.last())
    }
}

/// The commits that the folders give, in the order of the folders, up to
/// the first folder that gives none: then the error of that folder.
pub open spec fn parsed_all(folders: Seq<FolderRecordView>) -> Result<
    Seq<CommitView>,
    CommitErrorView,
>
    decreases folders.len(),
{
    if folders.len() == 0 {
        Ok(Seq::empty())
    } else {
        match parsed_all(folders.drop_last()) {
            Err(e) => Err(e),
            Ok(commits) => match parsed_commit(folders.last().folder, folders.last().record) {
                Err(e) => Err(e),
                Ok(commit) => Ok(commits.push(commit)),
            },
        }
    }
}

/// The folders among the entries of a listing, in order. Entries that
/// could not be read, and what is no folder, are passed over.
pub open spec fn folders_of(entries: Seq<ListedEntryView>) -> Seq<FolderRecordView>
    decreases entries.len(),
{
    if entries.len() == 0 {
        Seq::empty()
    } else {
        match entries.last() {
            ListedEntryView::Folder(folder) => folders_of(entries.drop_last()).push(folder),
            _ => folders_of(entries.drop_last()),
        }
    }
}

/// The commits of a repository in the order of their timestamps, from the
/// listing of its backups folder (`None` where the folder could not be
/// listed). Every folder in it is a commit; one folder without a good
/// record fails the whole.
pub open spec fn listed_commits(listing: Option<Seq<ListedEntryView>>) -> Result<
    Seq<CommitView>,
    CommitErrorView,
> {
    match listing {
        None => Err(CommitErrorView::BackupsUnreadable),
        Some(entries) => match parsed_all(folders_of(entries)) {
            Err(e) => Err(e),
            Ok(commits) => Ok(sorted_commits(commits)),
        },
    }
}

/// The latest commit, from what reading the pointer file gave and what
/// reading the record file in the folder that it names gave. Without a
/// pointer file there is no commit yet, which is no error.
pub open spec fn latest_commit(pointer: FileReadView, record: FileReadView) -> Result<
    Option<CommitView>,
    CommitErrorView,
> {
    match pointer {
        FileReadView::Missing => Ok(None),
        FileReadView::Unreadable => Err(CommitErrorView::LatestUnreadable),
        FileReadView::Contents(folder) => match parsed_commit(folder, record) {
            Ok(commit) => Ok(Some(commit)),
            Err(e) => Err(e),
        },
    }
}

/// Putting a commit in keeps the order, and adds the commit and nothing
/// else.
pub proof fn lemma_inserted(sorted: Seq<CommitView>, commit: CommitView)
    requires
        sorted_by_timestamp(sorted),
    ensures
        sorted_by_timestamp(inserted(sorted, commit)),
        inserted(sorted, commit).to_multiset() == sorted.to_multiset().insert(commit),
        inserted(sorted, commit).len() == sorted.len() + 1,
    decreases sorted.len(),
{
    broadcast use vstd::seq_lib::group_to_multiset_ensures;

    if sorted.len() == 0 || sorted.last().timestamp <= commit.timestamp {
    } else {
        let rest = sorted.drop_last();
        let last = sorted.last();
        lemma_inserted(rest, commit);
        let r = inserted(rest, commit);
        assert forall|i: int| 0 <= i < r.len() implies (#[trigger] r[i]).timestamp
            <= last.timestamp by {
            assert(r.to_multiset().count(r[i]) > 0);
            if r[i] != commit {
                assert(rest.to_multiset().count(r[i]) > 0);
                let k = choose|k: int| 0 <= k < rest.len() && rest[k] == r[i];
                assert(sorted[k] == rest[k]);
            }
        }
        assert(sorted =~= rest.push(last));
        assert(sorted.to_multiset() =~= rest.to_multiset().insert(last));
        assert(r.push(last).to_multiset() =~= sorted.to_multiset().insert(commit));
    }
}

/// Sorting gives the same commits, each as often as it came, in an order
/// in which the timestamps never decrease.
pub proof fn lemma_sorted_commits(commits: Seq<CommitView>)
    ensures
        sorted_by_timestamp(sorted_commits(commits)),
        sorted_commits(commits).to_multiset() == commits.to_multiset(),
        sorted_commits(commits).len() == commits.len(),
    decreases commits.len(),
{
    broadcast use vstd::seq_lib::group_to_multiset_ensures;

    if commits.len() > 0 {
        let rest = commits.drop_last();
        lemma_sorted_commits(rest);
        lemma_inserted(sorted_commits(rest), commits.last());
        assert(commits =~= rest.push(commits.last()));
    }
}

/// `inserted` puts the commit at `at`, where every commit from `at` on has
/// a greater timestamp and the one before `at`, if there is one, has not.
pub proof fn lemma_inserted_at(sorted: Seq<CommitView>, commit: CommitView, at: int)
    requires
        0 <= at <= sorted.len(),
        forall|k: int| at <= k < sorted.len() ==> (#[trigger] sorted[k]).timestamp
            > commit.timestamp,
        at > 0 ==> sorted[at - 1].timestamp <= commit.timestamp,
    ensures
        inserted(sorted, commit) == sorted.insert(at, commit),
    decreases sorted.len() - at,
{
    if at == sorted.len() {
        assert(sorted.insert(at, commit) =~= sorted.push(commit));
    } else {
        let rest = sorted.drop_last();
        assert(sorted.last() == sorted[sorted.len() - 1]);
        assert forall|k: int| at <= k < rest.len() implies (#[trigger] rest[k]).timestamp
            > commit.timestamp by {
            assert(rest[k] == sorted[k]);
        }
        if at > 0 {
            assert(rest[at - 1] == sorted[at - 1]);
        }
        lemma_inserted_at(rest, commit, at);
        assert(rest.insert(at, commit).push(sorted.last()) =~= sorted.insert(at, commit));
    }
}

/// Writing a commit's record and reading it back gives the same
/// timestamp and folder, and the message with each of its lines ended by
/// exactly one line feed.
pub proof fn lemma_record_round_trip(timestamp: i64, message: Seq<char>, folder: Seq<char>)
    ensures
        parsed_commit(folder, FileReadView::Contents(record_text(timestamp as int, message)))
            == Ok::<CommitView, CommitErrorView>(
            CommitView {
                timestamp: timestamp as int,
                message: joined_lines(lines(message)),
                folder,
            },
        ),
{
    let d = decimal(timestamp as int);
    let feed = seq!['\n'];
    let text = record_text(timestamp as int, message);
    lemma_decimal_chars(timestamp as int);
    lemma_decimal_round_trip(timestamp);
    assert(text.subrange(d.len() as int, d.len() as int + feed.len() as int) =~= feed);
    assert forall|k: int| 0 <= k < d.len() implies !occurs_at(text, feed, k) by {
        assert(text[k] == d[k]);
        assert(is_digit(d[k]) || d[k] == '-');
        if occurs_at(text, feed, k) {
            assert(text.subrange(k, k + feed.len())[0] == feed[0]);
        }
    }
    lemma_find_from_is(text, feed, 0, d.len() as int);
    assert(find(text, feed) == d.len());
    assert(text.take(d.len() as int) =~= d);
    assert(is_digit(d.last()) || d.last() == '-');
    assert(without_cr(d) == d);
    assert(text.skip(d.len() as int + 1) =~= message);
    let ls = lines(text);
    assert(ls =~= seq![d] + lines(message));
    assert(ls.skip(1) =~= lines(message));
}

/// `chrono::Utc::now` and `chrono::DateTime::timestamp`: the system
/// clock's time in whole seconds since the start of 1970. The value
/// depends on the moment of the call, so nothing is stated of it. The
/// call panics where the system clock reads a time before 1970.
#[verifier::external_body]
pub(crate) fn clock_seconds() -> i64 {
    chrono::offset::Utc::now().timestamp()
}

impl Commit {
    /// The commit in `folder` with this message, made now: its timestamp
    /// is what the system clock says.
    pub fn new(folder: String, message: String) -> (r: Commit)
        ensures
            r@.folder == folder@,
            r@.message == message@,
    {
        Commit::with_timestamp(clock_seconds(), message, folder)
    }

    /// The commit with these three values.
    pub fn with_timestamp(timestamp: i64, message: String, folder: String) -> (r: Commit)
        ensures
            r@ == (CommitView { timestamp: timestamp as int, message: message@, folder: folder@ }),
    {
        Commit { timestamp, message, folder }
    }

    /// The folder of the commit.
    pub fn get_folder(&self) -> (r: &str)
        ensures
            r@ == self@.folder,
    {
        self.folder.as_str()
    }

    /// The timestamp of the commit, in seconds since the start of 1970.
    pub fn get_timestamp(&self) -> (r: i64)
        ensures
            r as int == self@.timestamp,
    {
        self.timestamp
    }

    /// The message of the commit.
    pub fn get_message(&self) -> (r: &str)
        ensures
            r@ == self@.message,
    {
        self.message.as_str()
    }

    /// The record file to write for this commit. Its folder must exist
    /// by then.
    pub fn write_commit_file(&self) -> (r: FileWrite)
        ensures
            r@ == (FileWriteView {
                path: record_path(self@.folder),
                contents: record_text(self@.timestamp, self@.message),
            }),
    {
        proof {
            reveal_strlit("\n");
            assert("\n"@ =~= seq!['\n']);
        }
        let mut contents = format_i64(self.timestamp);
        contents.append("\n");
        contents.append(self.message.as_str());
        FileWrite { path: join(self.folder.as_str(), COMMIT_FILE_NAME), contents }
    }

    /// The pointer file to write so that `commit` is the latest: the
    /// file in the backups folder, holding the commit's folder.
    pub fn write_latest(conf: &Config, commit: &Commit) -> (r: FileWrite)
        ensures
            r@ == (FileWriteView {
                path: joined(joined(conf@.repo_dir, crate::config::BACKUPS_FOLDER@), LATEST_FILE_NAME@),
                contents: commit@.folder,
            }),
    {
        let backups = conf.get_backups_folder();
        FileWrite {
            path: join(backups.as_str(), LATEST_FILE_NAME),
            contents: commit.folder.clone(),
        }
    }

    /// The commit in the folder `path`, from what reading its record
    /// file gave.
    pub fn parse_commit(path: &str, record: &FileRead) -> (r: Result<Commit, CommitError>)
        ensures
            result_view(r) == parsed_commit(path@, record@),
    {
        let text = match record {
            FileRead::Missing => {
                return Err(CommitError::NoCommitFile(path.to_owned()));
            },
            FileRead::Unreadable => {
                return Err(CommitError::CommitFileUnreadable(join(path, COMMIT_FILE_NAME)));
            },
            FileRead::Contents(text) => text.as_str(),
        };
        let chars = to_chars(text);
        let bounds = line_bounds(&chars);
        if bounds.len() == 0 {
            return Err(CommitError::EmptyCommitFile(join(path, COMMIT_FILE_NAME)));
        }
        let ghost ls = lines(text@);
        let first = text.substring_char(bounds[0].0, bounds[0].1);
        let timestamp = match parse_i64(first) {
            Some(timestamp) => timestamp,
            None => {
                return Err(CommitError::BadTimestamp(first.to_owned()));
            },
        };
        let mut message = String::new();
        let mut i: usize = 1;
        proof {
            reveal_strlit("\n");
            assert("\n"@ =~= seq!['\n']);
            assert(ls.skip(1).take(0) =~= Seq::<Seq<char>>::empty());
        }
        while i < bounds.len()
            invariant
                1 <= i <= bounds.len(),
                ls == lines(text@),
                chars@ == text@,
                "\n"@ == seq!['\n'],
                bounds@.len() == ls.len(),
                forall|k: int|
                    0 <= k < bounds@.len() ==> (#[trigger] bounds@[k]).0 <= bounds@[k].1
                        <= chars@.len() && chars@.subrange(
                        bounds@[k].0 as int,
                        bounds@[k].1 as int,
                    ) == ls[k],
                message@ == joined_lines(ls.skip(1).take(i - 1)),
            decreases bounds.len() - i,
        {
            let line = text.substring_char(bounds[i].0, bounds[i].1);
            proof {
                let next = ls.skip(1).take(i as int);
                assert(next.drop_last() =~= ls.skip(1).take(i - 1));
                assert(next.last() == ls[i as int]);
            }
            message.append(line);
            message.append("\n");
            i += 1;
        }
        proof {
            assert(ls.skip(1).take(i - 1) =~= ls.skip(1));
        }
        Ok(Commit { timestamp, message, folder: path.to_owned() })
    }

    /// The commits of a repository in the order of their timestamps, from
    /// the listing of its backups folder: its entries, each folder among
    /// them with what reading its record file gave; or `None` where the
    /// backups folder could not be listed.
    pub fn get_commits(listing: Option<&Vec<ListedEntry>>) -> (r: Result<Vec<Commit>, CommitError>)
        ensures
            match r {
                Ok(commits) => listed_commits(
                    match listing {
                        Some(entries) => Some(seq_view(entries@)),
                        None => None,
                    },
                ) == Ok::<Seq<CommitView>, CommitErrorView>(seq_view(commits@)),
                Err(e) => listed_commits(
                    match listing {
                        Some(entries) => Some(seq_view(entries@)),
                        None => None,
                    },
                ) == Err::<Seq<CommitView>, CommitErrorView>(e@),
            },
    {
        let entries = match listing {
            Some(entries) => entries,
            None => {
                return Err(CommitError::BackupsUnreadable);
            },
        };
        let ghost all = seq_view(entries@);
        let mut commits: Vec<Commit> = Vec::new();
        let mut i: usize = 0;
        proof {
            assert(all.take(0) =~= Seq::<ListedEntryView>::empty());
            assert(seq_view(commits@) =~= Seq::<CommitView>::empty());
        }
        while i < entries.len()
            invariant
                i <= entries.len(),
                listing == Some(entries),
                all == seq_view(entries@),
                parsed_all(folders_of(all.take(i as int))) is Ok,
                seq_view(commits@) == sorted_commits(
                    parsed_all(folders_of(all.take(i as int)))->Ok_0,
                ),
            decreases entries.len() - i,
        {
            let ghost so_far = folders_of(all.take(i as int));
            proof {
                assert(all.take(i + 1).drop_last() =~= all.take(i as int));
                assert(all.take(i + 1).last() == entries@[i as int]@);
            }
            match &entries[i] {
                ListedEntry::Folder(found) => {
                    proof {
                        assert(so_far.push(found@).drop_last() =~= so_far);
                    }
                    let commit = match Commit::parse_commit(found.folder.as_str(), &found.record) {
                        Ok(commit) => commit,
                        Err(e) => {
                            proof {
                                lemma_folders_prefix(all, i + 1);
                                lemma_parsed_all_fails(
                                    folders_of(all),
                                    folders_of(all.take(i + 1)).len() as int,
                                );
                            }
                            return Err(e);
                        },
                    };
                    let ghost parsed = parsed_all(so_far)->Ok_0;
                    proof {
                        assert(parsed.push(commit@).drop_last() =~= parsed);
                    }
                    insert_commit(&mut commits, commit);
                },
                _ => {},
            }
            i += 1;
        }
        proof {
            assert(all.take(i as int) =~= all);
        }
        Ok(commits)
    }

    /// The latest commit, if there is one yet, from what reading the
    /// pointer file gave and what reading the record file in the folder
    /// that the pointer names gave. The second is not looked at where the
    /// pointer file holds no folder.
    pub fn get_latest(pointer: &FileRead, record: &FileRead) -> (r: Result<
        Option<Commit>,
        CommitError,
    >)
        ensures
            match r {
                Ok(Some(commit)) => latest_commit(pointer@, record@) == Ok::<
                    Option<CommitView>,
                    CommitErrorView,
                >(Some(commit@)),
                Ok(None) => latest_commit(pointer@, record@) == Ok::<
                    Option<CommitView>,
                    CommitErrorView,
                >(None),
                Err(e) => latest_commit(pointer@, record@) == Err::<
                    Option<CommitView>,
                    CommitErrorView,
                >(e@),
            },
    {
        match pointer {
            FileRead::Missing => Ok(None),
            FileRead::Unreadable => Err(CommitError::LatestUnreadable),
            FileRead::Contents(folder) => match Commit::parse_commit(folder.as_str(), record) {
                Ok(commit) => Ok(Some(commit)),
                Err(e) => Err(e),
            },
        }
    }
}

/// Where the folders up to `k` give an error, all the folders give that
/// error.
pub proof fn lemma_parsed_all_fails(folders: Seq<FolderRecordView>, k: int)
    requires
        0 <= k <= folders.len(),
        parsed_all(folders.take(k)) is Err,
    ensures
        parsed_all(folders) == parsed_all(folders.take(k)),
    decreases folders.len() - k,
{
    if k < folders.len() {
        assert(folders.take(k + 1).drop_last() =~= folders.take(k));
        lemma_parsed_all_fails(folders, k + 1);
    } else {
        assert(folders.take(k) =~= folders);
    }
}

/// Puts `commit` into `commits`, which are in the order of their
/// timestamps, after the last of them whose timestamp is not greater.
pub fn insert_commit(commits: &mut Vec<Commit>, commit: Commit)
    ensures
        seq_view(final(commits)@) == inserted(seq_view(old(commits)@), commit@),
{
    let ghost before = seq_view(commits@);
    let mut at: usize = commits.len();
    while at > 0 && comes_after(&commits[at - 1], &commit)
        invariant
            at <= commits.len(),
            before == seq_view(commits@),
            forall|k: int| at <= k < before.len() ==> (#[trigger] before[k]).timestamp
                > commit@.timestamp,
        decreases at,
    {
        at -= 1;
    }
    proof {
        lemma_inserted_at(before, commit@, at as int);
    }
    commits.insert(at, commit);
    proof {
        assert(seq_view(commits@) =~= before.insert(at as int, commit@));
    }
}

/// The folders among the first `k` entries are the first of the folders
/// among all the entries.
pub proof fn lemma_folders_prefix(entries: Seq<ListedEntryView>, k: int)
    requires
        0 <= k <= entries.len(),
    ensures
        folders_of(entries.take(k)).len() <= folders_of(entries).len(),
        folders_of(entries).take(folders_of(entries.take(k)).len() as int) == folders_of(
            entries.take(k),
        ),
    decreases entries.len(),
{
    if k == entries.len() {
        assert(entries.take(k) =~= entries);
        assert(folders_of(entries).take(folders_of(entries).len() as int) =~= folders_of(entries));
    } else {
        let rest = entries.drop_last();
        lemma_folders_prefix(rest, k);
        assert(rest.take(k) =~= entries.take(k));
        let n = folders_of(entries.take(k)).len() as int;
        assert(folders_of(entries).take(n) =~= folders_of(rest).take(n));
    }
}

/// An entry that is no folder changes nothing in what a listing gives.
pub proof fn lemma_other_entries_passed_over(entries: Seq<ListedEntryView>, entry: ListedEntryView)
    requires
        !(entry is Folder),
    ensures
        folders_of(entries.push(entry)) == folders_of(entries),
        listed_commits(Some(entries.push(entry))) == listed_commits(Some(entries)),
{
    assert(entries.push(entry).drop_last() =~= entries);
}

/// A backups folder without entries lists no commits, which is no
/// error.
pub proof fn lemma_no_folders_no_commits()
    ensures
        listed_commits(Some(Seq::<ListedEntryView>::empty())) == Ok::<
            Seq<CommitView>,
            CommitErrorView,
        >(Seq::empty()),
{
}

/// Without a pointer file there is no latest commit, which is no error,
/// whatever else is there.
pub proof fn lemma_no_pointer_no_latest(record: FileReadView)
    ensures
        latest_commit(FileReadView::Missing, record) == Ok::<Option<CommitView>, CommitErrorView>(
            None,
        ),
{
}

/// The commits that are listed are those of the folders, each once, in
/// an order in which the timestamps never decrease.
pub proof fn lemma_listed_in_order(entries: Seq<ListedEntryView>)
    requires
        parsed_all(folders_of(entries)) is Ok,
    ensures
        listed_commits(Some(entries)) matches Ok(commits) && sorted_by_timestamp(commits)
            && commits.to_multiset() == parsed_all(folders_of(entries))->Ok_0.to_multiset(),
{
    lemma_sorted_commits(parsed_all(folders_of(entries))->Ok_0);
}

} // verus!
