//! The three operations on a repository: making a commit, comparing the
//! backed-up directory with the latest commit, and restoring from a
//! commit.
//!
//! The library touches neither the file system nor the synchronisation
//! engine. Each operation is a sequence of steps: a step names one action
//! for the caller to perform, and the caller hands back what the action
//! gave, as an event, to learn the next step. What the engine is asked to
//! do, what its outcome means and what is reported are decided here.

use crate::commit::{
    clock_seconds, parsed_commit, record_path, record_text, Commit, CommitError, CommitErrorView,
    CommitView, COMMIT_FILE_NAME, LATEST_FILE_NAME,
};
use crate::config::{Config, ConfigView, BACKUPS_FOLDER};
use crate::files::{FileRead, FileReadView, FileWrite, FileWriteView};
use crate::paths::{join, joined};
use crate::status::{mod_string, parse_change, parsed_change};
use crate::text::{followed_by, line_bounds, lines, same_text, to_chars};
use crate::views::{option_view, seq_view};
use vstd::prelude::*;

verus! {

/// The name of the folder, inside a commit's folder, that holds the
/// mirrored files.
pub const DATA_FOLDER_NAME: &'static str = "data";

/// How a run of the engine ended.
#[derive(Debug, Clone, PartialEq, Eq)]
pub enum SyncResult {
    /// The engine could not be started.
    NotStarted,
    /// The engine ended with a failure: its exit code, if it has one, and
    /// what it wrote to its error stream.
    Failed(Option<i32>, String),
    /// The engine ended well: what it wrote to its output stream, or `None`
    /// where that is no text.
    Succeeded(Option<String>),
}

/// The mathematical value of a `SyncResult`.
pub enum SyncResultView {
    NotStarted,
    Failed(Option<i32>, Seq<char>),
    Succeeded(Option<Seq<char>>),
}

impl View for SyncResult {
    type V = SyncResultView;

    open spec fn view(&self) -> SyncResultView {
        match self {
            SyncResult::NotStarted => SyncResultView::NotStarted,
            SyncResult::Failed(code, diagnostics) => SyncResultView::Failed(*code, diagnostics@),
            SyncResult::Succeeded(output) => SyncResultView::Succeeded(
                option_view(*output),
            ),
        }
    }
}

/// Why a run of the engine is no success.
#[derive(Debug, Clone, PartialEq, Eq)]
pub enum SyncError {
    /// The engine could not be started.
    NotStarted,
    /// A mirroring run ended with a failure: its exit code, if it has
    /// one. What it wrote went to the terminal.
    Failed(Option<i32>),
    /// A comparing run ended with a failure: what it wrote to its error
    /// stream.
    CompareFailed(String),
    /// The engine's report is no text.
    BadOutput,
}

/// The mathematical value of a `SyncError`.
pub enum SyncErrorView {
    NotStarted,
    Failed(Option<i32>),
    CompareFailed(Seq<char>),
    BadOutput,
}

impl View for SyncError {
    type V = SyncErrorView;

    open spec fn view(&self) -> SyncErrorView {
        match self {
            SyncError::NotStarted => SyncErrorView::NotStarted,
            SyncError::Failed(code) => SyncErrorView::Failed(*code),
            SyncError::CompareFailed(diagnostics) => SyncErrorView::CompareFailed(diagnostics@),
            SyncError::BadOutput => SyncErrorView::BadOutput,
        }
    }
}

/// The flags of a mirroring run: archive mode with ACLs and extended
/// attributes, and `v` where the run is verbose.
pub open spec fn mirror_flags(verbose: bool) -> Seq<char> {
    if verbose {
        "-aAXv"@
    } else {
        "-aAX"@
    }
}

/// The data folder of the commit folder `folder`.
pub open spec fn data_folder(folder: Seq<char>) -> Seq<char> {
    joined(folder, DATA_FOLDER_NAME@)
}

/// The arguments of the run that makes a commit: the contents of the
/// backed-up directory are mirrored into the data folder of the new
/// commit's folder, with deletion, and with hard links to the unchanged
/// files of `link_dest` where there is one.
pub open spec fn commit_args(
    backup_dir: Seq<char>,
    folder: Seq<char>,
    link_dest: Option<Seq<char>>,
    verbose: bool,
) -> Seq<Seq<char>> {
    let head = seq![mirror_flags(verbose), "--delete"@];
    let tail = seq![backup_dir + "/"@, data_folder(folder)];
    match link_dest {
        Some(dest) => head + seq!["--link-dest="@ + dest] + tail,
        None => head + tail,
    }
}

/// The arguments of the run that compares: a dry run with itemized
/// changes and deletion, from the contents of the backed-up directory to
/// `compare_path`.
pub open spec fn status_args(backup_dir: Seq<char>, compare_path: Seq<char>) -> Seq<Seq<char>> {
    seq!["-aAXin"@, "--delete"@, backup_dir + "/"@, compare_path]
}

/// Whether a path to restore stands for everything: the empty path and
/// `/` do.
pub open spec fn is_whole(path: Seq<char>) -> bool {
    path.len() == 0 || path == seq!['/']
}

/// Where in the commit folder `folder` the path to restore lies. For
/// everything it is the contents of the data folder; a path that begins
/// with `/` is rooted in the data folder, and any other path is taken
/// from the data folder.
pub open spec fn restore_source(folder: Seq<char>, path: Seq<char>) -> Seq<char> {
    if is_whole(path) {
        data_folder(folder) + "/"@
    } else if path[0] == '/' {
        data_folder(folder) + path
    } else {
        data_folder(folder) + "/"@ + path
    }
}

/// Where the path to restore is restored to: the backed-up directory for
/// everything; else the path inside it.
pub open spec fn restore_dest(backup_dir: Seq<char>, path: Seq<char>) -> Seq<char> {
    if is_whole(path) {
        backup_dir
    } else if path[0] == '/' {
        backup_dir + path
    } else {
        joined(backup_dir, path)
    }
}

/// The arguments of the run that restores `path` from the commit folder
/// `folder`, with deletion.
pub open spec fn restore_args(
    backup_dir: Seq<char>,
    folder: Seq<char>,
    path: Seq<char>,
    verbose: bool,
) -> Seq<Seq<char>> {
    seq![
        mirror_flags(verbose),
        "--delete"@,
        restore_source(folder, path),
        restore_dest(backup_dir, path),
    ]
}

/// What the outcome of a mirroring run means: a success, or why not.
pub open spec fn sync_checked(result: SyncResultView) -> Result<(), SyncErrorView> {
    match result {
        SyncResultView::NotStarted => Err(SyncErrorView::NotStarted),
        SyncResultView::Failed(code, _) => Err(SyncErrorView::Failed(code)),
        SyncResultView::Succeeded(_) => Ok(()),
    }
}

/// The lines of a status report for the report lines `ls`: for each line
/// that tells of a change, in order, a tab and the summary of the change.
pub open spec fn report_of(ls: Seq<Seq<char>>) -> Seq<Seq<char>>
    decreases ls.len(),
{
    if ls.len() == 0 {
        Seq::empty()
    } else {
        match parsed_change(ls.last()) {
            Some(change) => report_of(ls.drop_last()).push("\t"@ + mod_string(change)),
            None => report_of(ls.drop_last()),
        }
    }
}

/// The status report that the outcome of a comparing run gives, or why
/// there is none.
pub open spec fn status_checked(result: SyncResultView) -> Result<Seq<Seq<char>>, SyncErrorView> {
    match result {
        SyncResultView::NotStarted => Err(SyncErrorView::NotStarted),
        SyncResultView::Failed(_, diagnostics) => Err(SyncErrorView::CompareFailed(diagnostics)),
        SyncResultView::Succeeded(None) => Err(SyncErrorView::BadOutput),
        SyncResultView::Succeeded(Some(output)) => Ok(report_of(lines(output))),
    }
}

/// The flags of a mirroring run.
pub fn flags_for(verbose: bool) -> (r: String)
    ensures
        r@ == mirror_flags(verbose),
{
    if verbose {
        "-aAXv".to_owned()
    } else {
        "-aAX".to_owned()
    }
}

/// Whether `path` stands for everything.
pub fn path_is_whole(path: &str) -> (r: bool)
    ensures
        r == is_whole(path@),
{
    let n = path.unicode_len();
    if n == 0 {
        return true;
    }
    let r = n == 1 && path.get_char(0) == '/';
    proof {
        if r {
            assert(path@ =~= seq!['/']);
        }
    }
    r
}

/// The arguments of the run that makes the commit in `folder`.
pub fn make_commit_args(conf: &Config, folder: &str, link_dest: Option<&str>, verbose: bool) -> (r:
    Vec<String>)
    ensures
        seq_view(r@) == commit_args(
            conf@.backup_dir,
            folder@,
            option_view(link_dest),
            verbose,
        ),
{
    let mut r: Vec<String> = Vec::new();
    r.push(flags_for(verbose));
    r.push("--delete".to_owned());
    if let Some(dest) = link_dest {
        r.push(followed_by("--link-dest=", dest));
    }
    r.push(followed_by(conf.get_backup_location(), "/"));
    r.push(join(folder, DATA_FOLDER_NAME));
    proof {
        assert(seq_view(r@) =~= commit_args(
            conf@.backup_dir,
            folder@,
            option_view(link_dest),
            verbose,
        ));
    }
    r
}

/// The arguments of the run that compares the backed-up directory with
/// `compare_path`.
pub fn make_status_args(conf: &Config, compare_path: &str) -> (r: Vec<String>)
    ensures
        seq_view(r@) == status_args(conf@.backup_dir, compare_path@),
{
    let mut r: Vec<String> = Vec::new();
    r.push("-aAXin".to_owned());
    r.push("--delete".to_owned());
    r.push(followed_by(conf.get_backup_location(), "/"));
    r.push(compare_path.to_owned());
    proof {
        assert(seq_view(r@) =~= status_args(conf@.backup_dir, compare_path@));
    }
    r
}

/// The arguments of the run that restores `path` from the commit folder
/// `folder`.
pub fn make_restore_args(conf: &Config, folder: &str, path: &str, verbose: bool) -> (r: Vec<
    String,
>)
    ensures
        seq_view(r@) == restore_args(conf@.backup_dir, folder@, path@, verbose),
{
    let data = join(folder, DATA_FOLDER_NAME);
    let backup_dir = conf.get_backup_location();
    let source;
    let dest;
    if path_is_whole(path) {
        source = followed_by(data.as_str(), "/");
        dest = backup_dir.to_owned();
    } else if path.get_char(0) == '/' {
        source = followed_by(data.as_str(), path);
        dest = followed_by(backup_dir, path);
    } else {
        let mut s = followed_by(data.as_str(), "/");
        s.append(path);
        source = s;
        dest = join(backup_dir, path);
    }
    let mut r: Vec<String> = Vec::new();
    r.push(flags_for(verbose));
    r.push("--delete".to_owned());
    r.push(source);
    r.push(dest);
    proof {
        assert(seq_view(r@) =~= restore_args(conf@.backup_dir, folder@, path@, verbose));
    }
    r
}

/// What the outcome of a mirroring run means.
pub fn check_sync(result: SyncResult) -> (r: Result<(), SyncError>)
    ensures
        match r {
            Ok(_) => sync_checked(result@) is Ok,
            Err(e) => sync_checked(result@) == Err::<(), SyncErrorView>(e@),
        },
{
    match result {
        SyncResult::NotStarted => Err(SyncError::NotStarted),
        SyncResult::Failed(code, _) => Err(SyncError::Failed(code)),
        SyncResult::Succeeded(_) => Ok(()),
    }
}

/// The lines of the status report for the engine's report `output`.
pub fn status_lines(output: &str) -> (r: Vec<String>)
    ensures
        seq_view(r@) == report_of(lines(output@)),
{
    let chars = to_chars(output);
    let bounds = line_bounds(&chars);
    let ghost ls = lines(output@);
    let mut r: Vec<String> = Vec::new();
    let mut i: usize = 0;
    proof {
        assert(ls.take(0) =~= Seq::<Seq<char>>::empty());
        assert(seq_view(r@) =~= Seq::<Seq<char>>::empty());
    }
    while i < bounds.len()
        invariant
            i <= bounds.len(),
            ls == lines(output@),
            chars@ == output@,
            bounds@.len() == ls.len(),
            forall|k: int|
                0 <= k < bounds@.len() ==> (#[trigger] bounds@[k]).0 <= bounds@[k].1
                    <= chars@.len() && chars@.subrange(bounds@[k].0 as int, bounds@[k].1 as int)
                    == ls[k],
            seq_view(r@) == report_of(ls.take(i as int)),
        decreases bounds.len() - i,
    {
        let line = output.substring_char(bounds[i].0, bounds[i].1);
        proof {
            assert(ls.take(i + 1).drop_last() =~= ls.take(i as int));
            assert(ls.take(i + 1).last() == ls[i as int]);
        }
        let ghost before = seq_view(r@);
        match parse_change(line) {
            Some(change) => {
                let summary = change.get_mod_string();
                let entry = followed_by("\t", summary.as_str());
                r.push(entry);
                proof {
                    assert(seq_view(r@) =~= before.push("\t"@ + mod_string(change@)));
                }
            },
            None => {},
        }
        i += 1;
    }
    proof {
        assert(ls.take(i as int) =~= ls);
    }
    r
}

/// The status report that the outcome of a comparing run gives.
pub fn check_status(result: SyncResult) -> (r: Result<Vec<String>, SyncError>)
    ensures
        match r {
            Ok(report) => status_checked(result@) == Ok::<Seq<Seq<char>>, SyncErrorView>(
                seq_view(report@),
            ),
            Err(e) => status_checked(result@) == Err::<Seq<Seq<char>>, SyncErrorView>(e@),
        },
{
    match result {
        SyncResult::NotStarted => Err(SyncError::NotStarted),
        SyncResult::Failed(_, diagnostics) => Err(SyncError::CompareFailed(diagnostics)),
        SyncResult::Succeeded(None) => Err(SyncError::BadOutput),
        SyncResult::Succeeded(Some(output)) => Ok(status_lines(output.as_str())),
    }
}

/// How writing a file ended.
#[derive(Debug, Clone, Copy, PartialEq, Eq, Structural)]
pub enum WriteResult {
    /// The file is written.
    Written,
    /// The folder that the file belongs in does not exist.
    NoFolder,
    /// The file could not be written.
    Failed,
}

/// What the caller is asked to do.
#[derive(Debug, Clone, PartialEq, Eq)]
pub enum Action {
    /// Create the directory at this path, with the directories above it.
    CreateDir(String),
    /// Read the file at this path as text.
    ReadFile(String),
    /// Find the absolute path, free of links, of this path.
    Canonicalize(String),
    /// Create an empty directory for this run alone.
    MakeEmptyDir,
    /// Find whether anything exists at this path.
    CheckExists(String),
    /// Run the engine with these arguments and let it write to the
    /// terminal.
    RunSync(Vec<String>),
    /// Run the engine with these arguments and keep what it writes.
    RunSyncCaptured(Vec<String>),
    /// Write this file, unless the folder at this path does not exist.
    WriteIn(String, FileWrite),
    /// Write this file.
    Write(FileWrite),
}

/// The mathematical value of an `Action`.
pub enum ActionView {
    CreateDir(Seq<char>),
    ReadFile(Seq<char>),
    Canonicalize(Seq<char>),
    MakeEmptyDir,
    CheckExists(Seq<char>),
    RunSync(Seq<Seq<char>>),
    RunSyncCaptured(Seq<Seq<char>>),
    WriteIn(Seq<char>, FileWriteView),
    Write(FileWriteView),
}

impl View for Action {
    type V = ActionView;

    open spec fn view(&self) -> ActionView {
        match self {
            Action::CreateDir(path) => ActionView::CreateDir(path@),
            Action::ReadFile(path) => ActionView::ReadFile(path@),
            Action::Canonicalize(path) => ActionView::Canonicalize(path@),
            Action::MakeEmptyDir => ActionView::MakeEmptyDir,
            Action::CheckExists(path) => ActionView::CheckExists(path@),
            Action::RunSync(args) => ActionView::RunSync(seq_view(args@)),
            Action::RunSyncCaptured(args) => ActionView::RunSyncCaptured(seq_view(args@)),
            Action::WriteIn(folder, file) => ActionView::WriteIn(folder@, file@),
            Action::Write(file) => ActionView::Write(file@),
        }
    }
}

/// What an action gave.
#[derive(Debug, Clone, PartialEq, Eq)]
pub enum Event {
    /// Whether the directory was created.
    DirCreated(bool),
    /// What reading the file gave.
    FileWasRead(FileRead),
    /// The absolute path, or `None` where there is none.
    Canonical(Option<String>),
    /// The path of the empty directory, or `None` where none was made.
    EmptyDir(Option<String>),
    /// Whether anything exists at the path.
    Exists(bool),
    /// How the run of the engine ended.
    Synced(SyncResult),
    /// How writing the file ended.
    Wrote(WriteResult),
}

/// The mathematical value of an `Event`.
pub enum EventView {
    DirCreated(bool),
    FileWasRead(FileReadView),
    Canonical(Option<Seq<char>>),
    EmptyDir(Option<Seq<char>>),
    Exists(bool),
    Synced(SyncResultView),
    Wrote(WriteResult),
}

impl View for Event {
    type V = EventView;

    open spec fn view(&self) -> EventView {
        match self {
            Event::DirCreated(ok) => EventView::DirCreated(*ok),
            Event::FileWasRead(read) => EventView::FileWasRead(read@),
            Event::Canonical(path) => EventView::Canonical(
                option_view(*path),
            ),
            Event::EmptyDir(path) => EventView::EmptyDir(
                option_view(*path),
            ),
            Event::Exists(yes) => EventView::Exists(*yes),
            Event::Synced(result) => EventView::Synced(result@),
            Event::Wrote(result) => EventView::Wrote(*result),
        }
    }
}

/// Why an operation failed.
#[derive(Debug, Clone, PartialEq, Eq)]
pub enum Failure {
    /// The folder for the new commit, at this path, could not be created.
    FolderNotCreated(String),
    /// The repository is not as it should be.
    Repository(CommitError),
    /// The folder of the latest commit, at this path, has no absolute
    /// path.
    LatestNotResolved(String),
    /// No empty directory could be made to compare with.
    NoEmptyDir,
    /// There is no commit yet to restore from.
    NoCommits,
    /// There is no commit folder at this path.
    CommitNotFound(String),
    /// The engine failed.
    Sync(SyncError),
    /// The event is not one that the action asked for can give.
    UnexpectedEvent,
}

/// The mathematical value of a `Failure`.
pub enum FailureView {
    FolderNotCreated(Seq<char>),
    Repository(CommitErrorView),
    LatestNotResolved(Seq<char>),
    NoEmptyDir,
    NoCommits,
    CommitNotFound(Seq<char>),
    Sync(SyncErrorView),
    UnexpectedEvent,
}

impl View for Failure {
    type V = FailureView;

    open spec fn view(&self) -> FailureView {
        match self {
            Failure::FolderNotCreated(path) => FailureView::FolderNotCreated(path@),
            Failure::Repository(e) => FailureView::Repository(e@),
            Failure::LatestNotResolved(path) => FailureView::LatestNotResolved(path@),
            Failure::NoEmptyDir => FailureView::NoEmptyDir,
            Failure::NoCommits => FailureView::NoCommits,
            Failure::CommitNotFound(path) => FailureView::CommitNotFound(path@),
            Failure::Sync(e) => FailureView::Sync(e@),
            Failure::UnexpectedEvent => FailureView::UnexpectedEvent,
        }
    }
}

/// Which operation runs.
#[derive(Debug, Clone, Copy, PartialEq, Eq, Structural)]
pub enum Purpose {
    Create,
    Status,
    Restore,
}

/// Which action of an operation is awaited.
#[derive(Debug, Clone, Copy, PartialEq, Eq, Structural)]
pub enum Stage {
    /// Create: the folder of the new commit is being created.
    CreatingFolder,
    /// The pointer file is being read.
    ReadingLatest,
    /// The record of the latest commit is being read.
    ReadingRecord,
    /// Create: the folder of the latest commit is being resolved.
    Resolving,
    /// Create: the engine mirrors into the new commit.
    Syncing,
    /// Create: the record of the new commit is being written.
    WritingRecord,
    /// Create: the pointer file is being written.
    WritingLatest,
    /// Status: the empty directory is being made.
    MakingEmptyDir,
    /// Status: the engine compares.
    Comparing,
    /// Restore: the commit folder is looked for.
    CheckingCommit,
    /// Restore: the engine mirrors back.
    Restoring,
}

/// Where an operation stands.
#[derive(Debug, Clone, PartialEq, Eq)]
pub struct State {
    pub purpose: Purpose,
    pub stage: Stage,
    pub verbose: bool,
    /// The commit folder that the stage is about.
    pub folder: String,
    /// Create: the message of the new commit.
    pub message: String,
    /// Restore: the path to restore.
    pub path: String,
    /// Create: the new commit, once its folder is there.
    pub commit: Option<Commit>,
}

/// The mathematical value of a `State`.
pub struct StateView {
    pub purpose: Purpose,
    pub stage: Stage,
    pub verbose: bool,
    pub folder: Seq<char>,
    pub message: Seq<char>,
    pub path: Seq<char>,
    pub commit: Option<CommitView>,
}

impl View for State {
    type V = StateView;

    open spec fn view(&self) -> StateView {
        StateView {
            purpose: self.purpose,
            stage: self.stage,
            verbose: self.verbose,
            folder: self.folder@,
            message: self.message@,
            path: self.path@,
            commit: option_view(self.commit),
        }
    }
}

/// What an operation has come to.
#[derive(Debug, Clone, PartialEq, Eq)]
pub enum Outcome {
    /// The commit is made.
    Committed(Commit),
    /// The lines of the status report.
    Report(Vec<String>),
    /// The path is restored.
    Restored,
}

/// The mathematical value of an `Outcome`.
pub enum OutcomeView {
    Committed(CommitView),
    Report(Seq<Seq<char>>),
    Restored,
}

impl View for Outcome {
    type V = OutcomeView;

    open spec fn view(&self) -> OutcomeView {
        match self {
            Outcome::Committed(c) => OutcomeView::Committed(c@),
            Outcome::Report(ls) => OutcomeView::Report(seq_view(ls@)),
            Outcome::Restored => OutcomeView::Restored,
        }
    }
}

/// One step of an operation.
#[derive(Debug, Clone, PartialEq, Eq)]
pub enum Step {
    /// The caller performs the action and comes back with its event.
    Next(State, Action),
    /// The operation is over.
    Done(Outcome),
    /// The operation failed; nothing more is to be done.
    Failed(Failure),
}

/// The mathematical value of a `Step`.
pub enum StepView {
    Next(StateView, ActionView),
    Done(OutcomeView),
    Failed(FailureView),
}

impl View for Step {
    type V = StepView;

    open spec fn view(&self) -> StepView {
        match self {
            Step::Next(state, action) => StepView::Next(state@, action@),
            Step::Done(outcome) => StepView::Done(outcome@),
            Step::Failed(failure) => StepView::Failed(failure@),
        }
    }
}

/// The backups folder of the repository.
pub open spec fn backups_folder(conf: ConfigView) -> Seq<char> {
    joined(conf.repo_dir, BACKUPS_FOLDER@)
}

/// The path of the pointer file.
pub open spec fn latest_path(conf: ConfigView) -> Seq<char> {
    joined(backups_folder(conf), LATEST_FILE_NAME@)
}

/// The state with another stage.
pub open spec fn at_stage(state: StateView, stage: Stage) -> StateView {
    StateView { stage, ..state }
}

/// The first step of making the commit named `name`: its folder, inside
/// the backups folder, is created.
pub open spec fn commit_started(
    conf: ConfigView,
    name: Seq<char>,
    message: Seq<char>,
    verbose: bool,
) -> StepView {
    let folder = joined(backups_folder(conf), name);
    StepView::Next(
        StateView {
            purpose: Purpose::Create,
            stage: Stage::CreatingFolder,
            verbose,
            folder,
            message,
            path: Seq::empty(),
            commit: None,
        },
        ActionView::CreateDir(folder),
    )
}

/// The first step of a status report: the pointer file is read.
pub open spec fn status_started(conf: ConfigView) -> StepView {
    StepView::Next(
        StateView {
            purpose: Purpose::Status,
            stage: Stage::ReadingLatest,
            verbose: false,
            folder: Seq::empty(),
            message: Seq::empty(),
            path: Seq::empty(),
            commit: None,
        },
        ActionView::ReadFile(latest_path(conf)),
    )
}

/// Whether a commit reference stands for the latest commit: none does,
/// and the word `latest` does.
pub open spec fn means_latest(commit: Option<Seq<char>>) -> bool {
    match commit {
        None => true,
        Some(name) => name == "latest"@,
    }
}

/// The first step of restoring `path` from the commit that `commit`
/// refers to. For the latest commit the pointer file is read; a name is
/// the name of a commit folder inside the backups folder, which is looked
/// for.
pub open spec fn restore_started(
    conf: ConfigView,
    commit: Option<Seq<char>>,
    path: Seq<char>,
    verbose: bool,
) -> StepView {
    let state = StateView {
        purpose: Purpose::Restore,
        stage: Stage::ReadingLatest,
        verbose,
        folder: Seq::empty(),
        message: Seq::empty(),
        path,
        commit: None,
    };
    if means_latest(commit) {
        StepView::Next(state, ActionView::ReadFile(latest_path(conf)))
    } else {
        let folder = joined(backups_folder(conf), commit->0);
        StepView::Next(
            StateView { stage: Stage::CheckingCommit, folder, ..state },
            ActionView::CheckExists(folder),
        )
    }
}

/// The step after the pointer file was found missing: a commit is made
/// without hard links, a status report compares with an empty directory,
/// and there is nothing to restore from.
pub open spec fn without_latest(conf: ConfigView, state: StateView) -> StepView {
    match state.purpose {
        Purpose::Create => match state.commit {
            Some(commit) => StepView::Next(
                at_stage(state, Stage::Syncing),
                ActionView::RunSync(
                    commit_args(conf.backup_dir, commit.folder, None, state.verbose),
                ),
            ),
            None => StepView::Failed(FailureView::UnexpectedEvent),
        },
        Purpose::Status => StepView::Next(
            at_stage(state, Stage::MakingEmptyDir),
            ActionView::MakeEmptyDir,
        ),
        Purpose::Restore => StepView::Failed(FailureView::NoCommits),
    }
}

/// The step after the latest commit, in `folder`, was read: a commit is
/// made with hard links to it, once its folder is resolved; a status
/// report compares with its data folder; a restore takes it as its
/// commit folder, which is looked for.
pub open spec fn with_latest(conf: ConfigView, state: StateView, folder: Seq<char>) -> StepView {
    match state.purpose {
        Purpose::Create => StepView::Next(
            StateView { stage: Stage::Resolving, folder, ..state },
            ActionView::Canonicalize(folder),
        ),
        Purpose::Status => StepView::Next(
            StateView { stage: Stage::Comparing, folder, ..state },
            ActionView::RunSyncCaptured(status_args(conf.backup_dir, data_folder(folder))),
        ),
        Purpose::Restore => StepView::Next(
            StateView { stage: Stage::CheckingCommit, folder, ..state },
            ActionView::CheckExists(folder),
        ),
    }
}

/// The step that follows where an operation in `state` learns `event`,
/// `now` being the time in seconds since the start of 1970. An event that
/// the awaited action cannot give fails the operation.
///
/// Making a commit: create the folder; read the pointer file and the
/// record of the latest commit; resolve its folder; run the engine; then,
/// and only after the engine's success, write the record of the new
/// commit; then write the pointer file.
pub open spec fn stepped(conf: ConfigView, state: StateView, event: EventView, now: int) -> StepView {
    match (state.stage, event) {
        (Stage::CreatingFolder, EventView::DirCreated(created)) => if created {
            StepView::Next(
                StateView {
                    stage: Stage::ReadingLatest,
                    commit: Some(
                        CommitView {
                            timestamp: now,
                            message: state.message,
                            folder: state.folder,
                        },
                    ),
                    ..state
                },
                ActionView::ReadFile(latest_path(conf)),
            )
        } else {
            StepView::Failed(FailureView::FolderNotCreated(state.folder))
        },
        (Stage::ReadingLatest, EventView::FileWasRead(read)) => match read {
            FileReadView::Missing => without_latest(conf, state),
            FileReadView::Unreadable => StepView::Failed(
                FailureView::Repository(CommitErrorView::LatestUnreadable),
            ),
            FileReadView::Contents(folder) => StepView::Next(
                StateView { stage: Stage::ReadingRecord, folder, ..state },
                ActionView::ReadFile(record_path(folder)),
            ),
        },
        (Stage::ReadingRecord, EventView::FileWasRead(read)) => match parsed_commit(
            state.folder,
            read,
        ) {
            Ok(latest) => with_latest(conf, state, latest.folder),
            Err(e) => StepView::Failed(FailureView::Repository(e)),
        },
        (Stage::Resolving, EventView::Canonical(resolved)) => match (resolved, state.commit) {
            (Some(absolute), Some(commit)) => StepView::Next(
                at_stage(state, Stage::Syncing),
                ActionView::RunSync(
                    commit_args(
                        conf.backup_dir,
                        commit.folder,
                        Some(data_folder(absolute)),
                        state.verbose,
                    ),
                ),
            ),
            (None, Some(_)) => StepView::Failed(FailureView::LatestNotResolved(state.folder)),
            (_, None) => StepView::Failed(FailureView::UnexpectedEvent),
        },
        (Stage::Syncing, EventView::Synced(result)) => match (sync_checked(result), state.commit) {
            (Ok(_), Some(commit)) => StepView::Next(
                at_stage(state, Stage::WritingRecord),
                ActionView::WriteIn(
                    commit.folder,
                    FileWriteView {
                        path: record_path(commit.folder),
                        contents: record_text(commit.timestamp, commit.message),
                    },
                ),
            ),
            (Err(e), Some(_)) => StepView::Failed(FailureView::Sync(e)),
            (_, None) => StepView::Failed(FailureView::UnexpectedEvent),
        },
        (Stage::WritingRecord, EventView::Wrote(result)) => match (result, state.commit) {
            (WriteResult::Written, Some(commit)) => StepView::Next(
                at_stage(state, Stage::WritingLatest),
                ActionView::Write(
                    FileWriteView { path: latest_path(conf), contents: commit.folder },
                ),
            ),
            (WriteResult::NoFolder, Some(commit)) => StepView::Failed(
                FailureView::Repository(CommitErrorView::FolderMissing(commit.folder)),
            ),
            (WriteResult::Failed, Some(_)) => StepView::Failed(
                FailureView::Repository(CommitErrorView::WriteCommitFailed),
            ),
            (_, None) => StepView::Failed(FailureView::UnexpectedEvent),
        },
        (Stage::WritingLatest, EventView::Wrote(result)) => match (result, state.commit) {
            (WriteResult::Written, Some(commit)) => StepView::Done(OutcomeView::Committed(commit)),
            (_, Some(_)) => StepView::Failed(
                FailureView::Repository(CommitErrorView::WriteLatestFailed),
            ),
            (_, None) => StepView::Failed(FailureView::UnexpectedEvent),
        },
        (Stage::MakingEmptyDir, EventView::EmptyDir(made)) => match made {
            Some(path) => StepView::Next(
                at_stage(state, Stage::Comparing),
                ActionView::RunSyncCaptured(status_args(conf.backup_dir, path)),
            ),
            None => StepView::Failed(FailureView::NoEmptyDir),
        },
        (Stage::Comparing, EventView::Synced(result)) => match status_checked(result) {
            Ok(report) => StepView::Done(OutcomeView::Report(report)),
            Err(e) => StepView::Failed(FailureView::Sync(e)),
        },
        (Stage::CheckingCommit, EventView::Exists(exists)) => if exists {
            StepView::Next(
                at_stage(state, Stage::Restoring),
                ActionView::RunSync(
                    restore_args(conf.backup_dir, state.folder, state.path, state.verbose),
                ),
            )
        } else {
            StepView::Failed(FailureView::CommitNotFound(state.folder))
        },
        (Stage::Restoring, EventView::Synced(result)) => match sync_checked(result) {
            Ok(_) => StepView::Done(OutcomeView::Restored),
            Err(e) => StepView::Failed(FailureView::Sync(e)),
        },
        _ => StepView::Failed(FailureView::UnexpectedEvent),
    }
}

/// The path of the pointer file.
pub fn latest_file(conf: &Config) -> (r: String)
    ensures
        r@ == latest_path(conf@),
{
    let backups = conf.get_backups_folder();
    join(backups.as_str(), LATEST_FILE_NAME)
}

/// The first step of making the commit named `name` with this message.
pub fn make_commit(conf: &Config, name: String, message: String, verbose: bool) -> (r: Step)
    ensures
        r@ == commit_started(conf@, name@, message@, verbose),
{
    let backups = conf.get_backups_folder();
    let folder = join(backups.as_str(), name.as_str());
    let action = Action::CreateDir(folder.clone());
    Step::Next(
        State {
            purpose: Purpose::Create,
            stage: Stage::CreatingFolder,
            verbose,
            folder,
            message,
            path: String::new(),
            commit: None,
        },
        action,
    )
}

/// The first step of a status report.
pub fn print_status(conf: &Config) -> (r: Step)
    ensures
        r@ == status_started(conf@),
{
    Step::Next(
        State {
            purpose: Purpose::Status,
            stage: Stage::ReadingLatest,
            verbose: false,
            folder: String::new(),
            message: String::new(),
            path: String::new(),
            commit: None,
        },
        Action::ReadFile(latest_file(conf)),
    )
}

/// The first step of restoring `path` from the commit that `commit`
/// refers to.
pub fn restore(conf: &Config, commit: Option<String>, path: String, verbose: bool) -> (r: Step)
    ensures
        r@ == restore_started(
            conf@,
            option_view(commit),
            path@,
            verbose,
        ),
{
    let named = match commit {
        Some(name) => if same_text(name.as_str(), "latest") {
            None
        } else {
            Some(name)
        },
        None => None,
    };
    match named {
        None => Step::Next(
            State {
                purpose: Purpose::Restore,
                stage: Stage::ReadingLatest,
                verbose,
                folder: String::new(),
                message: String::new(),
                path,
                commit: None,
            },
            Action::ReadFile(latest_file(conf)),
        ),
        Some(name) => {
            let backups = conf.get_backups_folder();
            let folder = join(backups.as_str(), name.as_str());
            let action = Action::CheckExists(folder.clone());
            Step::Next(
                State {
                    purpose: Purpose::Restore,
                    stage: Stage::CheckingCommit,
                    verbose,
                    folder,
                    message: String::new(),
                    path,
                    commit: None,
                },
                action,
            )
        },
    }
}

/// The step after the pointer file was found missing.
fn step_without_latest(conf: &Config, state: State) -> (r: Step)
    ensures
        r@ == without_latest(conf@, state@),
{
    let State { purpose, stage: _, verbose, folder, message, path, commit } = state;
    match purpose {
        Purpose::Create => match commit {
            Some(c) => {
                let args = make_commit_args(conf, c.get_folder(), None, verbose);
                Step::Next(
                    State {
                        purpose,
                        stage: Stage::Syncing,
                        verbose,
                        folder,
                        message,
                        path,
                        commit: Some(c),
                    },
                    Action::RunSync(args),
                )
            },
            None => Step::Failed(Failure::UnexpectedEvent),
        },
        Purpose::Status => Step::Next(
            State { purpose, stage: Stage::MakingEmptyDir, verbose, folder, message, path, commit },
            Action::MakeEmptyDir,
        ),
        Purpose::Restore => Step::Failed(Failure::NoCommits),
    }
}

/// The step after the latest commit, in `latest`, was read.
fn step_with_latest(conf: &Config, state: State, latest: String) -> (r: Step)
    ensures
        r@ == with_latest(conf@, state@, latest@),
{
    let State { purpose, stage: _, verbose, folder: _, message, path, commit } = state;
    match purpose {
        Purpose::Create => {
            let action = Action::Canonicalize(latest.clone());
            Step::Next(
                State {
                    purpose,
                    stage: Stage::Resolving,
                    verbose,
                    folder: latest,
                    message,
                    path,
                    commit,
                },
                action,
            )
        },
        Purpose::Status => {
            let data = join(latest.as_str(), DATA_FOLDER_NAME);
            let args = make_status_args(conf, data.as_str());
            Step::Next(
                State {
                    purpose,
                    stage: Stage::Comparing,
                    verbose,
                    folder: latest,
                    message,
                    path,
                    commit,
                },
                Action::RunSyncCaptured(args),
            )
        },
        Purpose::Restore => {
            let action = Action::CheckExists(latest.clone());
            Step::Next(
                State {
                    purpose,
                    stage: Stage::CheckingCommit,
                    verbose,
                    folder: latest,
                    message,
                    path,
                    commit,
                },
                action,
            )
        },
    }
}

/// The step that follows where an operation in `state` learns `event`
/// at the time `now`, in seconds since the start of 1970.
pub fn step_at(conf: &Config, state: State, event: Event, now: i64) -> (r: Step)
    ensures
        r@ == stepped(conf@, state@, event@, now as int),
{
    match (state.stage, event) {
        (Stage::CreatingFolder, Event::DirCreated(created)) => {
            let State { purpose, stage: _, verbose, folder, message, path, commit: _ } = state;
            if created {
                let commit = Commit::with_timestamp(now, message.clone(), folder.clone());
                Step::Next(
                    State {
                        purpose,
                        stage: Stage::ReadingLatest,
                        verbose,
                        folder,
                        message,
                        path,
                        commit: Some(commit),
                    },
                    Action::ReadFile(latest_file(conf)),
                )
            } else {
                Step::Failed(Failure::FolderNotCreated(folder))
            }
        },
        (Stage::ReadingLatest, Event::FileWasRead(read)) => match read {
            FileRead::Missing => step_without_latest(conf, state),
            FileRead::Unreadable => Step::Failed(
                Failure::Repository(CommitError::LatestUnreadable),
            ),
            FileRead::Contents(latest) => {
                let State { purpose, stage: _, verbose, folder: _, message, path, commit } = state;
                let action = Action::ReadFile(join(latest.as_str(), COMMIT_FILE_NAME));
                Step::Next(
                    State {
                        purpose,
                        stage: Stage::ReadingRecord,
                        verbose,
                        folder: latest,
                        message,
                        path,
                        commit,
                    },
                    action,
                )
            },
        },
        (Stage::ReadingRecord, Event::FileWasRead(read)) => {
            match Commit::parse_commit(state.folder.as_str(), &read) {
                Ok(latest) => {
                    let folder = latest.get_folder().to_owned();
                    step_with_latest(conf, state, folder)
                },
                Err(e) => Step::Failed(Failure::Repository(e)),
            }
        },
        (Stage::Resolving, Event::Canonical(resolved)) => {
            let State { purpose, stage: _, verbose, folder, message, path, commit } = state;
            match (resolved, commit) {
                (Some(absolute), Some(c)) => {
                    let link = join(absolute.as_str(), DATA_FOLDER_NAME);
                    let args = make_commit_args(conf, c.get_folder(), Some(link.as_str()), verbose);
                    Step::Next(
                        State {
                            purpose,
                            stage: Stage::Syncing,
                            verbose,
                            folder,
                            message,
                            path,
                            commit: Some(c),
                        },
                        Action::RunSync(args),
                    )
                },
                (None, Some(_)) => Step::Failed(Failure::LatestNotResolved(folder)),
                (_, None) => Step::Failed(Failure::UnexpectedEvent),
            }
        },
        (Stage::Syncing, Event::Synced(result)) => {
            let State { purpose, stage: _, verbose, folder, message, path, commit } = state;
            match (check_sync(result), commit) {
                (Ok(_), Some(c)) => {
                    let action = Action::WriteIn(c.get_folder().to_owned(), c.write_commit_file());
                    Step::Next(
                        State {
                            purpose,
                            stage: Stage::WritingRecord,
                            verbose,
                            folder,
                            message,
                            path,
                            commit: Some(c),
                        },
                        action,
                    )
                },
                (Err(e), Some(_)) => Step::Failed(Failure::Sync(e)),
                (_, None) => Step::Failed(Failure::UnexpectedEvent),
            }
        },
        (Stage::WritingRecord, Event::Wrote(result)) => {
            let State { purpose, stage: _, verbose, folder, message, path, commit } = state;
            match (result, commit) {
                (WriteResult::Written, Some(c)) => {
                    let action = Action::Write(Commit::write_latest(conf, &c));
                    Step::Next(
                        State {
                            purpose,
                            stage: Stage::WritingLatest,
                            verbose,
                            folder,
                            message,
                            path,
                            commit: Some(c),
                        },
                        action,
                    )
                },
                (WriteResult::NoFolder, Some(c)) => Step::Failed(
                    Failure::Repository(CommitError::FolderMissing(c.get_folder().to_owned())),
                ),
                (WriteResult::Failed, Some(_)) => Step::Failed(
                    Failure::Repository(CommitError::WriteCommitFailed),
                ),
                (_, None) => Step::Failed(Failure::UnexpectedEvent),
            }
        },
        (Stage::WritingLatest, Event::Wrote(result)) => match (result, state.commit) {
            (WriteResult::Written, Some(c)) => Step::Done(Outcome::Committed(c)),
            (_, Some(_)) => Step::Failed(Failure::Repository(CommitError::WriteLatestFailed)),
            (_, None) => Step::Failed(Failure::UnexpectedEvent),
        },
        (Stage::MakingEmptyDir, Event::EmptyDir(made)) => match made {
            Some(empty) => {
                let State { purpose, stage: _, verbose, folder, message, path, commit } = state;
                let args = make_status_args(conf, empty.as_str());
                Step::Next(
                    State {
                        purpose,
                        stage: Stage::Comparing,
                        verbose,
                        folder,
                        message,
                        path,
                        commit,
                    },
                    Action::RunSyncCaptured(args),
                )
            },
            None => Step::Failed(Failure::NoEmptyDir),
        },
        (Stage::Comparing, Event::Synced(result)) => match check_status(result) {
            Ok(report) => Step::Done(Outcome::Report(report)),
            Err(e) => Step::Failed(Failure::Sync(e)),
        },
        (Stage::CheckingCommit, Event::Exists(exists)) => {
            let State { purpose, stage: _, verbose, folder, message, path, commit } = state;
            if exists {
                let args = make_restore_args(conf, folder.as_str(), path.as_str(), verbose);
                Step::Next(
                    State {
                        purpose,
                        stage: Stage::Restoring,
                        verbose,
                        folder,
                        message,
                        path,
                        commit,
                    },
                    Action::RunSync(args),
                )
            } else {
                Step::Failed(Failure::CommitNotFound(folder))
            }
        },
        (Stage::Restoring, Event::Synced(result)) => match check_sync(result) {
            Ok(_) => Step::Done(Outcome::Restored),
            Err(e) => Step::Failed(Failure::Sync(e)),
        },
        _ => Step::Failed(Failure::UnexpectedEvent),
    }
}

/// The step that follows where an operation in `state` learns `event`
/// now: the time is what the system clock says.
pub fn step(conf: &Config, state: State, event: Event) -> (r: Step)
    ensures
        exists|now: i64| r@ == stepped(conf@, state@, event@, now as int),
{
    let now = clock_seconds();
    step_at(conf, state, event, now)
}

/// The record of a new commit is written only after the engine has
/// mirrored with success, and the pointer file only after the record is
/// written.
pub proof fn lemma_written_after_success(
    conf: ConfigView,
    state: StateView,
    event: EventView,
    now: int,
)
    ensures
        stepped(conf, state, event, now) matches StepView::Next(_, ActionView::WriteIn(_, _))
            ==> state.stage == Stage::Syncing && event matches EventView::Synced(
            SyncResultView::Succeeded(_),
        ),
        stepped(conf, state, event, now) matches StepView::Next(_, ActionView::Write(_))
            ==> state.stage == Stage::WritingRecord && event == EventView::Wrote(
            WriteResult::Written,
        ),
        stepped(conf, state, event, now) matches StepView::Done(OutcomeView::Committed(_))
            ==> state.stage == Stage::WritingLatest && event == EventView::Wrote(
            WriteResult::Written,
        ),
{
}

/// Restoring from the latest commit where there is no pointer file fails
/// for want of commits, and the engine is not run.
pub proof fn lemma_restore_without_commits(
    conf: ConfigView,
    commit: Option<Seq<char>>,
    path: Seq<char>,
    verbose: bool,
    now: int,
)
    requires
        means_latest(commit),
    ensures
        restore_started(conf, commit, path, verbose) matches StepView::Next(state, action)
            && action == ActionView::ReadFile(latest_path(conf)) && stepped(
            conf,
            state,
            EventView::FileWasRead(FileReadView::Missing),
            now,
        ) == StepView::Failed(FailureView::NoCommits),
{
}

/// Restoring from the latest commit restores from the folder that the
/// pointer file names: once its record is read and the folder is found,
/// the engine is run on that folder.
pub proof fn lemma_restore_from_latest(
    conf: ConfigView,
    commit: Option<Seq<char>>,
    path: Seq<char>,
    verbose: bool,
    folder: Seq<char>,
    record: FileReadView,
    now: int,
)
    requires
        means_latest(commit),
        parsed_commit(folder, record) is Ok,
    ensures
        ({
            let first = restore_started(conf, commit, path, verbose)->Next_0;
            let second = stepped(
                conf,
                first,
                EventView::FileWasRead(FileReadView::Contents(folder)),
                now,
            );
            let third = stepped(conf, second->Next_0, EventView::FileWasRead(record), now);
            let fourth = stepped(conf, third->Next_0, EventView::Exists(true), now);
            &&& second matches StepView::Next(_, ActionView::ReadFile(p)) && p == record_path(
                folder,
            )
            &&& third matches StepView::Next(_, ActionView::CheckExists(p)) && p == folder
            &&& fourth matches StepView::Next(_, ActionView::RunSync(args)) && args
                == restore_args(conf.backup_dir, folder, path, verbose)
        }),
{
}

} // verus!
