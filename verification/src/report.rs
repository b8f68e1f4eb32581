//! What the user is told when an operation fails: one line for each
//! fault, and the kind of fault that it is.

use crate::cli::{CliError, CliErrorView};
use crate::commit::{CommitError, CommitErrorView};
use crate::config::{ConfigError, ConfigErrorView};
use crate::decimal::{decimal, format_i64};
use crate::rsync::{Failure, FailureView, SyncError, SyncErrorView};
use crate::text::{followed_by, framed};
use vstd::prelude::*;

verus! {

/// The exit status of the program after a fault.
pub const EXIT_FAILURE: i32 = 1;

/// The kinds of fault.
#[derive(Debug, Clone, Copy, PartialEq, Eq, Structural)]
pub enum FaultKind {
    /// The command line or the configuration is at fault; the repository
    /// was not touched.
    Input,
    /// The repository is not as it should be, or cannot be read or
    /// written.
    Storage,
    /// The synchronisation engine failed.
    Process,
}

/// What is said of a fault of the command line.
pub open spec fn cli_message(e: CliErrorView) -> Seq<char> {
    match e {
        CliErrorView::NoCommand => "No command provided"@,
        CliErrorView::UnknownCommand(word) => "Unknown command: "@ + word,
        CliErrorView::NoName => "No name provided to -n arg"@,
        CliErrorView::NoMessage => "No message provided to -m arg"@,
        CliErrorView::UnknownArgument(word) => "Unknown argument: "@ + word,
        CliErrorView::EmptyMessage => "Please provide a message via the '-m' argument"@,
    }
}

/// What is said of a fault of the configuration.
pub open spec fn config_message(e: ConfigErrorView) -> Seq<char> {
    match e {
        ConfigErrorView::NotFound => "Cannot find config file"@,
        ConfigErrorView::Unreadable(path) => "Unable to read config file at location: "@ + path,
        ConfigErrorView::TooNested => "Config is nested too deeply"@,
        ConfigErrorView::Syntax => "Unable to parse toml in config"@,
        ConfigErrorView::NotATable => "Toml isn't a table"@,
        ConfigErrorView::MissingKey(key) => "Cannot find key '"@ + key + "' in toml"@,
        ConfigErrorView::NotAString(key) => "Toml key '"@ + key + "' isn't a string"@,
    }
}

/// What is said of a fault of the repository.
pub open spec fn commit_message(e: CommitErrorView) -> Seq<char> {
    match e {
        CommitErrorView::BackupsUnreadable => "Unable to read backups from repo"@,
        CommitErrorView::LatestUnreadable => "Unable to read latest commit"@,
        CommitErrorView::NoCommitFile(path) => "No commit file found for commit: "@ + path,
        CommitErrorView::CommitFileUnreadable(path) => "Unable to read commit file: "@ + path,
        CommitErrorView::EmptyCommitFile(path) => "No content in commit file: "@ + path,
        CommitErrorView::BadTimestamp(text) => "Unable to parse '"@ + text + "' as a timestamp"@,
        CommitErrorView::FolderMissing(path) => "Backup folder: '"@ + path + "' doesn't exist"@,
        CommitErrorView::WriteCommitFailed => "Unable to write info.commit file"@,
        CommitErrorView::WriteLatestFailed => "Unable to write latest commit"@,
    }
}

/// What is said of a failure of the engine.
pub open spec fn sync_message(e: SyncErrorView) -> Seq<char> {
    match e {
        SyncErrorView::NotStarted => "Unable to spawn rsync command"@,
        SyncErrorView::Failed(Some(code)) => "rsync errored out with code: "@ + decimal(
            code as int,
        ),
        SyncErrorView::Failed(None) => "rsync was ended by a signal"@,
        SyncErrorView::CompareFailed(diagnostics) => "rsync command failed with: "@ + diagnostics,
        SyncErrorView::BadOutput => "Unable to parse rsync output"@,
    }
}

/// What is said of a failed operation.
pub open spec fn failure_message(f: FailureView) -> Seq<char> {
    match f {
        FailureView::FolderNotCreated(path) => "Unable to make new backup folder at location: "@
            + path,
        FailureView::Repository(e) => commit_message(e),
        FailureView::LatestNotResolved(path) => "Unable to resolve latest commit folder: "@ + path,
        FailureView::NoEmptyDir => "Unable to allocate empty dir!"@,
        FailureView::NoCommits => "No Commits to restore from"@,
        FailureView::CommitNotFound(path) => "Cannot find commit: "@ + path,
        FailureView::Sync(e) => sync_message(e),
        FailureView::UnexpectedEvent => "Unexpected answer to a step"@,
    }
}

/// The kind of fault that a failed operation is.
pub open spec fn failure_kind(f: FailureView) -> FaultKind {
    match f {
        FailureView::Sync(_) => FaultKind::Process,
        _ => FaultKind::Storage,
    }
}

impl CliError {
    /// What is said of this fault.
    pub fn message(&self) -> (r: String)
        ensures
            r@ == cli_message(self@),
    {
        match self {
            CliError::NoCommand => "No command provided".to_owned(),
            CliError::UnknownCommand(word) => followed_by("Unknown command: ", word.as_str()),
            CliError::NoName => "No name provided to -n arg".to_owned(),
            CliError::NoMessage => "No message provided to -m arg".to_owned(),
            CliError::UnknownArgument(word) => followed_by("Unknown argument: ", word.as_str()),
            CliError::EmptyMessage => "Please provide a message via the '-m' argument".to_owned(),
        }
    }

    /// The kind of this fault.
    pub fn kind(&self) -> (r: FaultKind)
        ensures
            r == FaultKind::Input,
    {
        FaultKind::Input
    }
}

impl ConfigError {
    /// What is said of this fault.
    pub fn message(&self) -> (r: String)
        ensures
            r@ == config_message(self@),
    {
        match self {
            ConfigError::NotFound => "Cannot find config file".to_owned(),
            ConfigError::Unreadable(path) => followed_by("Unable to read config file at location: ", path.as_str()),
            ConfigError::TooNested => "Config is nested too deeply".to_owned(),
            ConfigError::Syntax => "Unable to parse toml in config".to_owned(),
            ConfigError::NotATable => "Toml isn't a table".to_owned(),
            ConfigError::MissingKey(key) => framed("Cannot find key '", key.as_str(), "' in toml"),
            ConfigError::NotAString(key) => framed("Toml key '", key.as_str(), "' isn't a string"),
        }
    }

    /// The kind of this fault.
    pub fn kind(&self) -> (r: FaultKind)
        ensures
            r == FaultKind::Input,
    {
        FaultKind::Input
    }
}

impl CommitError {
    /// What is said of this fault.
    pub fn message(&self) -> (r: String)
        ensures
            r@ == commit_message(self@),
    {
        match self {
            CommitError::BackupsUnreadable => "Unable to read backups from repo".to_owned(),
            CommitError::LatestUnreadable => "Unable to read latest commit".to_owned(),
            CommitError::NoCommitFile(path) => followed_by("No commit file found for commit: ", path.as_str()),
            CommitError::CommitFileUnreadable(path) => followed_by("Unable to read commit file: ", path.as_str()),
            CommitError::EmptyCommitFile(path) => followed_by("No content in commit file: ", path.as_str()),
            CommitError::BadTimestamp(text) => framed(
                "Unable to parse '",
                text.as_str(),
                "' as a timestamp",
            ),
            CommitError::FolderMissing(path) => framed(
                "Backup folder: '",
                path.as_str(),
                "' doesn't exist",
            ),
            CommitError::WriteCommitFailed => "Unable to write info.commit file".to_owned(),
            CommitError::WriteLatestFailed => "Unable to write latest commit".to_owned(),
        }
    }

    /// The kind of this fault.
    pub fn kind(&self) -> (r: FaultKind)
        ensures
            r == FaultKind::Storage,
    {
        FaultKind::Storage
    }
}

impl SyncError {
    /// What is said of this failure.
    pub fn message(&self) -> (r: String)
        ensures
            r@ == sync_message(self@),
    {
        match self {
            SyncError::NotStarted => "Unable to spawn rsync command".to_owned(),
            SyncError::Failed(Some(code)) => {
                let number = format_i64(*code as i64);
                followed_by("rsync errored out with code: ", number.as_str())
            },
            SyncError::Failed(None) => "rsync was ended by a signal".to_owned(),
            SyncError::CompareFailed(diagnostics) => followed_by("rsync command failed with: ", diagnostics.as_str()),
            SyncError::BadOutput => "Unable to parse rsync output".to_owned(),
        }
    }

    /// The kind of this fault.
    pub fn kind(&self) -> (r: FaultKind)
        ensures
            r == FaultKind::Process,
    {
        FaultKind::Process
    }
}

impl Failure {
    /// What is said of this failure.
    pub fn message(&self) -> (r: String)
        ensures
            r@ == failure_message(self@),
    {
        match self {
            Failure::FolderNotCreated(path) => followed_by("Unable to make new backup folder at location: ", path.as_str()),
            Failure::Repository(e) => e.message(),
            Failure::LatestNotResolved(path) => followed_by("Unable to resolve latest commit folder: ", path.as_str()),
            Failure::NoEmptyDir => "Unable to allocate empty dir!".to_owned(),
            Failure::NoCommits => "No Commits to restore from".to_owned(),
            Failure::CommitNotFound(path) => followed_by("Cannot find commit: ", path.as_str()),
            Failure::Sync(e) => e.message(),
            Failure::UnexpectedEvent => "Unexpected answer to a step".to_owned(),
        }
    }

    /// The kind of this fault.
    pub fn kind(&self) -> (r: FaultKind)
        ensures
            r == failure_kind(self@),
    {
        match self {
            Failure::Sync(_) => FaultKind::Process,
            _ => FaultKind::Storage,
        }
    }
}

} // verus!
