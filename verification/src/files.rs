//! What passes between the library and the file system: the library reads
//! and writes nothing itself. Its caller reads, and hands over what the
//! read gave; the library says what is to be written, and its caller
//! writes.

use vstd::prelude::*;

verus! {

/// What reading a file as text gave.
#[derive(Debug, Clone, PartialEq, Eq)]
pub enum FileRead {
    /// There is no file at the path.
    Missing,
    /// There is a file, but it could not be read as text.
    Unreadable,
    /// The text of the file.
    Contents(String),
}

/// The mathematical value of a `FileRead`.
pub enum FileReadView {
    Missing,
    Unreadable,
    Contents(Seq<char>),
}

impl View for FileRead {
    type V = FileReadView;

    open spec fn view(&self) -> FileReadView {
        match self {
            FileRead::Missing => FileReadView::Missing,
            FileRead::Unreadable => FileReadView::Unreadable,
            FileRead::Contents(text) => FileReadView::Contents(text@),
        }
    }
}

/// A file to write: all of `contents`, in place of what the file at
/// `path` held.
#[derive(Debug, Clone, PartialEq, Eq)]
pub struct FileWrite {
    pub path: String,
    pub contents: String,
}

/// The mathematical value of a `FileWrite`.
pub struct FileWriteView {
    pub path: Seq<char>,
    pub contents: Seq<char>,
}

impl View for FileWrite {
    type V = FileWriteView;

    open spec fn view(&self) -> FileWriteView {
        FileWriteView { path: self.path@, contents: self.contents@ }
    }
}

} // verus!
