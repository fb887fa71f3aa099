//! What a persisted record looks like when it is read back, and how a
//! record that cannot be read is treated.

use vstd::prelude::*;
use vstd::string::StringExecFns;

verus! {

/// A persisted record as it was found when read.
#[derive(Clone, Debug, PartialEq, Eq)]
pub enum Stored<T> {
    /// No record was ever written: a valid initial state.
    Absent,
    /// A record is there and cannot be parsed; the text says why.
    Corrupt(String),
    /// The parsed record.
    Parsed(T),
}

/// The persisted records whose loss must be visible to the caller.
#[derive(Clone, Copy, Debug, PartialEq, Eq, Structural)]
pub enum RecordKind {
    Settings,
    Session,
    Tasks,
}

/// The documents of the store, one per concern.
#[derive(Clone, Copy, Debug, PartialEq, Eq, Structural)]
pub enum RecordFile {
    Session,
    History,
    Tasks,
    Settings,
    ManualSessions,
    Tags,
    SessionTags,
}

/// The name of the file that holds a document.
pub open spec fn file_name_text(file: RecordFile) -> Seq<char> {
    match file {
        RecordFile::Session => "session.json"@,
        RecordFile::History => "history.json"@,
        RecordFile::Tasks => "tasks.json"@,
        RecordFile::Settings => "settings.json"@,
        RecordFile::ManualSessions => "manual_sessions.json"@,
        RecordFile::Tags => "tags.json"@,
        RecordFile::SessionTags => "session_tags.json"@,
    }
}

impl RecordFile {
    /// The name of the file, inside the data directory of the application.
    pub fn file_name(&self) -> (name: &'static str)
        ensures
            name@ == file_name_text(*self),
    {
        match self {
            RecordFile::Session => "session.json",
            RecordFile::History => "history.json",
            RecordFile::Tasks => "tasks.json",
            RecordFile::Settings => "settings.json",
            RecordFile::ManualSessions => "manual_sessions.json",
            RecordFile::Tags => "tags.json",
            RecordFile::SessionTags => "session_tags.json",
        }
    }
}

/// Every document of the store.
pub open spec fn all_record_files() -> Seq<RecordFile> {
    seq![
        RecordFile::Session,
        RecordFile::Tasks,
        RecordFile::History,
        RecordFile::Settings,
        RecordFile::ManualSessions,
        RecordFile::Tags,
        RecordFile::SessionTags,
    ]
}

/// The documents that a reset of all data deletes: every one of them.
pub fn reset_all_data() -> (files: Vec<RecordFile>)
    ensures
        files@ == all_record_files(),
{
    let mut files: Vec<RecordFile> = Vec::new();
    files.push(RecordFile::Session);
    files.push(RecordFile::Tasks);
    files.push(RecordFile::History);
    files.push(RecordFile::Settings);
    files.push(RecordFile::ManualSessions);
    files.push(RecordFile::Tags);
    files.push(RecordFile::SessionTags);
    assert(files@ =~= all_record_files());
    files
}

/// A persisted record could not be parsed.
#[derive(Debug, PartialEq, Eq)]
pub struct StoreError {
    pub record: RecordKind,
    /// The parser's account of what is wrong.
    pub detail: String,
}

/// The words that open the message of a `StoreError` for `record`.
pub open spec fn failure_prefix(record: RecordKind) -> Seq<char> {
    match record {
        RecordKind::Settings => "Failed to parse settings: "@,
        RecordKind::Session => "Failed to parse session: "@,
        RecordKind::Tasks => "Failed to parse tasks: "@,
    }
}

impl StoreError {
    /// The message shown to the caller: what failed, then the parser's words.
    pub fn message(&self) -> (text: String)
        ensures
            text@ == failure_prefix(self.record) + self.detail@,
    {
        let mut text = match self.record {
            RecordKind::Settings => String::from_str("Failed to parse settings: "),
            RecordKind::Session => String::from_str("Failed to parse session: "),
            RecordKind::Tasks => String::from_str("Failed to parse tasks: "),
        };
        text.append(self.detail.as_str());
        text
    }
}

/// The collection that a reconstructible log holds: the parsed entries, or
/// none when the log is absent or cannot be parsed.
pub open spec fn entries_or_none<T>(stored: Stored<Vec<T>>) -> Seq<T> {
    match stored {
        Stored::Parsed(entries) => entries@,
        _ => Seq::empty(),
    }
}

/// Reads a reconstructible log on a best-effort basis: a log that is absent
/// or cannot be parsed counts as empty.
pub fn collection_or_empty<T>(stored: Stored<Vec<T>>) -> (entries: Vec<T>)
    ensures
        entries@ == entries_or_none(stored),
{
    match stored {
        Stored::Parsed(entries) => entries,
        _ => Vec::new(),
    }
}

/// Reads an authoritative collection: one that is absent is empty, one that
/// cannot be parsed is an error that names `record`.
pub fn collection_or_error<T>(stored: Stored<Vec<T>>, record: RecordKind) -> (loaded: Result<
    Vec<T>,
    StoreError,
>)
    ensures
        match stored {
            Stored::Absent => loaded matches Ok(entries) && entries@ == Seq::<T>::empty(),
            Stored::Corrupt(detail) => loaded matches Err(error) && error.record == record
                && error.detail == detail,
            Stored::Parsed(entries) => loaded == Ok::<Vec<T>, StoreError>(entries),
        },
{
    match stored {
        Stored::Absent => Ok(Vec::new()),
        Stored::Corrupt(detail) => Err(StoreError { record, detail }),
        Stored::Parsed(entries) => Ok(entries),
    }
}

} // verus!
