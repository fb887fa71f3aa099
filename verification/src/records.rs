//! User-entered records keyed by an opaque id: manual sessions, tags, and
//! the tags attached to sessions. An update removes the record of the same
//! id and appends the new one.

use crate::store::{collection_or_error, RecordKind, StoreError, Stored};
use crate::text::decimal_string;
use crate::text::decimal_text;
use vstd::prelude::*;
use vstd::string::StringExecFns;

verus! {

/// A JSON value, carried through as it was read.
#[verifier::external_type_specification]
#[verifier::external_body]
pub struct ExJsonValue(serde_json::Value);

/// A session that the user entered by hand.
#[derive(Clone, Debug, PartialEq)]
pub struct ManualSession {
    pub id: String,
    /// One of `focus`, `break`, `longBreak`, `custom`.
    pub session_type: String,
    /// Minutes.
    pub duration: u32,
    /// `HH:MM`.
    pub start_time: String,
    /// `HH:MM`.
    pub end_time: String,
    pub notes: Option<String>,
    pub created_at: String,
    /// Day label of the day of the session.
    pub date: String,
    /// Tag objects, kept as they were given.
    pub tags: Option<Vec<serde_json::Value>>,
}

/// A label that sessions can carry.
#[derive(Clone, Debug, PartialEq, Eq)]
pub struct Tag {
    pub id: String,
    pub name: String,
    /// An emoji or the class name of an icon.
    pub icon: String,
    /// Hexadecimal colour code.
    pub color: String,
    pub created_at: String,
}

/// Time spent on a tag in a session.
#[derive(Clone, Debug, PartialEq, Eq)]
pub struct SessionTag {
    pub session_id: String,
    pub tag_id: String,
    /// Seconds.
    pub duration: u32,
    pub created_at: String,
}

/// An entry of the task list.
#[derive(Clone, Debug, PartialEq, Eq)]
pub struct Task {
    pub id: u64,
    pub text: String,
    pub completed: bool,
    pub created_at: String,
    pub completed_at: Option<String>,
}

/// A record with an id.
pub trait Identified {
    /// The id of the record.
    spec fn id_text(&self) -> Seq<char>;

    /// Whether the record has the id `id`.
    fn has_id(&self, id: &String) -> (same: bool)
        ensures
            same == (self.id_text() == id@),
    ;
}

impl Identified for ManualSession {
    open spec fn id_text(&self) -> Seq<char> {
        self.id@
    }

    fn has_id(&self, id: &String) -> (same: bool) {
        self.id == *id
    }
}

impl Identified for Tag {
    open spec fn id_text(&self) -> Seq<char> {
        self.id@
    }

    fn has_id(&self, id: &String) -> (same: bool) {
        self.id == *id
    }
}

/// The predicate that holds of the records whose id is not `id`.
pub open spec fn other_id<T: Identified>(id: Seq<char>) -> spec_fn(T) -> bool {
    |record: T| record.id_text() != id
}

/// The predicate that holds of the manual sessions of the day `date`.
pub open spec fn of_day(date: Seq<char>) -> spec_fn(ManualSession) -> bool {
    |session: ManualSession| session.date@ == date
}

/// The records of `records` whose id is not `id`, in their order.
pub fn without_id<T: Identified>(records: Vec<T>, id: &String) -> (kept: Vec<T>)
    ensures
        kept@ == records@.filter(other_id::<T>(id@)),
{
    let ghost all = records@;
    let mut kept: Vec<T> = Vec::new();
    proof {
        assert(all.take(0).filter(other_id::<T>(id@)) =~= Seq::<T>::empty()) by {
            reveal(Seq::filter);
        }
    }
    for record in rest: records
        invariant
            rest.seq() == all,
            kept@ == all.take(rest.index() as int).filter(other_id::<T>(id@)),
    {
        proof {
            let seen = all.take(rest.index() as int);
            assert(all.take(rest.index() + 1) =~= seen.push(record));
            seen.lemma_filter_push(record, other_id::<T>(id@));
        }
        if !record.has_id(id) {
            kept.push(record);
        }
    }
    assert(all.take(all.len() as int) =~= all);
    kept
}

/// Saves a record into a collection keyed by id: a record of the same id
/// gives way, and `record` is appended.
fn upsert<T: Identified>(records: Vec<T>, record: T, id: &String) -> (updated: Vec<T>)
    requires
        record.id_text() == id@,
    ensures
        updated@ == records@.filter(other_id::<T>(record.id_text())).push(record),
{
    let mut updated = without_id(records, id);
    updated.push(record);
    updated
}

/// Saves a manual session: the session of the same id, if any, gives way,
/// and `session` is appended.
pub fn save_manual_session(sessions: Vec<ManualSession>, session: ManualSession) -> (updated: Vec<
    ManualSession,
>)
    ensures
        updated@ == sessions@.filter(other_id::<ManualSession>(session.id@)).push(session),
{
    let id = session.id.clone();
    upsert(sessions, session, &id)
}

/// Deletes the manual sessions of id `session_id`.
pub fn delete_manual_session(sessions: Vec<ManualSession>, session_id: &str) -> (updated: Vec<
    ManualSession,
>)
    ensures
        updated@ == sessions@.filter(other_id::<ManualSession>(session_id@)),
{
    let id = session_id.to_owned();
    without_id(sessions, &id)
}

/// The manual sessions of the day `date`, in their order.
pub fn get_manual_sessions_for_date(sessions: Vec<ManualSession>, date: &str) -> (found: Vec<
    ManualSession,
>)
    ensures
        found@ == sessions@.filter(of_day(date@)),
{
    let ghost all = sessions@;
    let day = date.to_owned();
    let mut found: Vec<ManualSession> = Vec::new();
    proof {
        assert(all.take(0).filter(of_day(date@)) =~= Seq::<ManualSession>::empty()) by {
            reveal(Seq::filter);
        }
    }
    for session in rest: sessions
        invariant
            rest.seq() == all,
            day@ == date@,
            found@ == all.take(rest.index() as int).filter(of_day(date@)),
    {
        proof {
            let seen = all.take(rest.index() as int);
            assert(all.take(rest.index() + 1) =~= seen.push(session));
            seen.lemma_filter_push(session, of_day(date@));
        }
        if session.date == day {
            found.push(session);
        }
    }
    assert(all.take(all.len() as int) =~= all);
    found
}

/// Saves a tag: the tag of the same id, if any, gives way, and `tag` is
/// appended.
pub fn save_tag(tags: Vec<Tag>, tag: Tag) -> (updated: Vec<Tag>)
    ensures
        updated@ == tags@.filter(other_id::<Tag>(tag.id@)).push(tag),
{
    let id = tag.id.clone();
    upsert(tags, tag, &id)
}

/// Deletes the tags of id `tag_id`.
pub fn delete_tag(tags: Vec<Tag>, tag_id: &str) -> (updated: Vec<Tag>)
    ensures
        updated@ == tags@.filter(other_id::<Tag>(tag_id@)),
{
    let id = tag_id.to_owned();
    without_id(tags, &id)
}

/// Attaches a tag to a session: appends `session_tag`.
pub fn add_session_tag(session_tags: Vec<SessionTag>, session_tag: SessionTag) -> (updated: Vec<
    SessionTag,
>)
    ensures
        updated@ == session_tags@.push(session_tag),
{
    let mut updated = session_tags;
    updated.push(session_tag);
    updated
}

/// Loads the task list from what the store holds: no list is an empty list,
/// and a list that cannot be parsed is an error.
pub fn load_tasks(stored: Stored<Vec<Task>>) -> (loaded: Result<Vec<Task>, StoreError>)
    ensures
        match stored {
            Stored::Absent => loaded matches Ok(tasks) && tasks@ == Seq::<Task>::empty(),
            Stored::Corrupt(detail) => loaded matches Err(error) && error.record
                == RecordKind::Tasks && error.detail == detail,
            Stored::Parsed(tasks) => loaded == Ok::<Vec<Task>, StoreError>(tasks),
        },
{
    collection_or_error(stored, RecordKind::Tasks)
}

/// Whether `tag` is the tag that a fresh installation starts with, made at
/// `created_seconds` seconds after the Unix epoch.
pub open spec fn is_default_tag(tag: Tag, created_seconds: u64) -> bool {
    &&& tag.id@ == "default-focus"@
    &&& tag.name@ == "Focus"@
    &&& tag.icon@ == "ri-brain-line"@
    &&& tag.color@ == "#4CAF50"@
    &&& tag.created_at@ == decimal_text(created_seconds as nat)
}

/// Loads the tags from what the store holds.
///
/// With no persisted tags, the one default tag is returned, made at
/// `now_seconds` seconds after the Unix epoch. Persisted tags that cannot be
/// parsed count as none.
pub fn load_tags(stored: Stored<Vec<Tag>>, now_seconds: u64) -> (tags: Vec<Tag>)
    ensures
        match stored {
            Stored::Absent => tags.len() == 1 && is_default_tag(tags[0], now_seconds),
            Stored::Corrupt(_) => tags.len() == 0,
            Stored::Parsed(persisted) => tags == persisted,
        },
{
    match stored {
        Stored::Absent => {
            let mut tags: Vec<Tag> = Vec::new();
            tags.push(
                Tag {
                    id: String::from_str("default-focus"),
                    name: String::from_str("Focus"),
                    icon: String::from_str("ri-brain-line"),
                    color: String::from_str("#4CAF50"),
                    created_at: decimal_string(now_seconds),
                },
            );
            tags
        },
        Stored::Corrupt(_) => Vec::new(),
        Stored::Parsed(persisted) => persisted,
    }
}

} // verus!
