//! The current-day summary and its reconciliation at date rollover.

use crate::store::{RecordKind, StoreError, Stored};
use vstd::prelude::*;

verus! {

/// Aggregate counters of one calendar day.
#[derive(Clone, Debug, PartialEq, Eq)]
pub struct PomodoroSession {
    pub completed_pomodoros: u32,
    /// Total focus time of the day, in seconds.
    pub total_focus_time: u32,
    pub current_session: u32,
    /// Day label, such as `Wed Oct 28 2026`.
    pub date: String,
}

/// What a `PomodoroSession` holds, with the date as a sequence of characters.
pub struct DailySummary {
    pub completed_pomodoros: u32,
    pub total_focus_time: u32,
    pub current_session: u32,
    pub date: Seq<char>,
}

impl View for PomodoroSession {
    type V = DailySummary;

    open spec fn view(&self) -> DailySummary {
        DailySummary {
            completed_pomodoros: self.completed_pomodoros,
            total_focus_time: self.total_focus_time,
            current_session: self.current_session,
            date: self.date@,
        }
    }
}

/// The summary with which a day starts: nothing completed, first session.
pub open spec fn fresh_day(today: Seq<char>) -> DailySummary {
    DailySummary { completed_pomodoros: 0, total_focus_time: 0, current_session: 1, date: today }
}

/// The stored summary as seen on the day `today`: kept when it is of that
/// day, replaced by a fresh day otherwise.
pub open spec fn rolled_over(stored: DailySummary, today: Seq<char>) -> DailySummary {
    if stored.date == today {
        stored
    } else {
        fresh_day(today)
    }
}

/// A loaded current-day summary. `rewritten` tells that the stored record was
/// of another day and was reset, so that the store must be written again.
#[derive(Clone, Debug, PartialEq, Eq)]
pub struct SessionLoad {
    pub session: PomodoroSession,
    pub rewritten: bool,
}

/// Reconciles the stored summary with the day `today`.
///
/// A summary of `today` is returned as it is. One of another day is reset:
/// counters zeroed, current session 1, date `today`, and `rewritten` is set.
pub fn reconcile_session(stored: PomodoroSession, today: &str) -> (load: SessionLoad)
    ensures
        load.session@ == rolled_over(stored@, today@),
        load.rewritten == (stored@.date != today@),
{
    let today_text = today.to_owned();
    if stored.date == today_text {
        SessionLoad { session: stored, rewritten: false }
    } else {
        SessionLoad {
            session: PomodoroSession {
                completed_pomodoros: 0,
                total_focus_time: 0,
                current_session: 1,
                date: today_text,
            },
            rewritten: true,
        }
    }
}

/// Loads the current-day summary from what the store holds, on the day
/// whose label is `today`.
///
/// With no persisted record there is no summary. A record that cannot be
/// parsed is an error. A record that parses is reconciled with `today`: one
/// of that day is returned as it is, one of another day is reset, and
/// `rewritten` then tells the caller to write the reset record back.
pub fn load_session_data(stored: Stored<PomodoroSession>, today: &str) -> (loaded: Result<
    Option<SessionLoad>,
    StoreError,
>)
    ensures
        match stored {
            Stored::Absent => loaded matches Ok(None),
            Stored::Corrupt(detail) => loaded matches Err(error) && error.record
                == RecordKind::Session && error.detail == detail,
            Stored::Parsed(record) => {
                &&& loaded matches Ok(Some(load))
                &&& load.session@ == rolled_over(record@, today@)
                &&& load.rewritten == (record@.date != today@)
            },
        },
{
    match stored {
        Stored::Absent => Ok(None),
        Stored::Corrupt(detail) => Err(StoreError { record: RecordKind::Session, detail }),
        Stored::Parsed(record) => Ok(Some(reconcile_session(record, today))),
    }
}

/// Rolling over settles: a summary that was rolled over to a day is of that
/// day, and rolling it over to the same day again changes nothing, so a
/// second load on that day returns the record as it was written.
pub proof fn lemma_rollover_settles(stored: DailySummary, today: Seq<char>)
    ensures
        rolled_over(stored, today).date == today,
        rolled_over(rolled_over(stored, today), today) == rolled_over(stored, today),
        stored.date != today ==> rolled_over(stored, today) == fresh_day(today),
{
}

} // verus!
