//! Session history: a bounded log of daily summaries, one per date, in the
//! order of their date labels.

use crate::session::{DailySummary, PomodoroSession};
use crate::store::{collection_or_empty, entries_or_none, Stored};
use crate::text::{
    lemma_text_le_antisymmetric, lemma_text_le_reflexive, lemma_text_le_total,
    lemma_text_le_transitive, text_le, text_le_exec,
};
use vstd::prelude::*;

verus! {

/// Greatest number of daily summaries that the history keeps.
pub const HISTORY_LIMIT: usize = 30;

/// The summaries that a history holds, each by its view.
pub open spec fn history_view(history: Seq<PomodoroSession>) -> Seq<DailySummary> {
    history.map_values(|entry: PomodoroSession| entry@)
}

/// The entries of `history` whose date is not `date`, in their order.
pub open spec fn without_date(history: Seq<DailySummary>, date: Seq<char>) -> Seq<DailySummary> {
    history.filter(has_other_date(date))
}

/// The predicate that holds of the entries whose date is not `date`.
pub open spec fn has_other_date(date: Seq<char>) -> spec_fn(DailySummary) -> bool {
    |entry: DailySummary| entry.date != date
}

/// The predicate that holds of the entries of date `date`.
pub open spec fn has_date(date: Seq<char>) -> spec_fn(DailySummary) -> bool {
    |entry: DailySummary| entry.date == date
}

/// The predicate that holds of the entries whose date comes after `date`.
pub open spec fn comes_after(date: Seq<char>) -> spec_fn(DailySummary) -> bool {
    |entry: DailySummary| !text_le(entry.date, date)
}

/// Whether the dates of `history` ascend, equal dates allowed.
pub open spec fn sorted_by_date(history: Seq<DailySummary>) -> bool {
    forall|i: int, j: int|
        0 <= i <= j < history.len() ==> text_le(
            (#[trigger] history[i]).date,
            (#[trigger] history[j]).date,
        )
}

/// `sorted` with `entry` placed before the first element whose date is not
/// before the date of `entry`, or at the end if there is none.
pub open spec fn placed(sorted: Seq<DailySummary>, entry: DailySummary) -> Seq<DailySummary>
    decreases sorted.len(),
{
    if sorted.len() == 0 || text_le(entry.date, sorted[0].date) {
        seq![entry] + sorted
    } else {
        seq![sorted[0]] + placed(sorted.drop_first(), entry)
    }
}

/// `history` in ascending order of date, entries of one date in the order
/// in which `history` has them.
pub open spec fn sort_by_date(history: Seq<DailySummary>) -> Seq<DailySummary>
    decreases history.len(),
{
    if history.len() == 0 {
        history
    } else {
        placed(sort_by_date(history.drop_first()), history[0])
    }
}

/// The last `limit` entries of `history`, or all of it if it has fewer.
pub open spec fn keep_last(history: Seq<DailySummary>, limit: nat) -> Seq<DailySummary> {
    if history.len() > limit {
        history.skip(history.len() - limit)
    } else {
        history
    }
}

/// The history after `session` was recorded: the entry of the same date, if
/// any, gives way to `session`, the entries are put in order of date, and
/// only the last `HISTORY_LIMIT` of them stay.
pub open spec fn recorded(history: Seq<DailySummary>, session: DailySummary) -> Seq<
    DailySummary,
> {
    keep_last(
        sort_by_date(without_date(history, session.date).push(session)),
        HISTORY_LIMIT as nat,
    )
}

proof fn lemma_placed_at(sorted: Seq<DailySummary>, entry: DailySummary, at: int)
    requires
        0 <= at <= sorted.len(),
        forall|i: int| 0 <= i < at ==> !text_le(entry.date, (#[trigger] sorted[i]).date),
        at < sorted.len() ==> text_le(entry.date, sorted[at].date),
    ensures
        placed(sorted, entry) == sorted.insert(at, entry),
    decreases at,
{
    if at == 0 {
        assert(seq![entry] + sorted =~= sorted.insert(0, entry));
    } else {
        let rest = sorted.drop_first();
        assert forall|i: int| 0 <= i < at - 1 implies !text_le(
            entry.date,
            (#[trigger] rest[i]).date,
        ) by {
            assert(rest[i] == sorted[i + 1]);
        }
        lemma_placed_at(rest, entry, at - 1);
        assert(seq![sorted[0]] + rest.insert(at - 1, entry) =~= sorted.insert(at, entry));
    }
}

fn place(sorted: &mut Vec<PomodoroSession>, entry: PomodoroSession)
    ensures
        history_view(final(sorted)@) == placed(history_view(old(sorted)@), entry@),
{
    let ghost before = history_view(sorted@);
    let mut at: usize = 0;
    while at < sorted.len() && !text_le_exec(entry.date.as_str(), sorted[at].date.as_str())
        invariant
            at <= sorted.len(),
            *sorted == *old(sorted),
            before == history_view(sorted@),
            forall|i: int| 0 <= i < at ==> !text_le(entry@.date, (#[trigger] before[i]).date),
        decreases sorted.len() - at,
    {
        at += 1;
    }
    proof {
        lemma_placed_at(before, entry@, at as int);
    }
    sorted.insert(at, entry);
    assert(history_view(sorted@) =~= before.insert(at as int, entry@));
}

/// Records the summary of a day in the history.
///
/// Any entry of the same date gives way to `session`. The entries are then
/// put in ascending order of their date labels, and only the last
/// `HISTORY_LIMIT` of them are kept: the first ones are dropped. A history
/// that had one entry per date has so afterwards.
pub fn record_daily(history: Vec<PomodoroSession>, session: PomodoroSession) -> (updated: Vec<
    PomodoroSession,
>)
    ensures
        history_view(updated@) == recorded(history_view(history@), session@),
        updated.len() <= HISTORY_LIMIT,
        sorted_by_date(history_view(updated@)),
        one_entry_per_date(history_view(history@)) ==> strictly_sorted_by_date(
            history_view(updated@),
        ),
{
    proof {
        lemma_recorded_is_bounded_and_sorted(history_view(history@), session@);
        if one_entry_per_date(history_view(history@)) {
            lemma_recorded_keeps_one_entry_per_date(history_view(history@), session@);
        }
    }
    let ghost all = history_view(history@);
    let ghost date = session@.date;
    let mut pending = history;
    let mut sorted: Vec<PomodoroSession> = Vec::new();
    let day = session.date.clone();
    sorted.push(session);
    proof {
        assert(all.skip(all.len() as int) =~= Seq::<DailySummary>::empty());
        assert(without_date(Seq::<DailySummary>::empty(), date).push(session@) =~= seq![
            session@,
        ]);
        assert(seq![session@].drop_first() =~= Seq::<DailySummary>::empty());
        assert(sort_by_date(Seq::<DailySummary>::empty()) =~= Seq::<DailySummary>::empty());
        assert(placed(Seq::<DailySummary>::empty(), session@) =~= seq![session@]);
        assert(sort_by_date(seq![session@]) =~= seq![session@]);
        assert(history_view(sorted@) =~= seq![session@]);
    }
    while pending.len() > 0
        invariant
            pending.len() <= all.len(),
            history_view(pending@) == all.take(pending.len() as int),
            day@ == date,
            history_view(sorted@) == sort_by_date(
                without_date(all.skip(pending.len() as int), date).push(session@),
            ),
        decreases pending.len(),
    {
        let ghost left = pending.len() as int;
        let ghost tail = all.skip(left);
        let ghost earlier = pending@;
        let entry = pending.pop().unwrap();
        proof {
            assert(history_view(earlier)[left - 1] == all.take(left)[left - 1]);
            assert(entry@ == all[left - 1]);
            assert(history_view(pending@) =~= all.take(left - 1));
            assert(all.skip(left - 1) =~= seq![entry@] + tail);
            tail.lemma_filter_prepend(entry@, has_other_date(date));
        }
        if !(entry.date == day) {
            proof {
                let kept = without_date(tail, date).push(session@);
                assert(without_date(all.skip(left - 1), date).push(session@) =~= seq![entry@]
                    + kept);
                assert((seq![entry@] + kept).drop_first() =~= kept);
            }
            place(&mut sorted, entry);
        } else {
            assert(without_date(all.skip(left - 1), date) =~= without_date(tail, date));
        }
    }
    assert(all.skip(0) =~= all);
    let ghost ordered = history_view(sorted@);
    if sorted.len() > HISTORY_LIMIT {
        let cut = sorted.len() - HISTORY_LIMIT;
        let kept = sorted.split_off(cut);
        assert(history_view(kept@) =~= ordered.skip(cut as int));
        kept
    } else {
        sorted
    }
}

/// Records the summary of a day in the persisted history.
///
/// The history is a best-effort log: one that is absent or cannot be parsed
/// counts as empty. The result is what `record_daily` gives on it.
pub fn save_daily_stats(stored: Stored<Vec<PomodoroSession>>, session: PomodoroSession) -> (updated:
    Vec<PomodoroSession>)
    ensures
        history_view(updated@) == recorded(history_view(entries_or_none(stored)), session@),
        updated.len() <= HISTORY_LIMIT,
        sorted_by_date(history_view(updated@)),
        one_entry_per_date(history_view(entries_or_none(stored))) ==> strictly_sorted_by_date(
            history_view(updated@),
        ),
{
    record_daily(collection_or_empty(stored), session)
}

/// The index at which `placed` puts `entry` into `sorted`.
pub open spec fn place_of(sorted: Seq<DailySummary>, entry: DailySummary) -> int
    decreases sorted.len(),
{
    if sorted.len() == 0 || text_le(entry.date, sorted[0].date) {
        0
    } else {
        1 + place_of(sorted.drop_first(), entry)
    }
}

proof fn lemma_place_of(sorted: Seq<DailySummary>, entry: DailySummary)
    ensures
        0 <= place_of(sorted, entry) <= sorted.len(),
        forall|i: int|
            0 <= i < place_of(sorted, entry) ==> !text_le(entry.date, (#[trigger] sorted[i]).date),
        place_of(sorted, entry) < sorted.len() ==> text_le(
            entry.date,
            sorted[place_of(sorted, entry)].date,
        ),
        placed(sorted, entry) == sorted.insert(place_of(sorted, entry), entry),
    decreases sorted.len(),
{
    if !(sorted.len() == 0 || text_le(entry.date, sorted[0].date)) {
        let rest = sorted.drop_first();
        lemma_place_of(rest, entry);
        assert forall|i: int| 0 <= i < place_of(sorted, entry) implies !text_le(
            entry.date,
            (#[trigger] sorted[i]).date,
        ) by {
            if i > 0 {
                assert(sorted[i] == rest[i - 1]);
            }
        }
        if place_of(sorted, entry) < sorted.len() {
            assert(sorted[place_of(sorted, entry)] == rest[place_of(rest, entry)]);
        }
    }
    lemma_placed_at(sorted, entry, place_of(sorted, entry));
}

/// Placing an entry into a history in order of date leaves it in order.
pub proof fn lemma_placed_is_sorted(sorted: Seq<DailySummary>, entry: DailySummary)
    requires
        sorted_by_date(sorted),
    ensures
        sorted_by_date(placed(sorted, entry)),
        placed(sorted, entry).len() == sorted.len() + 1,
{
    let at = place_of(sorted, entry);
    let grown = sorted.insert(at, entry);
    lemma_place_of(sorted, entry);
    sorted.insert_ensures(at, entry);
    assert forall|i: int, j: int| 0 <= i <= j < grown.len() implies text_le(
        (#[trigger] grown[i]).date,
        (#[trigger] grown[j]).date,
    ) by {
        let a = if i < at {
            sorted[i]
        } else if i == at {
            entry
        } else {
            sorted[i - 1]
        };
        let b = if j < at {
            sorted[j]
        } else if j == at {
            entry
        } else {
            sorted[j - 1]
        };
        assert(grown[i] == a);
        assert(grown[j] == b);
        if i == j {
            lemma_text_le_reflexive(a.date);
        } else if j < at {
        } else if j == at {
            lemma_text_le_total(entry.date, sorted[i].date);
        } else if i < at {
        } else if i == at {
            lemma_text_le_transitive(entry.date, sorted[at].date, sorted[j - 1].date);
        } else {
        }
    }
}

/// `sort_by_date` gives a history in order of date, of the same length.
pub proof fn lemma_sort_is_sorted(history: Seq<DailySummary>)
    ensures
        sorted_by_date(sort_by_date(history)),
        sort_by_date(history).len() == history.len(),
    decreases history.len(),
{
    if history.len() > 0 {
        lemma_sort_is_sorted(history.drop_first());
        lemma_placed_is_sorted(sort_by_date(history.drop_first()), history[0]);
    }
}

/// After any recording the history holds at most `HISTORY_LIMIT` entries,
/// in ascending order of date.
pub proof fn lemma_recorded_is_bounded_and_sorted(
    history: Seq<DailySummary>,
    session: DailySummary,
)
    ensures
        recorded(history, session).len() <= HISTORY_LIMIT,
        sorted_by_date(recorded(history, session)),
{
    let merged = without_date(history, session.date).push(session);
    lemma_sort_is_sorted(merged);
}

proof fn lemma_placed_filter_len(
    sorted: Seq<DailySummary>,
    entry: DailySummary,
    pred: spec_fn(DailySummary) -> bool,
)
    ensures
        placed(sorted, entry).filter(pred).len() == sorted.filter(pred).len() + (if pred(entry) {
            1nat
        } else {
            0nat
        }),
    decreases sorted.len(),
{
    if sorted.len() == 0 || text_le(entry.date, sorted[0].date) {
        sorted.lemma_filter_prepend(entry, pred);
    } else {
        let rest = sorted.drop_first();
        lemma_placed_filter_len(rest, entry, pred);
        placed(rest, entry).lemma_filter_prepend(sorted[0], pred);
        rest.lemma_filter_prepend(sorted[0], pred);
        assert(sorted =~= seq![sorted[0]] + rest);
    }
}

proof fn lemma_sort_filter_len(history: Seq<DailySummary>, pred: spec_fn(DailySummary) -> bool)
    ensures
        sort_by_date(history).filter(pred).len() == history.filter(pred).len(),
    decreases history.len(),
{
    if history.len() > 0 {
        let rest = history.drop_first();
        lemma_sort_filter_len(rest, pred);
        lemma_placed_filter_len(sort_by_date(rest), history[0], pred);
        rest.lemma_filter_prepend(history[0], pred);
        assert(history =~= seq![history[0]] + rest);
    }
}

proof fn lemma_placed_of_date(sorted: Seq<DailySummary>, entry: DailySummary, date: Seq<char>)
    ensures
        placed(sorted, entry).filter(has_date(date)) == (if entry.date == date {
            seq![entry]
        } else {
            Seq::empty()
        }) + sorted.filter(has_date(date)),
    decreases sorted.len(),
{
    let pred = has_date(date);
    if sorted.len() == 0 || text_le(entry.date, sorted[0].date) {
        sorted.lemma_filter_prepend(entry, pred);
    } else {
        let rest = sorted.drop_first();
        lemma_placed_of_date(rest, entry, date);
        placed(rest, entry).lemma_filter_prepend(sorted[0], pred);
        rest.lemma_filter_prepend(sorted[0], pred);
        assert(sorted =~= seq![sorted[0]] + rest);
        if entry.date == date && sorted[0].date == date {
            lemma_text_le_reflexive(date);
        }
        let head = if pred(sorted[0]) {
            seq![sorted[0]]
        } else {
            Seq::empty()
        };
        let mine = if entry.date == date {
            seq![entry]
        } else {
            Seq::empty()
        };
        assert(head + (mine + rest.filter(pred)) =~= mine + (head + rest.filter(pred)));
    }
}

/// Sorting keeps, for every date, the entries of that date in their order.
pub proof fn lemma_sort_keeps_each_date(history: Seq<DailySummary>, date: Seq<char>)
    ensures
        sort_by_date(history).filter(has_date(date)) == history.filter(has_date(date)),
    decreases history.len(),
{
    if history.len() > 0 {
        let rest = history.drop_first();
        lemma_sort_keeps_each_date(rest, date);
        lemma_placed_of_date(sort_by_date(rest), history[0], date);
        rest.lemma_filter_prepend(history[0], has_date(date));
        assert(history =~= seq![history[0]] + rest);
    }
}

proof fn lemma_filter_none(history: Seq<DailySummary>, pred: spec_fn(DailySummary) -> bool)
    requires
        forall|i: int| 0 <= i < history.len() ==> !pred(#[trigger] history[i]),
    ensures
        history.filter(pred).len() == 0,
    decreases history.len(),
{
    if history.len() > 0 {
        let front = history.drop_last();
        assert forall|i: int| 0 <= i < front.len() implies !pred(#[trigger] front[i]) by {
            assert(front[i] == history[i]);
        }
        lemma_filter_none(front, pred);
        front.lemma_filter_push(history.last(), pred);
        assert(history =~= front.push(history.last()));
    } else {
        reveal(Seq::filter);
    }
}

proof fn lemma_filter_every(history: Seq<DailySummary>, pred: spec_fn(DailySummary) -> bool)
    requires
        forall|i: int| 0 <= i < history.len() ==> pred(#[trigger] history[i]),
    ensures
        history.filter(pred).len() == history.len(),
    decreases history.len(),
{
    if history.len() > 0 {
        let front = history.drop_last();
        assert forall|i: int| 0 <= i < front.len() implies pred(#[trigger] front[i]) by {
            assert(front[i] == history[i]);
        }
        lemma_filter_every(front, pred);
        front.lemma_filter_push(history.last(), pred);
        assert(history =~= front.push(history.last()));
    } else {
        reveal(Seq::filter);
    }
}

proof fn lemma_filter_of_filter_len(
    history: Seq<DailySummary>,
    kept: spec_fn(DailySummary) -> bool,
    pred: spec_fn(DailySummary) -> bool,
)
    ensures
        history.filter(kept).filter(pred).len() <= history.filter(pred).len(),
    decreases history.len(),
{
    if history.len() > 0 {
        let front = history.drop_last();
        lemma_filter_of_filter_len(front, kept, pred);
        front.lemma_filter_push(history.last(), kept);
        front.lemma_filter_push(history.last(), pred);
        front.filter(kept).lemma_filter_push(history.last(), pred);
        assert(history =~= front.push(history.last()));
    } else {
        reveal(Seq::filter);
    }
}

proof fn lemma_split_filter(history: Seq<DailySummary>, at: int, pred: spec_fn(DailySummary) -> bool)
    requires
        0 <= at <= history.len(),
    ensures
        history.filter(pred) == history.take(at).filter(pred) + history.skip(at).filter(pred),
{
    assert(history =~= history.take(at) + history.skip(at));
    Seq::filter_distributes_over_add(history.take(at), history.skip(at), pred);
}

proof fn lemma_single_date_is_late(sorted: Seq<DailySummary>, date: Seq<char>, at: int)
    requires
        sorted_by_date(sorted),
        sorted.filter(has_date(date)).len() == 1,
        0 <= at < sorted.len(),
        sorted[at].date == date,
    ensures
        sorted.len() - at - 1 <= sorted.filter(comes_after(date)).len(),
{
    let front = sorted.take(at + 1);
    let back = sorted.skip(at + 1);
    lemma_split_filter(sorted, at + 1, has_date(date));
    lemma_split_filter(sorted, at + 1, comes_after(date));
    assert(front =~= sorted.take(at).push(sorted[at]));
    sorted.take(at).lemma_filter_push(sorted[at], has_date(date));
    assert(back.filter(has_date(date)).len() == 0);
    assert forall|i: int| 0 <= i < back.len() implies comes_after(date)(#[trigger] back[i]) by {
        assert(back[i] == sorted[at + 1 + i]);
        assert(text_le(sorted[at].date, sorted[at + 1 + i].date));
        if back[i].date == date {
            back.lemma_filter_contains(has_date(date), i);
        }
        if text_le(back[i].date, date) {
            lemma_text_le_antisymmetric(back[i].date, date);
        }
    }
    lemma_filter_every(back, comes_after(date));
}

/// Recording a summary leaves at most one entry of its date, and such an
/// entry is the recorded summary. The entry is there whenever fewer than
/// `HISTORY_LIMIT` entries of the history have a later date. Recording adds
/// no entry of a later date.
pub proof fn lemma_recorded_once_per_date(history: Seq<DailySummary>, session: DailySummary)
    ensures
        recorded(history, session).filter(has_date(session.date)) == seq![session] || recorded(
            history,
            session,
        ).filter(has_date(session.date)) == Seq::<DailySummary>::empty(),
        history.filter(comes_after(session.date)).len() < HISTORY_LIMIT ==> recorded(
            history,
            session,
        ).filter(has_date(session.date)) == seq![session],
        recorded(history, session).filter(comes_after(session.date)).len() <= history.filter(
            comes_after(session.date),
        ).len(),
{
    let date = session.date;
    let others = without_date(history, date);
    let merged = others.push(session);
    let sorted = sort_by_date(merged);
    let result = recorded(history, session);
    let cut = if sorted.len() > HISTORY_LIMIT {
        sorted.len() - HISTORY_LIMIT
    } else {
        0
    };
    assert(result =~= sorted.skip(cut));

    // Exactly one entry of the date before the cut.
    assert forall|i: int| 0 <= i < others.len() implies !has_date(date)(#[trigger] others[i]) by {
        history.lemma_filter_pred(has_other_date(date), i);
    }
    lemma_filter_none(others, has_date(date));
    others.lemma_filter_push(session, has_date(date));
    assert(merged.filter(has_date(date)) =~= seq![session]);
    lemma_sort_keeps_each_date(merged, date);
    lemma_sort_is_sorted(merged);
    lemma_split_filter(sorted, cut, has_date(date));
    let dropped = sorted.take(cut).filter(has_date(date));
    let stays = result.filter(has_date(date));
    assert(dropped.len() + stays.len() == 1);
    if stays.len() == 1 {
        assert(stays =~= seq![session]);
    } else {
        assert(stays =~= Seq::<DailySummary>::empty());
    }

    // No more later entries than the history had.
    lemma_text_le_reflexive(date);
    lemma_filter_of_filter_len(history, has_other_date(date), comes_after(date));
    others.lemma_filter_push(session, comes_after(date));
    lemma_sort_filter_len(merged, comes_after(date));
    lemma_split_filter(sorted, cut, comes_after(date));

    // The entry stays unless later entries crowd it out.
    if history.filter(comes_after(date)).len() < HISTORY_LIMIT && stays.len() == 0 {
        assert(dropped =~= seq![session]);
        assert(dropped[0] == session);
        sorted.take(cut).lemma_filter_contains_rev(has_date(date), session);
        let at = choose|at: int| 0 <= at < sorted.take(cut).len() && sorted.take(cut)[at] == session;
        assert(sorted[at] == session);
        lemma_single_date_is_late(sorted, date, at);
    }
}

/// Last write wins for each day: after two summaries of one date were
/// recorded one after the other, the history holds exactly one entry of that
/// date, and it is the second summary. Holds whenever fewer than
/// `HISTORY_LIMIT` entries of the history have a later date, which would
/// crowd the day out of the bounded log.
pub proof fn lemma_same_date_last_write_wins(
    history: Seq<DailySummary>,
    first: DailySummary,
    second: DailySummary,
)
    requires
        first.date == second.date,
        history.filter(comes_after(second.date)).len() < HISTORY_LIMIT,
    ensures
        recorded(recorded(history, first), second).filter(has_date(second.date)) == seq![second],
{
    lemma_recorded_once_per_date(history, first);
    lemma_recorded_once_per_date(recorded(history, first), second);
}

/// Whether no two entries of `history` share a date.
pub open spec fn one_entry_per_date(history: Seq<DailySummary>) -> bool {
    forall|i: int, j: int|
        0 <= i < j < history.len() ==> (#[trigger] history[i]).date != (#[trigger] history[j]).date
}

/// Whether the dates of `history` ascend strictly: in order, and no date
/// twice.
pub open spec fn strictly_sorted_by_date(history: Seq<DailySummary>) -> bool {
    sorted_by_date(history) && one_entry_per_date(history)
}

proof fn lemma_without_date_has_none(history: Seq<DailySummary>, date: Seq<char>)
    ensures
        without_date(history, date).filter(has_date(date)).len() == 0,
{
    let others = without_date(history, date);
    assert forall|i: int| 0 <= i < others.len() implies !has_date(date)(#[trigger] others[i]) by {
        history.lemma_filter_pred(has_other_date(date), i);
    }
    lemma_filter_none(others, has_date(date));
}

proof fn lemma_merged_has_one(history: Seq<DailySummary>, session: DailySummary)
    ensures
        sort_by_date(without_date(history, session.date).push(session)).filter(
            has_date(session.date),
        ) == seq![session],
{
    let others = without_date(history, session.date);
    lemma_without_date_has_none(history, session.date);
    others.lemma_filter_push(session, has_date(session.date));
    assert(others.push(session).filter(has_date(session.date)) =~= seq![session]);
    lemma_sort_keeps_each_date(others.push(session), session.date);
}

proof fn lemma_one_per_date_filter_len(history: Seq<DailySummary>, date: Seq<char>)
    requires
        one_entry_per_date(history),
    ensures
        history.filter(has_date(date)).len() <= 1,
    decreases history.len(),
{
    if history.len() > 0 {
        let front = history.drop_last();
        assert(history =~= front.push(history.last()));
        front.lemma_filter_push(history.last(), has_date(date));
        assert forall|i: int, j: int| 0 <= i < j < front.len() implies (#[trigger] front[i]).date
            != (#[trigger] front[j]).date by {
            assert(front[i] == history[i] && front[j] == history[j]);
        }
        if history.last().date == date {
            assert forall|i: int| 0 <= i < front.len() implies !has_date(date)(
                #[trigger] front[i],
            ) by {
                assert(front[i] == history[i]);
                assert(history[i].date != history[history.len() - 1].date);
            }
            lemma_filter_none(front, has_date(date));
        } else {
            lemma_one_per_date_filter_len(front, date);
        }
    } else {
        history.lemma_filter_len(has_date(date));
    }
}

proof fn lemma_two_of_a_date(history: Seq<DailySummary>, i: int, j: int)
    requires
        0 <= i < j < history.len(),
        history[i].date == history[j].date,
    ensures
        history.filter(has_date(history[i].date)).len() >= 2,
{
    let pred = has_date(history[i].date);
    let front = history.take(i + 1);
    let back = history.skip(i + 1);
    lemma_split_filter(history, i + 1, pred);
    assert(front =~= history.take(i).push(history[i]));
    history.take(i).lemma_filter_push(history[i], pred);
    assert(back[j - i - 1] == history[j]);
    back.lemma_filter_contains(pred, j - i - 1);
}

/// A history with one entry per date stays so when a summary is recorded:
/// the dates of the result ascend strictly.
pub proof fn lemma_recorded_keeps_one_entry_per_date(
    history: Seq<DailySummary>,
    session: DailySummary,
)
    requires
        one_entry_per_date(history),
    ensures
        strictly_sorted_by_date(recorded(history, session)),
{
    let date = session.date;
    let others = without_date(history, date);
    let merged = others.push(session);
    let sorted = sort_by_date(merged);
    let result = recorded(history, session);
    let cut = if sorted.len() > HISTORY_LIMIT {
        sorted.len() - HISTORY_LIMIT
    } else {
        0
    };
    assert(result =~= sorted.skip(cut));
    lemma_recorded_is_bounded_and_sorted(history, session);
    assert forall|i: int, j: int| 0 <= i < j < result.len() implies (#[trigger] result[i]).date
        != (#[trigger] result[j]).date by {
        if result[i].date == result[j].date {
            let shared = result[i].date;
            lemma_two_of_a_date(result, i, j);
            lemma_split_filter(sorted, cut, has_date(shared));
            lemma_sort_filter_len(merged, has_date(shared));
            others.lemma_filter_push(session, has_date(shared));
            if shared == date {
                lemma_without_date_has_none(history, date);
            } else {
                lemma_filter_of_filter_len(history, has_other_date(date), has_date(shared));
                lemma_one_per_date_filter_len(history, shared);
            }
        }
    }
}

proof fn lemma_sorted_is_unique(a: Seq<DailySummary>, b: Seq<DailySummary>)
    requires
        sorted_by_date(a),
        sorted_by_date(b),
        forall|date: Seq<char>|
            #![trigger has_date(date)]
            a.filter(has_date(date)) == b.filter(has_date(date)),
    ensures
        a == b,
    decreases a.len(),
{
    if a.len() == 0 {
        if b.len() > 0 {
            b.lemma_filter_contains(has_date(b[0].date), 0);
            a.lemma_filter_len(has_date(b[0].date));
        }
        assert(a =~= b);
    } else {
        let first = a[0].date;
        a.lemma_filter_contains(has_date(first), 0);
        assert(b.filter(has_date(first)).contains(a[0]));
        b.lemma_filter_contains_rev(has_date(first), a[0]);
        let in_b = choose|j: int| 0 <= j < b.len() && b[j] == a[0];
        let other = b[0].date;
        b.lemma_filter_contains(has_date(other), 0);
        assert(a.filter(has_date(other)).contains(b[0]));
        a.lemma_filter_contains_rev(has_date(other), b[0]);
        let in_a = choose|i: int| 0 <= i < a.len() && a[i] == b[0];
        assert(text_le(a[0].date, a[in_a].date));
        assert(text_le(b[0].date, b[in_b].date));
        lemma_text_le_antisymmetric(first, other);
        let rest_a = a.drop_first();
        let rest_b = b.drop_first();
        assert(a =~= seq![a[0]] + rest_a);
        assert(b =~= seq![b[0]] + rest_b);
        rest_a.lemma_filter_prepend(a[0], has_date(first));
        rest_b.lemma_filter_prepend(b[0], has_date(first));
        assert(a.filter(has_date(first))[0] == a[0]);
        assert(b.filter(has_date(first))[0] == b[0]);
        assert(a[0] == b[0]);
        assert forall|date: Seq<char>|
            #![trigger has_date(date)]
            rest_a.filter(has_date(date)) == rest_b.filter(has_date(date)) by {
            rest_a.lemma_filter_prepend(a[0], has_date(date));
            rest_b.lemma_filter_prepend(b[0], has_date(date));
            let whole = a.filter(has_date(date));
            let head: Seq<DailySummary> = if has_date(date)(a[0]) {
                seq![a[0]]
            } else {
                Seq::empty()
            };
            assert(whole == head + rest_a.filter(has_date(date)));
            assert(whole == head + rest_b.filter(has_date(date)));
            assert(rest_a.filter(has_date(date)) =~= whole.skip(head.len() as int));
            assert(rest_b.filter(has_date(date)) =~= whole.skip(head.len() as int));
        }
        assert forall|i: int, j: int| 0 <= i <= j < rest_a.len() implies text_le(
            (#[trigger] rest_a[i]).date,
            (#[trigger] rest_a[j]).date,
        ) by {
            assert(rest_a[i] == a[i + 1] && rest_a[j] == a[j + 1]);
        }
        assert forall|i: int, j: int| 0 <= i <= j < rest_b.len() implies text_le(
            (#[trigger] rest_b[i]).date,
            (#[trigger] rest_b[j]).date,
        ) by {
            assert(rest_b[i] == b[i + 1] && rest_b[j] == b[j + 1]);
        }
        lemma_sorted_is_unique(rest_a, rest_b);
    }
}

proof fn lemma_partition_by_date(history: Seq<DailySummary>, date: Seq<char>)
    ensures
        history.len() == without_date(history, date).len() + history.filter(has_date(date)).len(),
    decreases history.len(),
{
    if history.len() > 0 {
        let front = history.drop_last();
        assert(history =~= front.push(history.last()));
        lemma_partition_by_date(front, date);
        front.lemma_filter_push(history.last(), has_date(date));
        front.lemma_filter_push(history.last(), has_other_date(date));
    } else {
        history.lemma_filter_len(has_date(date));
        history.lemma_filter_len(has_other_date(date));
    }
}

proof fn lemma_without_absent_date(history: Seq<DailySummary>, date: Seq<char>)
    requires
        history.filter(has_date(date)).len() == 0,
    ensures
        without_date(history, date) == history,
    decreases history.len(),
{
    if history.len() > 0 {
        let front = history.drop_last();
        assert(history =~= front.push(history.last()));
        front.lemma_filter_push(history.last(), has_date(date));
        front.lemma_filter_push(history.last(), has_other_date(date));
        lemma_without_absent_date(front, date);
    } else {
        history.lemma_filter_len(has_other_date(date));
        assert(without_date(history, date) =~= history);
    }
}

proof fn lemma_other_date_is_kept(history: Seq<DailySummary>, date: Seq<char>, other: Seq<char>)
    requires
        other != date,
    ensures
        without_date(history, date).filter(has_date(other)) == history.filter(has_date(other)),
    decreases history.len(),
{
    if history.len() > 0 {
        let front = history.drop_last();
        assert(history =~= front.push(history.last()));
        lemma_other_date_is_kept(front, date, other);
        front.lemma_filter_push(history.last(), has_date(other));
        front.lemma_filter_push(history.last(), has_other_date(date));
        without_date(front, date).lemma_filter_push(history.last(), has_date(other));
    } else {
        history.lemma_filter_len(has_other_date(date));
        assert(without_date(history, date) =~= history);
    }
}

/// Recording is idempotent: recording the same summary a second time leaves
/// the whole history as the first recording left it.
pub proof fn lemma_recording_twice_changes_nothing(
    history: Seq<DailySummary>,
    session: DailySummary,
)
    ensures
        recorded(recorded(history, session), session) == recorded(history, session),
{
    let date = session.date;
    let first_sorted = sort_by_date(without_date(history, date).push(session));
    let once = recorded(history, session);
    let others = without_date(once, date);
    let merged = others.push(session);
    let sorted = sort_by_date(merged);
    let twice = recorded(once, session);
    lemma_recorded_is_bounded_and_sorted(history, session);
    lemma_recorded_once_per_date(history, session);
    lemma_sort_is_sorted(merged);
    lemma_sort_is_sorted(without_date(history, date).push(session));
    lemma_partition_by_date(once, date);
    lemma_without_date_has_none(once, date);
    assert(others.filter(has_date(date)) =~= Seq::<DailySummary>::empty());
    if once.filter(has_date(date)) == seq![session] {
        assert(twice == sorted);
        assert forall|other: Seq<char>|
            #![trigger has_date(other)]
            sorted.filter(has_date(other)) == once.filter(has_date(other)) by {
            lemma_sort_keeps_each_date(merged, other);
            others.lemma_filter_push(session, has_date(other));
            if other != date {
                lemma_other_date_is_kept(once, date, other);
            } else {
                assert(others.filter(has_date(date)).push(session) =~= seq![session]);
            }
        }
        lemma_sorted_is_unique(sorted, once);
    } else {
        lemma_without_absent_date(once, date);
        lemma_merged_has_one(history, session);
        let cut = first_sorted.len() - HISTORY_LIMIT;
        assert(first_sorted.len() > HISTORY_LIMIT);
        assert(once =~= first_sorted.skip(cut));
        assert(first_sorted.filter(has_date(date))[0] == session);
        first_sorted.lemma_filter_contains_rev(has_date(date), session);
        let at = choose|at: int| 0 <= at < first_sorted.len() && first_sorted[at] == session;
        if at >= cut {
            assert(once[at - cut] == session);
            once.lemma_filter_contains(has_date(date), at - cut);
        }
        let expected = seq![session] + once;
        assert forall|i: int, j: int| 0 <= i <= j < expected.len() implies text_le(
            (#[trigger] expected[i]).date,
            (#[trigger] expected[j]).date,
        ) by {
            if i == 0 && j == 0 {
                lemma_text_le_reflexive(date);
            } else if i == 0 {
                assert(expected[j] == first_sorted[cut + j - 1]);
                assert(text_le(first_sorted[at].date, first_sorted[cut + j - 1].date));
            } else {
                assert(expected[i] == once[i - 1] && expected[j] == once[j - 1]);
            }
        }
        assert forall|other: Seq<char>|
            #![trigger has_date(other)]
            sorted.filter(has_date(other)) == expected.filter(has_date(other)) by {
            lemma_sort_keeps_each_date(merged, other);
            once.lemma_filter_push(session, has_date(other));
            once.lemma_filter_prepend(session, has_date(other));
            if other == date {
                assert(once.filter(has_date(date)) =~= Seq::<DailySummary>::empty());
                assert(once.filter(has_date(date)).push(session) =~= seq![session]
                    + once.filter(has_date(date)));
            } else {
                assert(Seq::<DailySummary>::empty() + once.filter(has_date(other))
                    =~= once.filter(has_date(other)));
            }
        }
        lemma_sorted_is_unique(sorted, expected);
        assert(twice =~= once);
    }
}

} // verus!
