//! Writing to the journal and reading it back.
use crate::journal::{
    entries_of, has_day, is_ordered, position, position_bounds, position_is, position_of_day,
    with_day, with_day_is_ordered, with_entry, DayView, EntryView,
};
use crate::text::{precedes, precedes_irreflexive, precedes_total, precedes_transitive};
use vstd::prelude::*;

verus! {

proof fn with_day_lookup(
    journal: Seq<DayView>,
    key: Seq<char>,
    entries: Seq<EntryView>,
    other: Seq<char>,
)
    requires
        is_ordered(journal),
    ensures
        other == key ==> has_day(with_day(journal, key, entries), other) && entries_of(
            with_day(journal, key, entries),
            other,
        ) == entries,
        other != key ==> has_day(with_day(journal, key, entries), other) == has_day(journal, other)
            && entries_of(with_day(journal, key, entries), other) == entries_of(journal, other),
{
    let after = with_day(journal, key, entries);
    let p = position(journal, key);
    let q = position(journal, other);
    with_day_is_ordered(journal, key, entries);
    position_bounds(journal, key);
    position_bounds(journal, other);
    precedes_irreflexive(key);
    if other == key {
        assert forall|i: int| 0 <= i < p implies precedes(#[trigger] after[i].key, key) by {
            assert(after[i] == journal[i]);
        }
        position_is(after, key, p);
    } else if has_day(journal, key) {
        assert forall|i: int| 0 <= i < q implies precedes(#[trigger] after[i].key, other) by {
            assert(after[i].key == journal[i].key);
        }
        if q < journal.len() {
            assert(after[q].key == journal[q].key);
        }
        position_is(after, other, q);
    } else {
        precedes_total(key, other);
        if precedes(key, other) {
            // the new day stands before `other`
            if q < p {
                precedes_transitive(journal[q].key, key, other);
            }
            assert forall|i: int| 0 <= i < q + 1 implies precedes(
                #[trigger] after[i].key,
                other,
            ) by {
                if i < p {
                    assert(after[i] == journal[i]);
                } else if i > p {
                    assert(after[i] == journal[i - 1]);
                }
            }
            if q + 1 < after.len() {
                assert(after[q + 1] == journal[q]);
            }
            position_is(after, other, q + 1);
        } else {
            if p < q {
                precedes_total(journal[p].key, key);
                if precedes(key, journal[p].key) {
                    precedes_transitive(key, journal[p].key, other);
                }
            }
            assert forall|i: int| 0 <= i < q implies precedes(#[trigger] after[i].key, other) by {
                assert(after[i] == journal[i]);
            }
            if q < p {
                assert(after[q] == journal[q]);
            } else {
                assert(after[q].key == key);
            }
            position_is(after, other, q);
            if q == p {
                assert(!has_day(after, other));
                if has_day(journal, other) {
                    precedes_total(journal[q].key, key);
                }
            }
        }
    }
}

/// What was written is read back: the new entry stands at the end of its day, behind all
/// that stood there.
pub proof fn law_entry_is_read_back(journal: Seq<DayView>, key: Seq<char>, entry: EntryView)
    requires
        is_ordered(journal),
    ensures
        entries_of(with_entry(journal, key, entry), key) == entries_of(journal, key).push(entry),
{
    with_day_lookup(journal, key, entries_of(journal, key).push(entry), key);
}

/// Writing an entry changes no other day.
pub proof fn law_other_days_are_kept(
    journal: Seq<DayView>,
    key: Seq<char>,
    entry: EntryView,
    other: Seq<char>,
)
    requires
        is_ordered(journal),
        other != key,
    ensures
        has_day(with_entry(journal, key, entry), other) == has_day(journal, other),
        entries_of(with_entry(journal, key, entry), other) == entries_of(journal, other),
{
    with_day_lookup(journal, key, entries_of(journal, key).push(entry), other);
}

/// A day's entries are read under its key, all of them and in their order.
pub proof fn law_day_is_read_under_its_key(journal: Seq<DayView>, d: int)
    requires
        is_ordered(journal),
        0 <= d < journal.len(),
    ensures
        has_day(journal, journal[d].key),
        entries_of(journal, journal[d].key) == journal[d].entries,
        forall|i: int|
            0 <= i < journal.len() && i != d ==> (#[trigger] journal[i]).key != journal[d].key,
{
    position_of_day(journal, d);
    assert forall|i: int| 0 <= i < journal.len() && i != d implies (#[trigger] journal[i]).key
        != journal[d].key by {
        precedes_irreflexive(journal[d].key);
        if i < d {
            assert(precedes(journal[i].key, journal[d].key));
        } else {
            assert(precedes(journal[d].key, journal[i].key));
        }
    }
}

/// Where no day has the key, nothing is read under it.
pub proof fn law_nothing_is_read_under_a_strange_key(journal: Seq<DayView>, key: Seq<char>)
    requires
        is_ordered(journal),
        forall|d: int| 0 <= d < journal.len() ==> (#[trigger] journal[d]).key != key,
    ensures
        !has_day(journal, key),
        entries_of(journal, key).len() == 0,
{
    position_bounds(journal, key);
}

/// Writing an entry keeps the days in order and makes its day.
pub proof fn law_writing_keeps_the_order(journal: Seq<DayView>, key: Seq<char>, entry: EntryView)
    requires
        is_ordered(journal),
    ensures
        is_ordered(with_entry(journal, key, entry)),
        has_day(with_entry(journal, key, entry), key),
{
    with_day_is_ordered(journal, key, entries_of(journal, key).push(entry));
    with_day_lookup(journal, key, entries_of(journal, key).push(entry), key);
}

/// A list that is put in place of a day's is read under the key of the day, whole; the other
/// days are as they were.
pub proof fn law_day_is_replaced_whole(
    journal: Seq<DayView>,
    key: Seq<char>,
    entries: Seq<EntryView>,
    other: Seq<char>,
)
    requires
        is_ordered(journal),
    ensures
        is_ordered(with_day(journal, key, entries)),
        has_day(with_day(journal, key, entries), key),
        entries_of(with_day(journal, key, entries), key) == entries,
        other != key ==> has_day(with_day(journal, key, entries), other) == has_day(journal, other)
            && entries_of(with_day(journal, key, entries), other) == entries_of(journal, other),
{
    with_day_is_ordered(journal, key, entries);
    with_day_lookup(journal, key, entries, key);
    with_day_lookup(journal, key, entries, other);
}

} // verus!
