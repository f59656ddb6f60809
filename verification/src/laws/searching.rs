//! What a search finds, and in which order.
use crate::calendar::{date_key, two_digits, year_text, Moment};
use crate::journal::{
    entries_of, has_day, is_ordered, position, position_bounds, position_of_day, DayView,
    EntryView,
};
use crate::laws::words::{
    has_bare_ends, is_blank, is_without, law_found_is_a_part, law_part_is_found,
    law_pieces_are_whole, law_split_cuts_at_separators, law_trim_leaves_the_middle,
};
use crate::search::{
    all_lowercased, day_hits, has_plain_entry_tags, has_plain_tags, holds_tagged,
    is_lowered_by_letter, is_match, is_newer, is_one_term, is_plain_term, journal_hits,
    lowered_pieces, newer_asymmetric, newer_irreflexive, newer_steps, newest_first, placed,
    query_terms, results_for, term_matches, without_empty, HitView,
};
use crate::state::AppView;
use crate::text::{
    ascii_lower, decimal, digit, is_ascii_text, is_white_space, lowercased, occurs_in, precedes,
    precedes_irreflexive, split, stands_at, trim_end, trim_start, trimmed,
};
use vstd::prelude::*;

verus! {

/// No hit is newer than one that stands before it.
pub open spec fn is_ranked(hits: Seq<HitView>) -> bool {
    forall|i: int, j: int|
        #![trigger hits[i], hits[j]]
        0 <= i < j < hits.len() ==> !is_newer(hits[j], hits[i])
}

/// The hits of one day and time, in their order.
pub open spec fn hits_at(hits: Seq<HitView>, date: Seq<char>, time: Seq<char>) -> Seq<HitView>
    decreases hits.len(),
{
    if hits.len() == 0 {
        Seq::empty()
    } else if hits.last().date == date && hits.last().entry.time == time {
        hits_at(hits.drop_last(), date, time).push(hits.last())
    } else {
        hits_at(hits.drop_last(), date, time)
    }
}

proof fn placed_is_ranked(ranked: Seq<HitView>, hit: HitView)
    requires
        is_ranked(ranked),
    ensures
        is_ranked(placed(ranked, hit)),
        placed(ranked, hit).len() == ranked.len() + 1,
        forall|i: int|
            #![trigger placed(ranked, hit)[i]]
            0 <= i < placed(ranked, hit).len() ==> placed(ranked, hit)[i] == hit
                || ranked.contains(placed(ranked, hit)[i]),
    decreases ranked.len(),
{
    let after = placed(ranked, hit);
    if ranked.len() == 0 || !is_newer(hit, ranked.last()) {
        assert forall|i: int, j: int| 0 <= i < j < after.len() implies !is_newer(
            #[trigger] after[j],
            #[trigger] after[i],
        ) by {
            if j == ranked.len() && is_newer(hit, ranked[i]) {
                // the last one would then be newer than the one at `i`
                if i < ranked.len() - 1 {
                    assert(!is_newer(ranked[ranked.len() - 1], ranked[i]));
                    newer_steps(hit, ranked[i], ranked.last());
                }
            }
        }
        assert forall|i: int| 0 <= i < after.len() implies #[trigger] after[i] == hit
            || ranked.contains(after[i]) by {
            if i < ranked.len() {
                assert(after[i] == ranked[i]);
            }
        }
    } else {
        let front = ranked.drop_last();
        assert forall|i: int, j: int| 0 <= i < j < front.len() implies !is_newer(
            #[trigger] front[j],
            #[trigger] front[i],
        ) by {
            assert(front[i] == ranked[i] && front[j] == ranked[j]);
        }
        placed_is_ranked(front, hit);
        let inner = placed(front, hit);
        assert forall|i: int, j: int| 0 <= i < j < after.len() implies !is_newer(
            #[trigger] after[j],
            #[trigger] after[i],
        ) by {
            assert(after[i] == inner[i]);
            if j < inner.len() {
                assert(after[j] == inner[j]);
            } else {
                assert(after[j] == ranked.last());
                if inner[i] == hit {
                    newer_asymmetric(hit, ranked.last());
                } else {
                    let k = choose|k: int| 0 <= k < front.len() && front[k] == inner[i];
                    assert(ranked[k] == inner[i]);
                    assert(!is_newer(ranked[ranked.len() - 1], ranked[k]));
                }
            }
        }
        assert forall|i: int| 0 <= i < after.len() implies #[trigger] after[i] == hit
            || ranked.contains(after[i]) by {
            if i < inner.len() {
                assert(after[i] == inner[i]);
                if inner[i] != hit {
                    let k = choose|k: int| 0 <= k < front.len() && front[k] == inner[i];
                    assert(ranked[k] == after[i]);
                }
            } else {
                assert(ranked[ranked.len() - 1] == after[i]);
            }
        }
    }
}

proof fn placed_keeps_groups(
    ranked: Seq<HitView>,
    hit: HitView,
    date: Seq<char>,
    time: Seq<char>,
)
    ensures
        hits_at(placed(ranked, hit), date, time) == hits_at(ranked.push(hit), date, time),
    decreases ranked.len(),
{
    assert(ranked.push(hit).drop_last() =~= ranked);
    if ranked.len() == 0 || !is_newer(hit, ranked.last()) {
    } else {
        let front = ranked.drop_last();
        placed_keeps_groups(front, hit, date, time);
        assert(front.push(hit).drop_last() =~= front);
        assert(placed(front, hit).push(ranked.last()).drop_last() =~= placed(front, hit));
        newer_irreflexive(hit);
        if ranked.last().date == date && ranked.last().entry.time == time {
            // `hit` is newer, so that it is not of the same day and time
            precedes_irreflexive(date);
            precedes_irreflexive(time);
            assert(hits_at(ranked, date, time) == hits_at(front, date, time).push(ranked.last()));
        } else {
            assert(hits_at(ranked, date, time) == hits_at(front, date, time));
        }
    }
}

proof fn groups_of_push(
    a: Seq<HitView>,
    b: Seq<HitView>,
    h: HitView,
    date: Seq<char>,
    time: Seq<char>,
)
    requires
        hits_at(a, date, time) == hits_at(b, date, time),
    ensures
        hits_at(a.push(h), date, time) == hits_at(b.push(h), date, time),
{
    assert(a.push(h).drop_last() =~= a);
    assert(b.push(h).drop_last() =~= b);
}

/// Results come newest first.
pub proof fn law_results_are_ranked(hits: Seq<HitView>)
    ensures
        is_ranked(newest_first(hits)),
        newest_first(hits).len() == hits.len(),
    decreases hits.len(),
{
    if hits.len() > 0 {
        law_results_are_ranked(hits.drop_last());
        placed_is_ranked(newest_first(hits.drop_last()), hits.last());
    }
}

/// Ranking loses nothing, adds nothing, and keeps the order of what is of one day and time.
pub proof fn law_ranking_is_stable(hits: Seq<HitView>, date: Seq<char>, time: Seq<char>)
    ensures
        hits_at(newest_first(hits), date, time) == hits_at(hits, date, time),
    decreases hits.len(),
{
    if hits.len() > 0 {
        let front = hits.drop_last();
        law_ranking_is_stable(front, date, time);
        placed_keeps_groups(newest_first(front), hits.last(), date, time);
        groups_of_push(newest_first(front), front, hits.last(), date, time);
        assert(front.push(hits.last()) =~= hits);
    }
}

proof fn placed_holds(ranked: Seq<HitView>, hit: HitView, x: HitView)
    ensures
        placed(ranked, hit).contains(x) <==> ranked.contains(x) || x == hit,
    decreases ranked.len(),
{
    if ranked.len() == 0 || !is_newer(hit, ranked.last()) {
        pushed_holds(ranked, hit, x);
    } else {
        let front = ranked.drop_last();
        placed_holds(front, hit, x);
        pushed_holds(placed(front, hit), ranked.last(), x);
        pushed_holds(front, ranked.last(), x);
        assert(front.push(ranked.last()) =~= ranked);
    }
}

proof fn pushed_holds(s: Seq<HitView>, h: HitView, x: HitView)
    ensures
        s.push(h).contains(x) <==> s.contains(x) || x == h,
{
    if s.contains(x) {
        let k = choose|k: int| 0 <= k < s.len() && s[k] == x;
        assert(s.push(h)[k] == x);
    }
    if x == h {
        assert(s.push(h)[s.len() as int] == x);
    }
    if s.push(h).contains(x) && x != h {
        let k = choose|k: int| 0 <= k < s.push(h).len() && s.push(h)[k] == x;
        assert(s[k] == x);
    }
}

/// Ranking neither loses nor adds a hit.
pub proof fn law_ranking_keeps_hits(hits: Seq<HitView>, x: HitView)
    ensures
        newest_first(hits).contains(x) <==> hits.contains(x),
    decreases hits.len(),
{
    if hits.len() > 0 {
        let front = hits.drop_last();
        law_ranking_keeps_hits(front, x);
        placed_holds(newest_first(front), hits.last(), x);
        pushed_holds(front, hits.last(), x);
        assert(front.push(hits.last()) =~= hits);
    }
}

proof fn day_hits_hold(
    key: Seq<char>,
    entries: Seq<EntryView>,
    terms: Seq<Seq<char>>,
    x: HitView,
)
    ensures
        day_hits(key, entries, terms).contains(x) <==> x.date == key && entries.contains(x.entry)
            && is_match(key, x.entry, terms),
    decreases entries.len(),
{
    if entries.len() > 0 {
        let front = entries.drop_last();
        let last = entries.last();
        day_hits_hold(key, front, terms, x);
        pushed_holds(
            day_hits(key, front, terms),
            HitView { date: key, entry: last },
            x,
        );
        assert(x == HitView { date: key, entry: last } <==> x.date == key && x.entry == last);
        assert(entries.contains(x.entry) <==> front.contains(x.entry) || x.entry == last) by {
            if entries.contains(x.entry) && x.entry != last {
                let k = choose|k: int| 0 <= k < entries.len() && entries[k] == x.entry;
                assert(front[k] == x.entry);
            }
            if front.contains(x.entry) {
                let k = choose|k: int| 0 <= k < front.len() && front[k] == x.entry;
                assert(entries[k] == x.entry);
            }
            assert(entries[entries.len() - 1] == last);
        }
    }
}

/// Some day of the journal has the key and the entry of a hit.
pub open spec fn stands_in(journal: Seq<DayView>, x: HitView) -> bool {
    exists|i: int|
        0 <= i < journal.len() && (#[trigger] journal[i]).key == x.date
            && journal[i].entries.contains(x.entry)
}

proof fn journal_hits_hold(journal: Seq<DayView>, terms: Seq<Seq<char>>, x: HitView)
    ensures
        journal_hits(journal, terms).contains(x) <==> stands_in(journal, x) && is_match(
            x.date,
            x.entry,
            terms,
        ),
    decreases journal.len(),
{
    if journal.len() > 0 {
        let front = journal.drop_last();
        let last = journal.last();
        let a = journal_hits(front, terms);
        let b = day_hits(last.key, last.entries, terms);
        journal_hits_hold(front, terms, x);
        day_hits_hold(last.key, last.entries, terms, x);
        assert((a + b).contains(x) <==> a.contains(x) || b.contains(x)) by {
            if a.contains(x) {
                let k = choose|k: int| 0 <= k < a.len() && a[k] == x;
                assert((a + b)[k] == x);
            }
            if b.contains(x) {
                let k = choose|k: int| 0 <= k < b.len() && b[k] == x;
                assert((a + b)[a.len() + k] == x);
            }
            if (a + b).contains(x) {
                let k = choose|k: int| 0 <= k < (a + b).len() && (a + b)[k] == x;
                if k < a.len() {
                    assert(a[k] == x);
                } else {
                    assert(b[k - a.len()] == x);
                }
            }
        }
        assert(stands_in(journal, x) <==> stands_in(front, x) || (last.key == x.date
            && last.entries.contains(x.entry))) by {
            if stands_in(front, x) {
                let k = choose|i: int|
                    0 <= i < front.len() && (#[trigger] front[i]).key == x.date
                        && front[i].entries.contains(x.entry);
                assert(journal[k] == front[k]);
            }
            if stands_in(journal, x) {
                let k = choose|i: int|
                    0 <= i < journal.len() && (#[trigger] journal[i]).key == x.date
                        && journal[i].entries.contains(x.entry);
                if k < front.len() {
                    assert(front[k] == journal[k]);
                }
            }
            assert(journal[journal.len() - 1] == last);
        }
    }
}

/// A search finds the entries that match, all of them and nothing else.
pub proof fn law_search_is_exact(journal: Seq<DayView>, terms: Seq<Seq<char>>, x: HitView)
    requires
        is_ordered(journal),
    ensures
        results_for(journal, terms).contains(x) <==> entries_of(journal, x.date).contains(x.entry)
            && is_match(x.date, x.entry, terms),
{
    law_ranking_keeps_hits(journal_hits(journal, terms), x);
    journal_hits_hold(journal, terms, x);
    if stands_in(journal, x) {
        let k = choose|i: int|
            0 <= i < journal.len() && (#[trigger] journal[i]).key == x.date
                && journal[i].entries.contains(x.entry);
        position_of_day(journal, k);
    }
    if entries_of(journal, x.date).contains(x.entry) {
        position_bounds(journal, x.date);
        assert(has_day(journal, x.date));
        assert(journal[position(journal, x.date)].entries.contains(x.entry));
    }
}

proof fn occurs_in_itself(s: Seq<char>)
    ensures
        occurs_in(s, s),
{
    assert(s.subrange(0, s.len() as int) =~= s);
    assert(stands_at(s, s, 0));
}

/// A search for a date finds every entry of that day.
pub proof fn law_day_is_found_by_its_date(journal: Seq<DayView>, day: Moment, entry: EntryView)
    requires
        is_ordered(journal),
        day.wf(),
        entries_of(journal, date_key(day)).contains(entry),
    ensures
        is_plain_term(date_key(day)),
        results_for(journal, seq![date_key(day)]).contains(
            HitView { date: date_key(day), entry },
        ),
{
    let key = date_key(day);
    let terms = seq![key];
    date_key_is_plain(day);
    occurs_in_itself(key);
    assert(term_matches(key, entry, terms[0]));
    law_search_is_exact(journal, terms, HitView { date: key, entry });
}

/// A search for a location finds every entry that has it for a tag.
pub proof fn law_location_is_found(
    journal: Seq<DayView>,
    location: Seq<char>,
    date: Seq<char>,
    entry: EntryView,
)
    requires
        is_ordered(journal),
        entries_of(journal, date).contains(entry),
        entry.tags.contains(location),
    ensures
        results_for(journal, seq![lowercased(location)]).contains(HitView { date, entry }),
{
    let terms = seq![lowercased(location)];
    occurs_in_itself(lowercased(location));
    let k = choose|k: int| 0 <= k < entry.tags.len() && entry.tags[k] == location;
    assert(occurs_in(terms[0], all_lowercased(entry.tags)[k]));
    assert(term_matches(date, entry, terms[0]));
    law_search_is_exact(journal, terms, HitView { date, entry });
}

proof fn occurs_further(a: Seq<char>, b: Seq<char>, c: Seq<char>)
    requires
        occurs_in(a, b),
        occurs_in(b, c),
    ensures
        occurs_in(a, c),
{
    let i = choose|i: int| stands_at(b, a, i);
    let j = choose|j: int| stands_at(c, b, j);
    assert(c.subrange(i + j, i + j + a.len()) =~= a) by {
        assert forall|k: int| 0 <= k < a.len() implies c[i + j + k] == a[k] by {
            assert(b.subrange(i, i + a.len())[k] == b[i + k]);
            assert(c.subrange(j, j + b.len())[i + k] == c[i + j + k]);
        }
    }
    assert(stands_at(c, a, i + j));
}

proof fn occurs_in_lower_case(a: Seq<char>, b: Seq<char>)
    requires
        occurs_in(a, b),
    ensures
        occurs_in(
            a.map_values(|c: char| ascii_lower(c)),
            b.map_values(|c: char| ascii_lower(c)),
        ),
{
    let i = choose|i: int| stands_at(b, a, i);
    let x = a.map_values(|c: char| ascii_lower(c));
    let y = b.map_values(|c: char| ascii_lower(c));
    assert(y.subrange(i, i + x.len()) =~= x) by {
        assert forall|k: int| 0 <= k < a.len() implies y[i + k] == x[k] by {
            assert(b.subrange(i, i + a.len())[k] == b[i + k]);
        }
    }
    assert(stands_at(y, x, i));
}

proof fn part_is_ascii(a: Seq<char>, b: Seq<char>)
    requires
        occurs_in(a, b),
        is_ascii_text(b),
    ensures
        is_ascii_text(a),
{
    let i = choose|i: int| stands_at(b, a, i);
    assert forall|k: int| 0 <= k < a.len() implies (#[trigger] a[k] as int) < 0x80 by {
        assert(b.subrange(i, i + a.len())[k] == b[i + k]);
    }
}

proof fn piece_occurs(s: Seq<char>, sep: char)
    ensures
        split(s, sep).len() > 0,
        split(s, sep).last().len() <= s.len(),
        s.skip(s.len() - split(s, sep).last().len()) == split(s, sep).last(),
        forall|i: int| 0 <= i < split(s, sep).len() ==> occurs_in(#[trigger] split(s, sep)[i], s),
    decreases s.len(),
{
    let all = split(s, sep);
    if s.len() == 0 {
        assert(s =~= Seq::<char>::empty());
        assert(s.skip(0) =~= all.last());
        occurs_in_itself(s);
    } else {
        let front = s.drop_last();
        let before = split(front, sep);
        piece_occurs(front, sep);
        assert(front.subrange(0, front.len() as int) =~= front);
        assert(s.subrange(0, front.len() as int) =~= front);
        assert(stands_at(s, front, 0));
        let n = s.len() - all.last().len();
        assert(s.skip(n) =~= all.last()) by {
            if s.last() != sep {
                let old_last = before.last();
                assert forall|k: int| 0 <= k < all.last().len() implies s[n + k]
                    == all.last()[k] by {
                    if k < old_last.len() {
                        assert(front.skip(front.len() - old_last.len())[k] == old_last[k]);
                    }
                }
            }
        }
        assert(s.subrange(n, n + all.last().len()) =~= s.skip(n));
        assert(stands_at(s, all.last(), n));
        assert forall|i: int| 0 <= i < all.len() implies occurs_in(#[trigger] all[i], s) by {
            if i < all.len() - 1 {
                assert(all[i] == before[i]);
                occurs_further(all[i], front, s);
            } else {
                assert(all[i] == all.last());
            }
        }
    }
}

proof fn trim_start_occurs(s: Seq<char>)
    ensures
        occurs_in(trim_start(s), s),
    decreases s.len(),
{
    if s.len() > 0 && is_white_space(s[0]) {
        let rest = s.drop_first();
        trim_start_occurs(rest);
        assert(s.subrange(1, s.len() as int) =~= rest);
        assert(stands_at(s, rest, 1));
        occurs_further(trim_start(rest), rest, s);
    } else {
        occurs_in_itself(s);
    }
}

proof fn trim_end_occurs(s: Seq<char>)
    ensures
        occurs_in(trim_end(s), s),
    decreases s.len(),
{
    if s.len() > 0 && is_white_space(s.last()) {
        let front = s.drop_last();
        trim_end_occurs(front);
        assert(s.subrange(0, front.len() as int) =~= front);
        assert(stands_at(s, front, 0));
        occurs_further(trim_end(front), front, s);
    } else {
        occurs_in_itself(s);
    }
}

proof fn first_that_is_not_empty(list: Seq<Seq<char>>) -> (i: int)
    requires
        without_empty(list).len() > 0,
    ensures
        0 <= i < list.len(),
        list[i] == without_empty(list)[0],
    decreases list.len(),
{
    let front = list.drop_last();
    if without_empty(front).len() > 0 {
        let i = first_that_is_not_empty(front);
        assert(list[i] == front[i]);
        i
    } else {
        list.len() - 1
    }
}

/// A search for a tag as a query finds every entry that has the tag: where it is one term,
/// and where it is ASCII and its commas leave a term at all.
pub proof fn query_finds_tagged(journal: Seq<DayView>, query: Seq<char>)
    requires
        is_ordered(journal),
        is_one_term(query) || (is_ascii_text(query) && query_terms(query).len() > 0),
        is_one_term(query) ==> query_terms(query) == seq![lowercased(query)],
        has_plain_tags(journal),
        forall|i: int|
            0 <= i < split(query, ',').len() ==> is_lowered_by_letter(
                trimmed(#[trigger] split(query, ',')[i]),
            ),
    ensures
        holds_tagged(results_for(journal, query_terms(query)), journal, query),
{
    let terms = query_terms(query);
    assert forall|date: Seq<char>, entry: EntryView|
        entries_of(journal, date).contains(entry) && entry.tags.contains(
            query,
        ) implies #[trigger] results_for(journal, terms).contains(HitView { date, entry }) by {
        if is_one_term(query) {
            law_location_is_found(journal, query, date, entry);
        } else {
            let pieces = split(query, ',');
            let i = first_that_is_not_empty(lowered_pieces(pieces));
            let piece = pieces[i];
            let bare = trimmed(piece);
            piece_occurs(query, ',');
            trim_start_occurs(piece);
            trim_end_occurs(trim_start(piece));
            occurs_further(bare, trim_start(piece), piece);
            occurs_further(bare, piece, query);
            part_is_ascii(bare, query);
            occurs_in_lower_case(bare, query);
            assert(is_lowered_by_letter(bare));
            position_bounds(journal, date);
            let d = position(journal, date);
            let e = choose|e: int|
                0 <= e < journal[d].entries.len() && journal[d].entries[e] == entry;
            assert(has_plain_entry_tags(journal[d].entries[e]));
            let k = choose|k: int| 0 <= k < entry.tags.len() && entry.tags[k] == query;
            assert(is_lowered_by_letter(entry.tags[k]));
            assert(occurs_in(terms[0], all_lowercased(entry.tags)[k]));
            assert(term_matches(date, entry, terms[0]));
            law_search_is_exact(journal, terms, HitView { date, entry });
        }
    }
}

/// Terms are alternatives: what matches one list of terms or another matches both together.
pub proof fn law_terms_are_alternatives(
    date: Seq<char>,
    entry: EntryView,
    a: Seq<Seq<char>>,
    b: Seq<Seq<char>>,
)
    ensures
        is_match(date, entry, a + b) <==> is_match(date, entry, a) || is_match(date, entry, b),
{
    if is_match(date, entry, a + b) {
        let k = choose|k: int|
            0 <= k < (a + b).len() && term_matches(date, entry, #[trigger] (a + b)[k]);
        if k < a.len() {
            assert(term_matches(date, entry, a[k]));
        } else {
            assert(term_matches(date, entry, b[k - a.len()]));
        }
    }
    if is_match(date, entry, a) {
        let k = choose|k: int| 0 <= k < a.len() && term_matches(date, entry, #[trigger] a[k]);
        assert(term_matches(date, entry, (a + b)[k]));
    }
    if is_match(date, entry, b) {
        let k = choose|k: int| 0 <= k < b.len() && term_matches(date, entry, #[trigger] b[k]);
        assert(term_matches(date, entry, (a + b)[a.len() + k]));
    }
}

proof fn same_terms_match(
    date: Seq<char>,
    entry: EntryView,
    a: Seq<Seq<char>>,
    b: Seq<Seq<char>>,
)
    requires
        forall|t: Seq<char>| #[trigger] a.contains(t) ==> b.contains(t),
        is_match(date, entry, a),
    ensures
        is_match(date, entry, b),
{
    let k = choose|k: int| 0 <= k < a.len() && term_matches(date, entry, #[trigger] a[k]);
    assert(a.contains(a[k]));
    let j = choose|j: int| 0 <= j < b.len() && b[j] == a[k];
    assert(term_matches(date, entry, b[j]));
}

proof fn same_terms_in_a_day(
    date: Seq<char>,
    entries: Seq<EntryView>,
    a: Seq<Seq<char>>,
    b: Seq<Seq<char>>,
)
    requires
        forall|t: Seq<char>| #[trigger] a.contains(t) <==> #[trigger] b.contains(t),
    ensures
        day_hits(date, entries, a) == day_hits(date, entries, b),
    decreases entries.len(),
{
    if entries.len() > 0 {
        same_terms_in_a_day(date, entries.drop_last(), a, b);
        if is_match(date, entries.last(), a) {
            same_terms_match(date, entries.last(), a, b);
        }
        if is_match(date, entries.last(), b) {
            same_terms_match(date, entries.last(), b, a);
        }
    }
}

proof fn same_terms_in_a_journal(journal: Seq<DayView>, a: Seq<Seq<char>>, b: Seq<Seq<char>>)
    requires
        forall|t: Seq<char>| #[trigger] a.contains(t) <==> #[trigger] b.contains(t),
    ensures
        journal_hits(journal, a) == journal_hits(journal, b),
    decreases journal.len(),
{
    if journal.len() > 0 {
        same_terms_in_a_journal(journal.drop_last(), a, b);
        same_terms_in_a_day(journal.last().key, journal.last().entries, a, b);
    }
}

/// The order of the terms does not matter, nor does naming one twice.
pub proof fn law_order_of_terms_does_not_matter(
    journal: Seq<DayView>,
    a: Seq<Seq<char>>,
    b: Seq<Seq<char>>,
)
    requires
        forall|t: Seq<char>| #[trigger] a.contains(t) <==> #[trigger] b.contains(t),
    ensures
        results_for(journal, a) == results_for(journal, b),
{
    same_terms_in_a_journal(journal, a, b);
}

/// Commas, or the ends of the query, stand on both sides of a piece.
pub open spec fn is_between_commas(before: Seq<char>, after: Seq<char>) -> bool {
    (before.len() == 0 || before.last() == ',') && (after.len() == 0 || after[0] == ',')
}

proof fn piece_is_split_off(before: Seq<char>, piece: Seq<char>, after: Seq<char>) -> (i: int)
    requires
        is_between_commas(before, after),
        is_without(piece, ','),
    ensures
        0 <= i < split(before + piece + after, ',').len(),
        split(before + piece + after, ',')[i] == piece,
{
    let rest = piece + after;
    law_pieces_are_whole(piece, ',');
    if after.len() > 0 {
        let behind = after.drop_first();
        assert(rest =~= piece.push(',') + behind);
        law_split_cuts_at_separators(piece, behind, ',');
        assert(split(rest, ',')[0] == piece);
    } else {
        assert(rest =~= piece);
    }
    assert(split(rest, ',').len() > 0 && split(rest, ',')[0] == piece);
    if before.len() > 0 {
        let front = before.drop_last();
        assert(before + piece + after =~= front.push(',') + rest);
        law_split_cuts_at_separators(front, rest, ',');
        split(front, ',').len() as int
    } else {
        assert(before + piece + after =~= rest);
        0
    }
}

proof fn kept_where_not_empty(list: Seq<Seq<char>>, i: int)
    requires
        0 <= i < list.len(),
        list[i].len() > 0,
    ensures
        without_empty(list).contains(list[i]),
    decreases list.len(),
{
    let front = list.drop_last();
    if i < front.len() {
        kept_where_not_empty(front, i);
        let k = choose|k: int|
            0 <= k < without_empty(front).len() && without_empty(front)[k] == front[i];
        assert(without_empty(list)[k] == list[i]);
    } else {
        assert(without_empty(list)[without_empty(front).len() as int] == list[i]);
    }
}

proof fn kept_come_from(list: Seq<Seq<char>>, k: int) -> (i: int)
    requires
        0 <= k < without_empty(list).len(),
    ensures
        0 <= i < list.len(),
        list[i] == without_empty(list)[k],
        list[i].len() > 0,
    decreases list.len(),
{
    let front = list.drop_last();
    if k < without_empty(front).len() {
        let i = kept_come_from(front, k);
        assert(list[i] == front[i]);
        i
    } else {
        list.len() - 1
    }
}

/// Whatever stands between two commas of a query is a term of it: without the white space
/// around it, and in lower case.
pub proof fn law_every_piece_is_a_term(
    before: Seq<char>,
    a: Seq<char>,
    t: Seq<char>,
    b: Seq<char>,
    after: Seq<char>,
)
    requires
        is_between_commas(before, after),
        is_without(a + t + b, ','),
        is_blank(a),
        has_bare_ends(t),
        is_blank(b),
        lowercased(t).len() > 0,
    ensures
        query_terms(before + (a + t + b) + after).contains(lowercased(t)),
{
    let piece = a + t + b;
    let pieces = split(before + piece + after, ',');
    let i = piece_is_split_off(before, piece, after);
    law_trim_leaves_the_middle(a, t, b);
    assert(lowered_pieces(pieces)[i] == lowercased(t));
    kept_where_not_empty(lowered_pieces(pieces), i);
}

#[verifier::rlimit(30)]
proof fn piece_stands(s: Seq<char>, i: int) -> (around: (Seq<char>, Seq<char>))
    requires
        0 <= i < split(s, ',').len(),
    ensures
        s == around.0 + split(s, ',')[i] + around.1,
        is_between_commas(around.0, around.1),
        i == split(s, ',').len() - 1 <==> around.1.len() == 0,
    decreases s.len(),
{
    let none = Seq::<char>::empty();
    let all = split(s, ',');
    if s.len() == 0 {
        assert(s =~= none + all[i] + none);
        (none, none)
    } else {
        let front = s.drop_last();
        let before = split(front, ',');
        law_pieces_are_whole(front, ',');
        assert(s =~= front.push(s.last()));
        if s.last() == ',' && i == all.len() - 1 {
            assert(s =~= s + all[i] + none);
            (s, none)
        } else {
            let (x, y) = piece_stands(front, i);
            if s.last() == ',' || i < before.len() - 1 {
                assert(all[i] == before[i]);
                assert(s =~= x + all[i] + y.push(s.last()));
                (x, y.push(s.last()))
            } else {
                assert(all[i] == before[i].push(s.last()));
                assert(s =~= x + all[i] + none);
                (x, none)
            }
        }
    }
}

/// Every term of a query is a piece between two commas, without the white space around it and
/// in lower case; and no term is empty.
pub proof fn law_every_term_is_a_piece(query: Seq<char>, k: int) -> (parts: (
    Seq<char>,
    Seq<char>,
    Seq<char>,
))
    requires
        0 <= k < query_terms(query).len(),
    ensures
        query == parts.0 + parts.1 + parts.2,
        is_between_commas(parts.0, parts.2),
        is_without(parts.1, ','),
        query_terms(query)[k] == lowercased(trimmed(parts.1)),
        query_terms(query)[k].len() > 0,
{
    let pieces = split(query, ',');
    let i = kept_come_from(lowered_pieces(pieces), k);
    law_pieces_are_whole(query, ',');
    let (x, y) = piece_stands(query, i);
    (x, pieces[i], y)
}

/// A term finds an entry by any part of the date, of the text or of a tag, however far in and
/// whatever its length; case does not matter in the text and in the tags.
pub proof fn law_every_part_is_found(
    app: AppView,
    d: int,
    e: int,
    k: int,
    tag: int,
    a: Seq<char>,
    b: Seq<char>,
)
    requires
        0 <= d < app.journal.len(),
        0 <= e < app.journal[d].entries.len(),
        0 <= k < query_terms(app.search_input).len(),
    ensures
        ({
            let term = query_terms(app.search_input)[k];
            let day = app.journal[d];
            let entry = day.entries[e];
            let hit = HitView { date: day.key, entry };
            let results = app.searched().search_results;
            &&& day.key == a + term + b ==> results.contains(hit)
            &&& lowercased(entry.text) == a + term + b ==> results.contains(hit)
            &&& 0 <= tag < entry.tags.len() && lowercased(entry.tags[tag]) == a + term + b
                ==> results.contains(hit)
        }),
{
    let terms = query_terms(app.search_input);
    let term = terms[k];
    let day = app.journal[d];
    let entry = day.entries[e];
    let hit = HitView { date: day.key, entry };
    law_part_is_found(a, term, b);
    law_ranking_keeps_hits(journal_hits(app.journal, terms), hit);
    journal_hits_hold(app.journal, terms, hit);
    assert(day.entries.contains(entry));
    assert(stands_in(app.journal, hit));
    if 0 <= tag < entry.tags.len() && lowercased(entry.tags[tag]) == a + term + b {
        assert(occurs_in(term, all_lowercased(entry.tags)[tag]));
        assert(term_matches(day.key, entry, terms[k]));
    }
    if day.key == a + term + b || lowercased(entry.text) == a + term + b {
        assert(term_matches(day.key, entry, terms[k]));
    }
}

/// What is typed between two commas of the search input finds every entry in whose text it
/// stands, at any place of the text.
pub proof fn law_typed_words_are_found(
    app: AppView,
    before: Seq<char>,
    x: Seq<char>,
    typed: Seq<char>,
    y: Seq<char>,
    after: Seq<char>,
    d: int,
    e: int,
    a: Seq<char>,
    b: Seq<char>,
)
    requires
        app.search_input == before + (x + typed + y) + after,
        is_between_commas(before, after),
        is_without(x + typed + y, ','),
        is_blank(x),
        has_bare_ends(typed),
        is_blank(y),
        lowercased(typed).len() > 0,
        0 <= d < app.journal.len(),
        0 <= e < app.journal[d].entries.len(),
        lowercased(app.journal[d].entries[e].text) == a + lowercased(typed) + b,
    ensures
        app.searched().search_results.contains(
            HitView { date: app.journal[d].key, entry: app.journal[d].entries[e] },
        ),
{
    law_every_piece_is_a_term(before, x, typed, y, after);
    let terms = query_terms(app.search_input);
    let k = choose|k: int| 0 <= k < terms.len() && terms[k] == lowercased(typed);
    law_every_part_is_found(app, d, e, k, -1, a, b);
}

/// Where a result comes from: its day, its place in the day, the term that found it, and what
/// stands around the term there.
pub struct Origin {
    pub day: int,
    pub entry: int,
    pub term: int,
    pub tag: int,
    pub before: Seq<char>,
    pub after: Seq<char>,
}

/// Every result is an entry of the journal, and a term is a part of its date, of its text or of
/// one of its tags.
#[verifier::rlimit(30)]
pub proof fn law_nothing_else_is_found(app: AppView, r: int) -> (from: Origin)
    requires
        0 <= r < app.searched().search_results.len(),
    ensures
        ({
            let hit = app.searched().search_results[r];
            let terms = query_terms(app.search_input);
            let found = from.before + terms[from.term] + from.after;
            &&& 0 <= from.day < app.journal.len()
            &&& 0 <= from.entry < app.journal[from.day].entries.len()
            &&& 0 <= from.term < terms.len()
            &&& hit.date == app.journal[from.day].key
            &&& hit.entry == app.journal[from.day].entries[from.entry]
            &&& hit.date == found || lowercased(hit.entry.text) == found || (0 <= from.tag
                < hit.entry.tags.len() && lowercased(hit.entry.tags[from.tag]) == found)
        }),
{
    let terms = query_terms(app.search_input);
    let hits = journal_hits(app.journal, terms);
    let hit = app.searched().search_results[r];
    assert(app.searched().search_results.contains(hit));
    law_ranking_keeps_hits(hits, hit);
    journal_hits_hold(app.journal, terms, hit);
    let day = choose|i: int|
        0 <= i < app.journal.len() && (#[trigger] app.journal[i]).key == hit.date
            && app.journal[i].entries.contains(hit.entry);
    let entries = app.journal[day].entries;
    let entry = choose|e: int| 0 <= e < entries.len() && entries[e] == hit.entry;
    let term = choose|k: int|
        0 <= k < terms.len() && term_matches(hit.date, hit.entry, #[trigger] terms[k]);
    let t = terms[term];
    let tags = all_lowercased(hit.entry.tags);
    if occurs_in(t, hit.date) {
        let (before, after) = law_found_is_a_part(t, hit.date);
        Origin { day, entry, term, tag: -1, before, after }
    } else if occurs_in(t, lowercased(hit.entry.text)) {
        let (before, after) = law_found_is_a_part(t, lowercased(hit.entry.text));
        Origin { day, entry, term, tag: -1, before, after }
    } else {
        let tag = choose|i: int| 0 <= i < tags.len() && occurs_in(t, #[trigger] tags[i]);
        let (before, after) = law_found_is_a_part(t, tags[tag]);
        Origin { day, entry, term, tag, before, after }
    }
}

/// Of any two results the earlier one is not of an earlier day, nor of an earlier time on the
/// same day.
pub proof fn law_results_descend(app: AppView, i: int, j: int)
    requires
        0 <= i < j < app.searched().search_results.len(),
    ensures
        ({
            let first = app.searched().search_results[i];
            let second = app.searched().search_results[j];
            &&& !precedes(first.date, second.date)
            &&& first.date == second.date ==> !precedes(first.entry.time, second.entry.time)
        }),
{
    law_results_are_ranked(journal_hits(app.journal, query_terms(app.search_input)));
}

/// The hits of one day and time are found each as often as it stands in the journal, and in
/// that order.
pub proof fn law_results_keep_the_order_of_a_minute(app: AppView, date: Seq<char>, time: Seq<char>)
    ensures
        hits_at(app.searched().search_results, date, time) == hits_at(
            journal_hits(app.journal, query_terms(app.search_input)),
            date,
            time,
        ),
        app.searched().search_results.len() == journal_hits(
            app.journal,
            query_terms(app.search_input),
        ).len(),
{
    let hits = journal_hits(app.journal, query_terms(app.search_input));
    law_ranking_is_stable(hits, date, time);
    law_results_are_ranked(hits);
}

/// What is found in two parts of a journal, or of a day, is found in the whole, one behind the
/// other; an entry by itself is found once or not at all.
pub proof fn law_hits_add_up(
    x: Seq<DayView>,
    y: Seq<DayView>,
    key: Seq<char>,
    a: Seq<EntryView>,
    b: Seq<EntryView>,
    one: EntryView,
    terms: Seq<Seq<char>>,
)
    ensures
        journal_hits(x + y, terms) == journal_hits(x, terms) + journal_hits(y, terms),
        journal_hits(seq![DayView { key, entries: a }], terms) == day_hits(key, a, terms),
        day_hits(key, a + b, terms) == day_hits(key, a, terms) + day_hits(key, b, terms),
        day_hits(key, seq![one], terms) == if is_match(key, one, terms) {
            seq![HitView { date: key, entry: one }]
        } else {
            Seq::empty()
        },
    decreases y.len() + b.len(),
{
    reveal_with_fuel(journal_hits, 2);
    reveal_with_fuel(day_hits, 2);
    let none = Seq::<EntryView>::empty();
    let days = Seq::<DayView>::empty();
    let single = seq![DayView { key, entries: a }];
    assert(single.drop_last() =~= days);
    assert(journal_hits(single, terms) =~= day_hits(key, a, terms));
    assert(seq![one].drop_last() =~= none);
    if is_match(key, one, terms) {
        assert(day_hits(key, seq![one], terms) =~= seq![HitView { date: key, entry: one }]);
    }
    if y.len() > 0 {
        law_hits_add_up(x, y.drop_last(), key, a, none, one, terms);
        assert((x + y).drop_last() =~= x + y.drop_last());
        assert(journal_hits(x + y, terms) =~= journal_hits(x, terms) + journal_hits(y, terms));
    } else {
        assert(x + y =~= x);
        assert(journal_hits(x, terms) + journal_hits(y, terms) =~= journal_hits(x, terms));
    }
    if b.len() > 0 {
        law_hits_add_up(days, days, key, a, b.drop_last(), one, terms);
        assert((a + b).drop_last() =~= a + b.drop_last());
        assert(day_hits(key, a + b, terms) =~= day_hits(key, a, terms) + day_hits(key, b, terms));
    } else {
        assert(a + b =~= a);
        assert(day_hits(key, a, terms) + day_hits(key, b, terms) =~= day_hits(key, a, terms));
    }
}

/// The hits of one day and time in two lists are those of the whole, one behind the other.
pub proof fn law_groups_add_up(
    a: Seq<HitView>,
    b: Seq<HitView>,
    hit: HitView,
    date: Seq<char>,
    time: Seq<char>,
)
    ensures
        hits_at(a + b, date, time) == hits_at(a, date, time) + hits_at(b, date, time),
        hits_at(seq![hit], date, time) == if hit.date == date && hit.entry.time == time {
            seq![hit]
        } else {
            Seq::empty()
        },
    decreases b.len(),
{
    reveal_with_fuel(hits_at, 2);
    assert(seq![hit].drop_last() =~= Seq::<HitView>::empty());
    if hit.date == date && hit.entry.time == time {
        assert(hits_at(seq![hit], date, time) =~= seq![hit]);
    }
    if b.len() > 0 {
        law_groups_add_up(a, b.drop_last(), hit, date, time);
        assert((a + b).drop_last() =~= a + b.drop_last());
        assert(hits_at(a + b, date, time) =~= hits_at(a, date, time) + hits_at(b, date, time));
    } else {
        assert(a + b =~= a);
        assert(hits_at(a, date, time) + hits_at(b, date, time) =~= hits_at(a, date, time));
    }
}

/// A search puts the cursor on the first result, closes a detail, and changes nothing else.
pub proof fn law_search_changes_the_results_only(app: AppView)
    ensures
        ({
            let after = app.searched();
            let found = after.search_results.len() > 0;
            &&& after.search_state.selected == if found {
                Some(0usize)
            } else {
                None
            }
            &&& after.search_state.offset == if found {
                app.search_state.offset
            } else {
                0
            }
            &&& after == AppView {
                search_results: after.search_results,
                search_scroll: 0,
                search_state: after.search_state,
                search_selected_detail: None,
                ..app
            }
        }),
{
}

proof fn digit_is_plain(d: int)
    requires
        0 <= d < 10,
    ensures
        0x30 <= digit(d) as int <= 0x39,
{
}

/// The characters that a date is written with.
pub open spec fn is_date_char(c: char) -> bool {
    0x30 <= c as int <= 0x39 || c == '_' || c == '+' || c == '-'
}

proof fn decimal_is_plain(n: nat)
    ensures
        decimal(n).len() > 0,
        forall|i: int| 0 <= i < decimal(n).len() ==> is_date_char(#[trigger] decimal(n)[i]),
    decreases n,
{
    if n < 10 {
        digit_is_plain(n as int);
    } else {
        decimal_is_plain(n / 10);
        digit_is_plain((n % 10) as int);
    }
}

/// The key of a day is searched for as it stands.
pub proof fn date_key_is_plain(day: Moment)
    requires
        day.wf(),
    ensures
        is_plain_term(date_key(day)),
{
    let y = day.year as int;
    let n: nat = if y < 0 {
        (-y) as nat
    } else {
        y as nat
    };
    digit_is_plain((n / 1000 % 10) as int);
    digit_is_plain((n / 100 % 10) as int);
    digit_is_plain((n / 10 % 10) as int);
    digit_is_plain((n % 10) as int);
    digit_is_plain((day.month / 10) as int);
    digit_is_plain((day.month % 10) as int);
    digit_is_plain((day.day / 10) as int);
    digit_is_plain((day.day % 10) as int);
    decimal_is_plain(n);
    let yt = year_text(y);
    assert forall|i: int| 0 <= i < yt.len() implies is_date_char(#[trigger] yt[i]) by {
        if n < 10000 {
            assert(n / 1000 % 10 == n / 1000);
        }
    }
    let key = date_key(day);
    let a = yt.push('_');
    let b = two_digits(day.month as int).push('_');
    let c = two_digits(day.day as int);
    assert forall|i: int| 0 <= i < key.len() implies is_date_char(#[trigger] key[i]) by {
        if i < yt.len() {
            assert(key[i] == yt[i]);
        } else if i == yt.len() {
            assert(key[i] == '_');
        } else if i < a.len() + b.len() {
            assert(key[i] == b[i - a.len()]);
        } else {
            assert(key[i] == c[i - a.len() - b.len()]);
        }
    }
    assert forall|i: int| 0 <= i < key.len() implies (#[trigger] key[i]) != ',' && !is_white_space(
        key[i],
    ) && ascii_lower(key[i]) == key[i] && (key[i] as int) < 0x80 by {
        assert(is_date_char(key[i]));
    }
}

} // verus!
