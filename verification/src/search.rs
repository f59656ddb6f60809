//! Searching the journal: terms, matches, and the order of the results.
use crate::journal::{entries_of, entry_views, DayView, EntryView, Journal, JournalEntry};
use crate::text::{
    ascii_lower, contains, is_ascii_text, is_before, is_same, is_white_space, lowercased,
    occurs_in, precedes, precedes_irreflexive, precedes_total, precedes_transitive, split, split_at,
    texts, trim, trim_end, trim_start, trimmed,
};
use vstd::prelude::*;

verus! {

/// An entry together with the key of its day.
#[derive(Debug)]
pub struct Hit {
    pub date: String,
    pub entry: JournalEntry,
}

#[verifier::ext_equal]
pub struct HitView {
    pub date: Seq<char>,
    pub entry: EntryView,
}

impl View for Hit {
    type V = HitView;

    open spec fn view(&self) -> HitView {
        HitView { date: self.date@, entry: self.entry@ }
    }
}

impl Clone for Hit {
    fn clone(&self) -> (res: Hit)
        ensures
            res@ == self@,
    {
        Hit { date: self.date.clone(), entry: self.entry.clone() }
    }
}

pub open spec fn hit_views(hits: Seq<Hit>) -> Seq<HitView> {
    Seq::new(hits.len(), |i: int| hits[i]@)
}

/// A copy of a list of hits.
pub fn copy_hits(hits: &Vec<Hit>) -> (res: Vec<Hit>)
    ensures
        hit_views(res@) == hit_views(hits@),
{
    let mut res: Vec<Hit> = Vec::new();
    let mut i: usize = 0;
    while i < hits.len()
        invariant
            i <= hits@.len(),
            res@.len() == i,
            forall|k: int| 0 <= k < i ==> (#[trigger] res@[k])@ == hits@[k]@,
        decreases hits@.len() - i,
    {
        res.push(hits[i].clone());
        i = i + 1;
    }
    proof { assert(hit_views(res@) =~= hit_views(hits@)); }
    res
}

/// The pieces of a query, trimmed and in lower case.
pub open spec fn lowered_pieces(pieces: Seq<Seq<char>>) -> Seq<Seq<char>> {
    Seq::new(pieces.len(), |i: int| lowercased(trimmed(pieces[i])))
}

/// The texts that are not empty, in their order.
pub open spec fn without_empty(list: Seq<Seq<char>>) -> Seq<Seq<char>>
    decreases list.len(),
{
    if list.len() == 0 {
        Seq::empty()
    } else if list.last().len() == 0 {
        without_empty(list.drop_last())
    } else {
        without_empty(list.drop_last()).push(list.last())
    }
}

/// The terms of a query, which commas part: trimmed, in lower case, empty ones left out.
pub open spec fn query_terms(query: Seq<char>) -> Seq<Seq<char>> {
    without_empty(lowered_pieces(split(query, ',')))
}

/// A query of one term: not empty, without commas, and without white space at its ends.
pub open spec fn is_one_term(s: Seq<char>) -> bool {
    &&& s.len() > 0
    &&& trimmed(s) == s
    &&& forall|i: int| 0 <= i < s.len() ==> s[i] != ','
}

/// One term as it stands: lower-case ASCII without commas and white space, such as a date.
pub open spec fn is_plain_term(s: Seq<char>) -> bool {
    &&& s.len() > 0
    &&& is_ascii_text(s)
    &&& forall|i: int|
        0 <= i < s.len() ==> (#[trigger] s[i]) != ',' && !is_white_space(s[i]) && ascii_lower(s[i])
            == s[i]
}

/// Where the text is ASCII, its lower case is made letter by letter.
pub open spec fn is_lowered_by_letter(s: Seq<char>) -> bool {
    is_ascii_text(s) ==> lowercased(s) == s.map_values(|c: char| ascii_lower(c))
}

/// A text without the separator is one piece.
pub proof fn split_without_separator(s: Seq<char>, sep: char)
    requires
        forall|i: int| 0 <= i < s.len() ==> s[i] != sep,
    ensures
        split(s, sep) == seq![s],
    decreases s.len(),
{
    if s.len() == 0 {
        assert(s =~= Seq::<char>::empty());
    } else {
        split_without_separator(s.drop_last(), sep);
        assert(seq![s.drop_last()].drop_last().push(s.drop_last().push(s.last())) =~= seq![s]) by {
            assert(s.drop_last().push(s.last()) =~= s);
        }
    }
}

/// Takes out the empty texts.
pub fn drop_empty(list: Vec<String>) -> (res: Vec<String>)
    ensures
        texts(res@) == without_empty(texts(list@)),
{
    let mut res: Vec<String> = Vec::new();
    let ghost all = texts(list@);
    let mut i: usize = 0;
    proof {
        assert(all.take(0) =~= Seq::<Seq<char>>::empty());
        assert(texts(res@) =~= Seq::<Seq<char>>::empty());
    }
    while i < list.len()
        invariant
            all == texts(list@),
            i <= list@.len(),
            texts(res@) == without_empty(all.take(i as int)),
        decreases list@.len() - i,
    {
        let ghost before = texts(res@);
        proof {
            assert(all.take(i + 1).drop_last() =~= all.take(i as int));
            assert(all.take(i + 1).last() == list@[i as int]@);
        }
        if !list[i].as_str().is_empty() {
            res.push(list[i].clone());
            proof { assert(texts(res@) =~= before.push(list@[i as int]@)); }
        }
        i = i + 1;
    }
    proof { assert(all.take(all.len() as int) =~= all); }
    res
}

/// Reads the terms of a query.
pub fn parse_terms(query: &str) -> (res: Vec<String>)
    ensures
        texts(res@) == query_terms(query@),
        is_one_term(query@) ==> texts(res@) == seq![lowercased(query@)],
        is_plain_term(query@) ==> texts(res@) == seq![query@],
        forall|i: int|
            0 <= i < split(query@, ',').len() ==> is_lowered_by_letter(
                trimmed(#[trigger] split(query@, ',')[i]),
            ),
{
    let pieces = split_at(query, ',');
    let mut lowered: Vec<String> = Vec::new();
    let ghost all = texts(pieces@);
    let mut i: usize = 0;
    while i < pieces.len()
        invariant
            all == texts(pieces@),
            i <= pieces@.len(),
            lowered@.len() == i,
            forall|k: int|
                0 <= k < i ==> (#[trigger] lowered@[k])@ == lowercased(trimmed(all[k])),
            forall|k: int| 0 <= k < i ==> is_lowered_by_letter(trimmed(#[trigger] all[k])),
            forall|k: int|
                0 <= k < i && trimmed(all[k]).len() > 0 ==> (#[trigger] lowered@[k])@.len() > 0,
        decreases pieces@.len() - i,
    {
        let piece = trim(pieces[i].as_str());
        proof { assert(all[i as int] == pieces@[i as int]@); }
        lowered.push(piece.as_str().to_lowercase());
        i = i + 1;
    }
    proof {
        assert(texts(lowered@) =~= lowered_pieces(all));
        if is_plain_term(query@) {
            plain_term_is_one_term(query@);
        }
        if is_one_term(query@) {
            split_without_separator(query@, ',');
            reveal_with_fuel(without_empty, 2);
            let low = texts(lowered@);
            assert(all[0] == query@);
            assert(low.len() == 1 && low[0] == lowercased(query@));
            assert(lowered@[0]@.len() > 0);
            assert(low.drop_last() =~= Seq::<Seq<char>>::empty());
            assert(without_empty(low) =~= seq![lowercased(query@)]);
        }
    }
    drop_empty(lowered)
}

proof fn plain_term_is_one_term(s: Seq<char>)
    requires
        is_plain_term(s),
    ensures
        is_one_term(s),
        is_lowered_by_letter(s) ==> lowercased(s) == s,
{
    assert(trim_start(s) == s);
    assert(trim_end(s) == s);
    assert(s.map_values(|c: char| ascii_lower(c)) =~= s);
}

/// A term stands in one of three places: a date, a text, or one of the tags.
pub open spec fn term_stands(
    date: Seq<char>,
    text: Seq<char>,
    tags: Seq<Seq<char>>,
    term: Seq<char>,
) -> bool {
    ||| occurs_in(term, date)
    ||| occurs_in(term, text)
    ||| exists|i: int| 0 <= i < tags.len() && occurs_in(term, #[trigger] tags[i])
}

/// Some term stands in one of the three places.
pub open spec fn some_term_stands(
    date: Seq<char>,
    text: Seq<char>,
    tags: Seq<Seq<char>>,
    terms: Seq<Seq<char>>,
) -> bool {
    exists|k: int| 0 <= k < terms.len() && term_stands(date, text, tags, #[trigger] terms[k])
}

/// Texts in lower case.
pub open spec fn all_lowercased(list: Seq<Seq<char>>) -> Seq<Seq<char>> {
    Seq::new(list.len(), |i: int| lowercased(list[i]))
}

/// A term stands in the key of the day, in the text or in a tag, whatever the case of the
/// last two.
pub open spec fn term_matches(date: Seq<char>, entry: EntryView, term: Seq<char>) -> bool {
    term_stands(date, lowercased(entry.text), all_lowercased(entry.tags), term)
}

/// Some term matches.
pub open spec fn is_match(date: Seq<char>, entry: EntryView, terms: Seq<Seq<char>>) -> bool {
    exists|k: int| 0 <= k < terms.len() && term_matches(date, entry, #[trigger] terms[k])
}

fn lower_all(list: &Vec<String>) -> (res: Vec<String>)
    ensures
        texts(res@) == all_lowercased(texts(list@)),
        forall|i: int| 0 <= i < list@.len() ==> is_lowered_by_letter(#[trigger] texts(list@)[i]),
{
    let mut res: Vec<String> = Vec::new();
    let ghost all = texts(list@);
    let mut i: usize = 0;
    while i < list.len()
        invariant
            all == texts(list@),
            i <= list@.len(),
            res@.len() == i,
            forall|k: int| 0 <= k < i ==> (#[trigger] res@[k])@ == lowercased(all[k]),
            forall|k: int| 0 <= k < i ==> is_lowered_by_letter(#[trigger] all[k]),
        decreases list@.len() - i,
    {
        proof { assert(all[i as int] == list@[i as int]@); }
        res.push(list[i].as_str().to_lowercase());
        i = i + 1;
    }
    proof { assert(texts(res@) =~= all_lowercased(all)); }
    res
}

/// Whether some term stands in a date, a text or one of the tags, as they are.
pub fn some_term_found(
    date: &str,
    text: &str,
    tags: &Vec<String>,
    terms: &Vec<String>,
) -> (res: bool)
    ensures
        res == some_term_stands(date@, text@, texts(tags@), texts(terms@)),
{
    let ghost ts = texts(terms@);
    let ghost gs = texts(tags@);
    let mut k: usize = 0;
    while k < terms.len()
        invariant
            k <= terms@.len(),
            ts == texts(terms@),
            gs == texts(tags@),
            forall|j: int| 0 <= j < k ==> !term_stands(date@, text@, gs, #[trigger] ts[j]),
        decreases terms@.len() - k,
    {
        let term = terms[k].as_str();
        proof { assert(ts[k as int] == term@); }
        if contains(date, term) || contains(text, term) {
            return true;
        }
        let mut i: usize = 0;
        while i < tags.len()
            invariant
                k < terms@.len(),
                ts == texts(terms@),
                gs == texts(tags@),
                ts[k as int] == term@,
                i <= tags@.len(),
                forall|j: int| 0 <= j < i ==> !occurs_in(term@, #[trigger] gs[j]),
            decreases tags@.len() - i,
        {
            proof { assert(gs[i as int] == tags@[i as int]@); }
            if contains(tags[i].as_str(), term) {
                proof { assert(term_stands(date@, text@, gs, ts[k as int])); }
                return true;
            }
            i = i + 1;
        }
        k = k + 1;
    }
    false
}

/// Whether some term matches an entry.
pub fn entry_matches(date: &str, entry: &JournalEntry, terms: &Vec<String>) -> (res: bool)
    ensures
        res == is_match(date@, entry@, texts(terms@)),
        has_plain_entry_tags(entry@),
{
    let text_lower = entry.text.as_str().to_lowercase();
    let tags_lower = lower_all(&entry.tags);
    let res = some_term_found(date, text_lower.as_str(), &tags_lower, terms);
    proof {
        let ts = texts(terms@);
        assert forall|k: int| 0 <= k < ts.len() implies term_matches(
            date@,
            entry@,
            #[trigger] ts[k],
        ) == term_stands(date@, text_lower@, texts(tags_lower@), ts[k]) by {}
    }
    res
}

/// The entries of a day that match, in their order.
pub open spec fn day_hits(
    date: Seq<char>,
    entries: Seq<EntryView>,
    terms: Seq<Seq<char>>,
) -> Seq<HitView>
    decreases entries.len(),
{
    if entries.len() == 0 {
        Seq::empty()
    } else {
        let before = day_hits(date, entries.drop_last(), terms);
        if is_match(date, entries.last(), terms) {
            before.push(HitView { date, entry: entries.last() })
        } else {
            before
        }
    }
}

/// The entries of the journal that match, day by day.
pub open spec fn journal_hits(journal: Seq<DayView>, terms: Seq<Seq<char>>) -> Seq<HitView>
    decreases journal.len(),
{
    if journal.len() == 0 {
        Seq::empty()
    } else {
        journal_hits(journal.drop_last(), terms) + day_hits(
            journal.last().key,
            journal.last().entries,
            terms,
        )
    }
}

/// Every tag of an entry has its lower case letter by letter, where it is ASCII.
pub open spec fn has_plain_entry_tags(entry: EntryView) -> bool {
    forall|i: int| 0 <= i < entry.tags.len() ==> is_lowered_by_letter(#[trigger] entry.tags[i])
}

/// Every tag of the journal has its lower case letter by letter, where it is ASCII.
pub open spec fn has_plain_tags(journal: Seq<DayView>) -> bool {
    forall|d: int, e: int|
        0 <= d < journal.len() && 0 <= e < journal[d].entries.len() ==> has_plain_entry_tags(
            #[trigger] journal[d].entries[e],
        )
}

/// Collects the entries that match, day by day.
pub fn collect_hits(journal: &Journal, terms: &Vec<String>) -> (res: Vec<Hit>)
    ensures
        hit_views(res@) == journal_hits(journal@, texts(terms@)),
        has_plain_tags(journal@),
{
    let mut res: Vec<Hit> = Vec::new();
    let ghost ts = texts(terms@);
    let mut d: usize = 0;
    proof {
        assert(journal@.take(0) =~= Seq::<DayView>::empty());
        assert(hit_views(res@) =~= Seq::<HitView>::empty());
    }
    while d < journal.days.len()
        invariant
            ts == texts(terms@),
            d <= journal.days@.len(),
            hit_views(res@) == journal_hits(journal@.take(d as int), ts),
            forall|a: int, b: int|
                0 <= a < d && 0 <= b < journal@[a].entries.len() ==> has_plain_entry_tags(
                    #[trigger] journal@[a].entries[b],
                ),
        decreases journal.days@.len() - d,
    {
        let day = &journal.days[d];
        let ghost earlier = hit_views(res@);
        let ghost list = entry_views(day.entries@);
        let mut e: usize = 0;
        proof {
            assert(list.take(0) =~= Seq::<EntryView>::empty());
            assert(earlier + Seq::<HitView>::empty() =~= earlier);
        }
        while e < day.entries.len()
            invariant
                ts == texts(terms@),
                list == entry_views(day.entries@),
                e <= day.entries@.len(),
                hit_views(res@) == earlier + day_hits(day.key@, list.take(e as int), ts),
                forall|b: int| 0 <= b < e ==> has_plain_entry_tags(#[trigger] list[b]),
            decreases day.entries@.len() - e,
        {
            let entry = &day.entries[e];
            let ghost found = hit_views(res@);
            proof {
                assert(list.take(e + 1).drop_last() =~= list.take(e as int));
                assert(list.take(e + 1).last() == entry@);
                assert(list[e as int] == entry@);
            }
            if entry_matches(day.key.as_str(), entry, terms) {
                let hit = Hit { date: day.key.clone(), entry: entry.clone() };
                let ghost h = hit@;
                res.push(hit);
                proof { assert(hit_views(res@) =~= found.push(h)); }
            }
            e = e + 1;
            proof {
                assert(hit_views(res@) =~= earlier + day_hits(day.key@, list.take(e as int), ts));
            }
        }
        proof {
            assert(list.take(list.len() as int) =~= list);
            assert(journal@.take(d + 1).drop_last() =~= journal@.take(d as int));
            assert(journal@.take(d + 1).last() == day@);
            assert(journal@[d as int].entries == list);
        }
        d = d + 1;
    }
    proof { assert(journal@.take(journal@.len() as int) =~= journal@); }
    res
}

/// `a` is of a later day than `b`, or of a later time on the same day.
pub open spec fn is_newer(a: HitView, b: HitView) -> bool {
    precedes(b.date, a.date) || (a.date == b.date && precedes(b.entry.time, a.entry.time))
}

fn newer(a: &Hit, b: &Hit) -> (res: bool)
    ensures
        res == is_newer(a@, b@),
{
    is_before(b.date.as_str(), a.date.as_str()) || (is_same(a.date.as_str(), b.date.as_str())
        && is_before(b.entry.time.as_str(), a.entry.time.as_str()))
}

/// A ranked list with one more hit: behind every hit that is not older.
pub open spec fn placed(ranked: Seq<HitView>, hit: HitView) -> Seq<HitView>
    decreases ranked.len(),
{
    if ranked.len() == 0 || !is_newer(hit, ranked.last()) {
        ranked.push(hit)
    } else {
        placed(ranked.drop_last(), hit).push(ranked.last())
    }
}

/// The hits from the newest to the oldest; hits of one day and time keep their order.
pub open spec fn newest_first(hits: Seq<HitView>) -> Seq<HitView>
    decreases hits.len(),
{
    if hits.len() == 0 {
        Seq::empty()
    } else {
        placed(newest_first(hits.drop_last()), hits.last())
    }
}

/// Two ranked lists as one; of hits of one day and time those of the first list come first.
pub open spec fn merged(a: Seq<HitView>, b: Seq<HitView>) -> Seq<HitView>
    decreases a.len() + b.len(),
{
    if a.len() == 0 {
        b
    } else if b.len() == 0 {
        a
    } else if is_newer(b.last(), a.last()) {
        merged(a.drop_last(), b).push(a.last())
    } else {
        merged(a, b.drop_last()).push(b.last())
    }
}

/// What is newer than one is newer than all that are not newer than that one.
pub proof fn newer_steps(a: HitView, b: HitView, c: HitView)
    requires
        is_newer(a, b),
        !is_newer(c, b),
    ensures
        is_newer(a, c),
{
    precedes_total(b.date, c.date);
    precedes_total(b.entry.time, c.entry.time);
    if precedes(b.date, a.date) && precedes(c.date, b.date) {
        precedes_transitive(c.date, b.date, a.date);
    }
    if precedes(b.entry.time, a.entry.time) && precedes(c.entry.time, b.entry.time) {
        precedes_transitive(c.entry.time, b.entry.time, a.entry.time);
    }
}

/// Nothing is newer than itself.
pub proof fn newer_irreflexive(a: HitView)
    ensures
        !is_newer(a, a),
{
    precedes_irreflexive(a.date);
    precedes_irreflexive(a.entry.time);
}

/// Of two hits at most one is newer than the other.
pub proof fn newer_asymmetric(a: HitView, b: HitView)
    requires
        is_newer(a, b),
    ensures
        !is_newer(b, a),
{
    if is_newer(b, a) {
        newer_irreflexive(a);
        if precedes(b.date, a.date) && precedes(a.date, b.date) {
            precedes_transitive(a.date, b.date, a.date);
        } else if a.date == b.date {
            precedes_irreflexive(a.date);
            precedes_transitive(a.entry.time, b.entry.time, a.entry.time);
        }
    }
}

/// A hit can be placed before two lists are merged or after.
proof fn merging_placed(a: Seq<HitView>, b: Seq<HitView>, hit: HitView)
    ensures
        merged(a, placed(b, hit)) == placed(merged(a, b), hit),
    decreases a.len() + b.len(),
{
    if a.len() > 0 {
        let x = a.last();
        let front = a.drop_last();
        if b.len() == 0 || !is_newer(hit, b.last()) {
            assert(b.push(hit).drop_last() =~= b);
            if is_newer(hit, x) {
                merging_placed(front, b, hit);
                if b.len() > 0 {
                    if !is_newer(b.last(), x) {
                        newer_steps(hit, x, b.last());
                    }
                } else {
                    assert(merged(front, b) =~= front);
                }
                assert(merged(a, b) =~= merged(front, b).push(x));
                assert(merged(front, b).push(x).drop_last() =~= merged(front, b));
            }
        } else {
            let y = b.last();
            let rest = b.drop_last();
            assert(placed(rest, hit).push(y).drop_last() =~= placed(rest, hit));
            if is_newer(y, x) {
                merging_placed(front, b, hit);
                newer_asymmetric(y, x);
                newer_steps(hit, y, x);
                assert(merged(front, b).push(x).drop_last() =~= merged(front, b));
            } else {
                merging_placed(a, rest, hit);
                assert(merged(a, rest).push(y).drop_last() =~= merged(a, rest));
            }
        }
    }
}

/// Two halves that are ranked by themselves and merged are ranked as a whole.
proof fn ranking_halves(a: Seq<HitView>, b: Seq<HitView>)
    ensures
        newest_first(a + b) == merged(newest_first(a), newest_first(b)),
    decreases b.len(),
{
    if b.len() == 0 {
        assert(a + b =~= a);
        assert(merged(newest_first(a), newest_first(b)) =~= newest_first(a));
    } else {
        let front = b.drop_last();
        ranking_halves(a, front);
        assert((a + b).drop_last() =~= a + front);
        merging_placed(newest_first(a), newest_first(front), b.last());
    }
}

fn merge(first: Vec<Hit>, second: Vec<Hit>) -> (res: Vec<Hit>)
    ensures
        hit_views(res@) == merged(hit_views(first@), hit_views(second@)),
{
    let ghost whole = merged(hit_views(first@), hit_views(second@));
    let mut a = first;
    let mut b = second;
    let mut backwards: Vec<Hit> = Vec::new();
    proof {
        assert(hit_views(backwards@).reverse() =~= Seq::<HitView>::empty());
        assert(whole + Seq::<HitView>::empty() =~= whole);
    }
    while a.len() > 0 || b.len() > 0
        invariant
            whole == merged(hit_views(a@), hit_views(b@)) + hit_views(backwards@).reverse(),
        decreases a@.len() + b@.len(),
    {
        let ghost (x, y) = (hit_views(a@), hit_views(b@));
        let ghost tail = hit_views(backwards@);
        let from_first = b.len() == 0 || (a.len() > 0 && newer(
            &b[b.len() - 1],
            &a[a.len() - 1],
        ));
        let next = if from_first {
            a.pop()
        } else {
            b.pop()
        };
        if let Some(hit) = next {
            let ghost h = hit@;
            backwards.push(hit);
            proof {
                if from_first {
                    assert(hit_views(a@) =~= x.drop_last());
                    assert(hit_views(b@) =~= y);
                    assert(h == x.last());
                    assert(merged(x, y) =~= merged(x.drop_last(), y).push(h));
                } else {
                    assert(hit_views(b@) =~= y.drop_last());
                    assert(hit_views(a@) =~= x);
                    assert(h == y.last());
                    assert(merged(x, y) =~= merged(x, y.drop_last()).push(h));
                }
                assert(hit_views(backwards@) =~= tail.push(h));
                assert(merged(hit_views(a@), hit_views(b@)).push(h) + tail.reverse() =~= merged(
                    hit_views(a@),
                    hit_views(b@),
                ) + tail.push(h).reverse());
            }
        }
    }
    proof { assert(whole =~= hit_views(backwards@).reverse()); }
    let mut res: Vec<Hit> = Vec::new();
    proof { assert(hit_views(res@) =~= Seq::<HitView>::empty()); }
    while backwards.len() > 0
        invariant
            whole == hit_views(res@) + hit_views(backwards@).reverse(),
        decreases backwards@.len(),
    {
        let ghost left = hit_views(backwards@);
        let ghost done = hit_views(res@);
        if let Some(hit) = backwards.pop() {
            let ghost h = hit@;
            res.push(hit);
            proof {
                assert(hit_views(backwards@) =~= left.drop_last());
                assert(hit_views(res@) =~= done.push(h));
                assert(done + left.reverse() =~= done.push(h) + left.drop_last().reverse());
            }
        }
    }
    proof { assert(whole =~= hit_views(res@)); }
    res
}

/// Puts hits in order, the newest first.
pub fn rank(hits: Vec<Hit>) -> (res: Vec<Hit>)
    ensures
        hit_views(res@) == newest_first(hit_views(hits@)),
    decreases hits@.len(),
{
    let ghost all = hit_views(hits@);
    if hits.len() < 2 {
        proof {
            reveal_with_fuel(newest_first, 2);
            if all.len() == 1 {
                assert(all.drop_last() =~= Seq::<HitView>::empty());
                assert(placed(Seq::<HitView>::empty(), all.last()) =~= all);
            } else {
                assert(all =~= Seq::<HitView>::empty());
            }
        }
        return hits;
    }
    let mut first = hits;
    let half: usize = first.len() / 2;
    let second = first.split_off(half);
    proof {
        assert(hit_views(first@) + hit_views(second@) =~= all);
        ranking_halves(hit_views(first@), hit_views(second@));
    }
    merge(rank(first), rank(second))
}

/// The results of a search: what matches, the newest first.
pub open spec fn results_for(journal: Seq<DayView>, terms: Seq<Seq<char>>) -> Seq<HitView> {
    newest_first(journal_hits(journal, terms))
}

/// Among the results is every entry of the journal that has `tag` for a tag.
pub open spec fn holds_tagged(
    results: Seq<HitView>,
    journal: Seq<DayView>,
    tag: Seq<char>,
) -> bool {
    forall|date: Seq<char>, entry: EntryView|
        entries_of(journal, date).contains(entry) && entry.tags.contains(tag)
            ==> #[trigger] results.contains(HitView { date, entry })
}

/// Without terms nothing is found.
pub proof fn no_terms_no_hits(journal: Seq<DayView>, terms: Seq<Seq<char>>)
    requires
        terms.len() == 0,
    ensures
        journal_hits(journal, terms) == Seq::<HitView>::empty(),
        results_for(journal, terms) == Seq::<HitView>::empty(),
    decreases journal.len(),
{
    if journal.len() > 0 {
        no_terms_no_hits(journal.drop_last(), terms);
        no_terms_no_day_hits(journal.last().key, journal.last().entries, terms);
        assert(journal_hits(journal, terms) =~= Seq::<HitView>::empty());
    }
}

proof fn no_terms_no_day_hits(date: Seq<char>, entries: Seq<EntryView>, terms: Seq<Seq<char>>)
    requires
        terms.len() == 0,
    ensures
        day_hits(date, entries, terms) == Seq::<HitView>::empty(),
    decreases entries.len(),
{
    if entries.len() > 0 {
        no_terms_no_day_hits(date, entries.drop_last(), terms);
    }
}

} // verus!
