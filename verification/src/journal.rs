//! What is kept on disk: journal entries by day, and tasks.
use crate::text::{
    copy_texts, is_before, is_same, precedes, precedes_irreflexive, precedes_total,
    precedes_transitive, texts,
};
use vstd::prelude::*;

verus! {

/// One line of the journal.
#[derive(Debug)]
pub struct JournalEntry {
    /// The time of day, as `HH:MM`.
    pub time: String,
    pub text: String,
    pub tags: Vec<String>,
}

#[verifier::ext_equal]
pub struct EntryView {
    pub time: Seq<char>,
    pub text: Seq<char>,
    pub tags: Seq<Seq<char>>,
}

impl View for JournalEntry {
    type V = EntryView;

    open spec fn view(&self) -> EntryView {
        EntryView { time: self.time@, text: self.text@, tags: texts(self.tags@) }
    }
}

impl Clone for JournalEntry {
    fn clone(&self) -> (res: JournalEntry)
        ensures
            res@ == self@,
    {
        JournalEntry {
            time: self.time.clone(),
            text: self.text.clone(),
            tags: copy_texts(&self.tags),
        }
    }
}

/// Something to be done.
#[derive(Debug)]
pub struct Task {
    pub id: u64,
    pub text: String,
    /// When the task was made, as `YYYY-MM-DDTHH:MM:SS`.
    pub created_at: String,
    /// When the task was done, in the same form.
    pub completed_at: Option<String>,
    pub tags: Vec<String>,
}

#[verifier::ext_equal]
pub struct TaskView {
    pub id: u64,
    pub text: Seq<char>,
    pub created_at: Seq<char>,
    pub completed_at: Option<Seq<char>>,
    pub tags: Seq<Seq<char>>,
}

impl View for Task {
    type V = TaskView;

    open spec fn view(&self) -> TaskView {
        TaskView {
            id: self.id,
            text: self.text@,
            created_at: self.created_at@,
            completed_at: match self.completed_at {
                Some(s) => Some(s@),
                None => None,
            },
            tags: texts(self.tags@),
        }
    }
}

/// The entries of one day.
#[derive(Debug)]
pub struct Day {
    /// The date, as `YYYY_MM_DD`.
    pub key: String,
    pub entries: Vec<JournalEntry>,
}

#[verifier::ext_equal]
pub struct DayView {
    pub key: Seq<char>,
    pub entries: Seq<EntryView>,
}

pub open spec fn entry_views(entries: Seq<JournalEntry>) -> Seq<EntryView> {
    Seq::new(entries.len(), |i: int| entries[i]@)
}

pub open spec fn task_views(tasks: Seq<Task>) -> Seq<TaskView> {
    Seq::new(tasks.len(), |i: int| tasks[i]@)
}

impl View for Day {
    type V = DayView;

    open spec fn view(&self) -> DayView {
        DayView { key: self.key@, entries: entry_views(self.entries@) }
    }
}

/// The journal: one list of entries for each day, the days in the order of their keys.
#[derive(Debug)]
pub struct Journal {
    pub days: Vec<Day>,
}

impl View for Journal {
    type V = Seq<DayView>;

    open spec fn view(&self) -> Seq<DayView> {
        Seq::new(self.days@.len(), |i: int| self.days@[i]@)
    }
}

/// The keys ascend, so that none stands twice.
pub open spec fn is_ordered(journal: Seq<DayView>) -> bool {
    forall|i: int, j: int|
        #![trigger journal[i], journal[j]]
        0 <= i < j < journal.len() ==> precedes(journal[i].key, journal[j].key)
}

/// How many days come before `key`.
pub open spec fn position(journal: Seq<DayView>, key: Seq<char>) -> int
    decreases journal.len(),
{
    if journal.len() > 0 && precedes(journal[0].key, key) {
        1 + position(journal.drop_first(), key)
    } else {
        0
    }
}

/// The journal has a list for `key`.
pub open spec fn has_day(journal: Seq<DayView>, key: Seq<char>) -> bool {
    let p = position(journal, key);
    p < journal.len() && journal[p].key == key
}

/// The entries under `key`; none where the journal has no list for it.
pub open spec fn entries_of(journal: Seq<DayView>, key: Seq<char>) -> Seq<EntryView> {
    if has_day(journal, key) {
        journal[position(journal, key)].entries
    } else {
        Seq::empty()
    }
}

/// The journal whose list for `key` is `entries`.
pub open spec fn with_day(
    journal: Seq<DayView>,
    key: Seq<char>,
    entries: Seq<EntryView>,
) -> Seq<DayView> {
    let p = position(journal, key);
    let day = DayView { key, entries };
    if has_day(journal, key) {
        journal.update(p, day)
    } else {
        journal.insert(p, day)
    }
}

/// The journal with one more entry at the end of the list for `key`.
pub open spec fn with_entry(journal: Seq<DayView>, key: Seq<char>, entry: EntryView) -> Seq<
    DayView,
> {
    with_day(journal, key, entries_of(journal, key).push(entry))
}

/// Where a key stands among the days, in terms of the order alone.
pub proof fn position_bounds(journal: Seq<DayView>, key: Seq<char>)
    requires
        is_ordered(journal),
    ensures
        0 <= position(journal, key) <= journal.len(),
        forall|i: int|
            #![trigger journal[i]]
            0 <= i < position(journal, key) ==> precedes(journal[i].key, key),
        forall|i: int|
            #![trigger journal[i]]
            position(journal, key) <= i < journal.len() ==> !precedes(journal[i].key, key),
    decreases journal.len(),
{
    if journal.len() > 0 {
        let rest = journal.drop_first();
        assert(is_ordered(rest)) by {
            assert forall|i: int, j: int| 0 <= i < j < rest.len() implies precedes(
                #[trigger] rest[i].key,
                #[trigger] rest[j].key,
            ) by {
                assert(rest[i] == journal[i + 1] && rest[j] == journal[j + 1]);
            }
        }
        if precedes(journal[0].key, key) {
            position_bounds(rest, key);
            let p = position(rest, key);
            assert forall|i: int| 0 <= i < p + 1 implies precedes(
                #[trigger] journal[i].key,
                key,
            ) by {
                if i > 0 {
                    assert(journal[i] == rest[i - 1]);
                }
            }
            assert forall|i: int| p + 1 <= i < journal.len() implies !precedes(
                #[trigger] journal[i].key,
                key,
            ) by {
                assert(journal[i] == rest[i - 1]);
            }
        } else {
            assert forall|i: int| 0 <= i < journal.len() implies !precedes(
                #[trigger] journal[i].key,
                key,
            ) by {
                if i > 0 && precedes(journal[i].key, key) {
                    precedes_transitive(journal[0].key, journal[i].key, key);
                }
            }
        }
    }
}

/// A position is known by its two sides.
pub proof fn position_is(journal: Seq<DayView>, key: Seq<char>, p: int)
    requires
        is_ordered(journal),
        0 <= p <= journal.len(),
        forall|i: int| #![trigger journal[i]] 0 <= i < p ==> precedes(journal[i].key, key),
        p < journal.len() ==> !precedes(journal[p].key, key),
    ensures
        position(journal, key) == p,
{
    position_bounds(journal, key);
    let q = position(journal, key);
    if q < p {
        assert(precedes(journal[q].key, key));
    } else if p < q {
        assert(precedes(journal[p].key, key));
    }
}

/// A day's key is found where the day stands.
pub proof fn position_of_day(journal: Seq<DayView>, i: int)
    requires
        is_ordered(journal),
        0 <= i < journal.len(),
    ensures
        position(journal, journal[i].key) == i,
        has_day(journal, journal[i].key),
        entries_of(journal, journal[i].key) == journal[i].entries,
{
    precedes_irreflexive(journal[i].key);
    position_is(journal, journal[i].key, i);
}

impl Journal {
    /// The keys ascend.
    pub open spec fn wf(&self) -> bool {
        is_ordered(self@)
    }

    /// A journal without entries.
    pub fn new() -> (res: Journal)
        ensures
            res.wf(),
            res@ == Seq::<DayView>::empty(),
    {
        let res = Journal { days: Vec::new() };
        proof { assert(res@ =~= Seq::<DayView>::empty()); }
        res
    }

    fn find(&self, key: &str) -> (res: usize)
        requires
            self.wf(),
        ensures
            res == position(self@, key@),
            res <= self.days@.len(),
    {
        let n: usize = self.days.len();
        let mut i: usize = 0;
        while i < n && is_before(self.days[i].key.as_str(), key)
            invariant
                i <= n,
                n == self.days@.len(),
                forall|k: int|
                    #![trigger self@[k]]
                    0 <= k < i ==> precedes(self@[k].key, key@),
            decreases n - i,
        {
            i = i + 1;
        }
        proof { position_is(self@, key@, i as int); }
        i
    }

    /// The list for `key`, where there is one.
    pub fn entries(&self, key: &str) -> (res: Option<&Vec<JournalEntry>>)
        requires
            self.wf(),
        ensures
            res is Some <==> has_day(self@, key@),
            res matches Some(list) ==> entry_views(list@) == entries_of(self@, key@),
    {
        let p = self.find(key);
        if p < self.days.len() && is_same(self.days[p].key.as_str(), key) {
            Some(&self.days[p].entries)
        } else {
            None
        }
    }

    /// Puts `entries` in place of the list for `key`, or in their place among the days.
    pub fn insert(&mut self, key: String, entries: Vec<JournalEntry>)
        requires
            old(self).wf(),
        ensures
            final(self).wf(),
            final(self)@ == with_day(old(self)@, key@, entry_views(entries@)),
    {
        let p = self.find(key.as_str());
        let ghost before = self@;
        let ghost day = DayView { key: key@, entries: entry_views(entries@) };
        proof { with_day_is_ordered(before, key@, day.entries); }
        if p < self.days.len() && is_same(self.days[p].key.as_str(), key.as_str()) {
            self.days.set(p, Day { key, entries });
            proof { assert(self@ =~= before.update(p as int, day)); }
        } else {
            self.days.insert(p, Day { key, entries });
            proof { assert(self@ =~= before.insert(p as int, day)); }
        }
    }

    /// Adds an entry at the end of the list for `key`, which is made if need be.
    pub fn push(&mut self, key: String, entry: JournalEntry)
        requires
            old(self).wf(),
        ensures
            final(self).wf(),
            final(self)@ == with_entry(old(self)@, key@, entry@),
    {
        let p = self.find(key.as_str());
        let ghost before = self@;
        let ghost grown = entries_of(before, key@).push(entry@);
        let ghost day = DayView { key: key@, entries: grown };
        proof { with_day_is_ordered(before, key@, grown); }
        if p < self.days.len() && is_same(self.days[p].key.as_str(), key.as_str()) {
            let ghost list = self.days@[p as int].entries@;
            self.days[p].entries.push(entry);
            proof {
                assert(entry_views(list.push(entry)) =~= grown);
                assert(self@ =~= before.update(p as int, day));
            }
        } else {
            let mut list: Vec<JournalEntry> = Vec::new();
            list.push(entry);
            proof { assert(entry_views(list@) =~= grown); }
            self.days.insert(p, Day { key, entries: list });
            proof { assert(self@ =~= before.insert(p as int, day)); }
        }
    }
}

/// All that is kept on disk.
#[derive(Debug)]
pub struct DataFile {
    pub journal: Journal,
    pub tasks: Vec<Task>,
}

impl Default for DataFile {
    /// Neither entries nor tasks.
    fn default() -> (res: DataFile)
        ensures
            res.journal.wf(),
            res.journal@ == Seq::<DayView>::empty(),
            res.tasks@ == Seq::<Task>::empty(),
    {
        DataFile { journal: Journal::new(), tasks: Vec::new() }
    }
}

/// The order of the days survives a change of one list.
pub proof fn with_day_is_ordered(journal: Seq<DayView>, key: Seq<char>, entries: Seq<EntryView>)
    requires
        is_ordered(journal),
    ensures
        is_ordered(with_day(journal, key, entries)),
{
    position_bounds(journal, key);
    let p = position(journal, key);
    let after = with_day(journal, key, entries);
    if has_day(journal, key) {
        assert forall|i: int, j: int| 0 <= i < j < after.len() implies precedes(
            #[trigger] after[i].key,
            #[trigger] after[j].key,
        ) by {
            assert(after[i].key == journal[i].key);
            assert(after[j].key == journal[j].key);
        }
    } else {
        assert forall|i: int, j: int| 0 <= i < j < after.len() implies precedes(
            #[trigger] after[i].key,
            #[trigger] after[j].key,
        ) by {
            if i < p {
                assert(after[i] == journal[i]);
            } else if i > p {
                assert(after[i] == journal[i - 1]);
            }
            if j < p {
                assert(after[j] == journal[j]);
            } else if j > p {
                assert(after[j] == journal[j - 1]);
            }
            if i == p {
                let next = journal[p];
                precedes_total(next.key, key);
                if j - 1 > p {
                    precedes_transitive(key, next.key, journal[j - 1].key);
                }
            }
        }
    }
}

} // verus!
