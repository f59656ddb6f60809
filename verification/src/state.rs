//! The state of the notebook and what can be done to it.
use crate::calendar::{
    clock_text, date_before, date_key, hours_after, is_earlier, local_now, read_stamp, stamp_date,
    stamp_text, time_text, weekday_of, LocalReading, Moment, TimeOfDay, TimeReading, LAST_SECOND,
};
use crate::journal::{
    entries_of, entry_views, is_ordered, task_views, with_day_is_ordered, with_entry, DataFile,
    DayView, EntryView, JournalEntry, Task, TaskView,
};
use crate::laws::notebook::law_day_is_clocked_in;
use crate::laws::searching::query_finds_tagged;
use crate::search::{
    collect_hits, copy_hits, hit_views, holds_tagged, is_one_term, is_plain_term, no_terms_no_hits,
    parse_terms, query_terms, rank, results_for, Hit, HitView,
};
use crate::text::{copy_texts, has_prefix, is_ascii_text, lowercased, starts_with, texts};
use vstd::prelude::*;

verus! {

/// The part of the screen that the keys go to.
#[derive(Clone, Copy, Debug, PartialEq, Eq, Structural)]
pub enum Focus {
    Entry,
    Tasks,
    /// The input line of the search.
    Search,
    /// The list of results.
    Results,
    Journal,
}

/// The focus that comes next: entry, tasks, search, results, journal, and round again.
pub open spec fn next_focus(f: Focus) -> Focus {
    match f {
        Focus::Entry => Focus::Tasks,
        Focus::Tasks => Focus::Search,
        Focus::Search => Focus::Results,
        Focus::Results => Focus::Journal,
        Focus::Journal => Focus::Entry,
    }
}

/// The focus that comes before.
pub open spec fn prev_focus(f: Focus) -> Focus {
    match f {
        Focus::Entry => Focus::Journal,
        Focus::Tasks => Focus::Entry,
        Focus::Search => Focus::Tasks,
        Focus::Results => Focus::Search,
        Focus::Journal => Focus::Results,
    }
}

impl Focus {
    pub fn next(self) -> (res: Focus)
        ensures
            res == next_focus(self),
    {
        match self {
            Focus::Entry => Focus::Tasks,
            Focus::Tasks => Focus::Search,
            Focus::Search => Focus::Results,
            Focus::Results => Focus::Journal,
            Focus::Journal => Focus::Entry,
        }
    }

    pub fn prev(self) -> (res: Focus)
        ensures
            res == prev_focus(self),
    {
        match self {
            Focus::Entry => Focus::Journal,
            Focus::Tasks => Focus::Entry,
            Focus::Search => Focus::Tasks,
            Focus::Results => Focus::Search,
            Focus::Journal => Focus::Results,
        }
    }
}

/// Where the items of the popup come from.
#[derive(Clone, Copy, Debug, PartialEq, Eq, Structural)]
pub enum SelectionSource {
    Search,
    Journal,
}

/// Why a day could not be clocked in.
#[derive(Clone, Copy, Debug, PartialEq, Eq, Structural)]
pub enum ClockError {
    /// The calendar ends before the hours of work are over.
    CalendarEnds,
}

/// What a list on the screen remembers: the selected row, and the first row in view.
#[derive(Clone, Copy, Debug, PartialEq, Eq, Structural)]
pub struct ListState {
    pub selected: Option<usize>,
    pub offset: usize,
}

impl ListState {
    /// Nothing selected, in view from the top.
    pub fn new() -> (res: ListState)
        ensures
            res == (ListState { selected: None, offset: 0 }),
    {
        ListState { selected: None, offset: 0 }
    }

    /// The list with another row selected; without a selection it goes back to the top.
    pub open spec fn selecting(self, index: Option<usize>) -> ListState {
        ListState {
            selected: index,
            offset: if index is None {
                0
            } else {
                self.offset
            },
        }
    }

    /// Selects a row, or none.
    pub fn select(&mut self, index: Option<usize>)
        ensures
            *final(self) == old(self).selecting(index),
    {
        self.selected = index;
        if index.is_none() {
            self.offset = 0;
        }
    }
}

/// The state of the notebook.
#[derive(Debug)]
pub struct AppState {
    pub data: DataFile,
    pub focus: Focus,
    pub entry_buffer: String,
    pub entry_scroll: u16,
    pub journal_scroll: usize,
    pub tasks_scroll: usize,
    pub search_input: String,
    pub search_results: Vec<Hit>,
    pub search_scroll: usize,
    pub search_selected_detail: Option<Hit>,
    pub next_task_id: u64,
    pub location: String,
    pub tasks_state: ListState,
    pub search_state: ListState,
    pub journal_state: ListState,
    pub show_selection: bool,
    pub selection_source: Option<SelectionSource>,
    pub selection_items: Vec<Hit>,
    pub selection_state: ListState,
}

#[verifier::ext_equal]
pub struct AppView {
    pub journal: Seq<DayView>,
    pub tasks: Seq<TaskView>,
    pub focus: Focus,
    pub entry_buffer: Seq<char>,
    pub entry_scroll: u16,
    pub journal_scroll: usize,
    pub tasks_scroll: usize,
    pub search_input: Seq<char>,
    pub search_results: Seq<HitView>,
    pub search_scroll: usize,
    pub search_selected_detail: Option<HitView>,
    pub next_task_id: u64,
    pub location: Seq<char>,
    pub tasks_state: ListState,
    pub search_state: ListState,
    pub journal_state: ListState,
    pub show_selection: bool,
    pub selection_source: Option<SelectionSource>,
    pub selection_items: Seq<HitView>,
    pub selection_state: ListState,
}

impl View for AppState {
    type V = AppView;

    open spec fn view(&self) -> AppView {
        AppView {
            journal: self.data.journal@,
            tasks: task_views(self.data.tasks@),
            focus: self.focus,
            entry_buffer: self.entry_buffer@,
            entry_scroll: self.entry_scroll,
            journal_scroll: self.journal_scroll,
            tasks_scroll: self.tasks_scroll,
            search_input: self.search_input@,
            search_results: hit_views(self.search_results@),
            search_scroll: self.search_scroll,
            search_selected_detail: match self.search_selected_detail {
                Some(h) => Some(h@),
                None => None,
            },
            next_task_id: self.next_task_id,
            location: self.location@,
            tasks_state: self.tasks_state,
            search_state: self.search_state,
            journal_state: self.journal_state,
            show_selection: self.show_selection,
            selection_source: self.selection_source,
            selection_items: hit_views(self.selection_items@),
            selection_state: self.selection_state,
        }
    }
}

/// The last row of a list, and 0 for an empty one.
pub open spec fn last_row(len: nat) -> usize {
    if len == 0 {
        0
    } else {
        (len - 1) as usize
    }
}

/// The row `at`, or the last one where `at` lies behind it.
pub open spec fn row_within(at: usize, len: nat) -> usize {
    if at < len {
        at
    } else {
        last_row(len)
    }
}

/// The id for the next task: above every id, and at least 1.
pub open spec fn next_id(tasks: Seq<TaskView>) -> int
    decreases tasks.len(),
{
    if tasks.len() == 0 {
        1
    } else {
        let n = next_id(tasks.drop_last());
        if tasks.last().id >= n {
            tasks.last().id + 1
        } else {
            n
        }
    }
}

/// The tags of what is written at `location`.
pub open spec fn location_tags(location: Seq<char>) -> Seq<Seq<char>> {
    if location.len() == 0 {
        Seq::empty()
    } else {
        seq![location]
    }
}

/// Among the entries is one that clocks in.
pub open spec fn has_clock_entry(entries: Seq<EntryView>) -> bool {
    exists|i: int|
        0 <= i < entries.len() && has_prefix((#[trigger] entries[i]).text, "Clock-in:"@)
}

/// The hours of work of a day: nine on Monday and Tuesday, and otherwise eight.
pub open spec fn work_hours(weekday: int) -> int {
    if weekday == 0 || weekday == 1 {
        9
    } else {
        8
    }
}

/// The text of a clock entry.
pub open spec fn clock_entry_text(clock_in: Moment, clock_out: TimeOfDay) -> Seq<char> {
    "Clock-in: "@ + clock_text(clock_in) + ", Clock-out: "@ + time_text(clock_out)
}

/// The hours of work are over before the calendar ends.
pub open spec fn day_can_end(now: LocalReading) -> bool {
    now.unix + work_hours(now.local.weekday()) * 3600 <= LAST_SECOND
}

/// A task that was done is kept on the day of its completion and before it, and where that
/// day cannot be told.
pub open spec fn keeps_done(read: Option<(i32, u32, u32)>, today: (i32, u32, u32)) -> bool {
    read matches Some(date) ==> !date_before(date, today)
}

/// A task is kept while it is open, and after that by the day of its completion.
pub open spec fn is_kept(task: TaskView, today: (i32, u32, u32)) -> bool {
    task.completed_at matches Some(stamp) ==> keeps_done(stamp_date(stamp), today)
}

/// The tasks that are kept, in their order.
pub open spec fn kept_tasks(tasks: Seq<TaskView>, today: (i32, u32, u32)) -> Seq<TaskView>
    decreases tasks.len(),
{
    if tasks.len() == 0 {
        Seq::empty()
    } else if is_kept(tasks.last(), today) {
        kept_tasks(tasks.drop_last(), today).push(tasks.last())
    } else {
        kept_tasks(tasks.drop_last(), today)
    }
}

/// The entries of a day from the last to the first, each with the key of the day.
pub open spec fn latest_first(key: Seq<char>, entries: Seq<EntryView>) -> Seq<HitView> {
    Seq::new(
        entries.len(),
        |i: int| HitView { date: key, entry: entries[entries.len() - 1 - i] },
    )
}

/// The state at the start of a session.
pub open spec fn initial(
    journal: Seq<DayView>,
    tasks: Seq<TaskView>,
    location: Seq<char>,
) -> AppView {
    let none = ListState { selected: None, offset: 0 };
    AppView {
        journal,
        tasks,
        focus: Focus::Entry,
        entry_buffer: Seq::empty(),
        entry_scroll: 0,
        journal_scroll: 0,
        tasks_scroll: 0,
        search_input: Seq::empty(),
        search_results: Seq::empty(),
        search_scroll: 0,
        search_selected_detail: None,
        next_task_id: next_id(tasks) as u64,
        location,
        tasks_state: if tasks.len() == 0 {
            none
        } else {
            none.selecting(Some(0))
        },
        search_state: none,
        journal_state: none,
        show_selection: false,
        selection_source: None,
        selection_items: Seq::empty(),
        selection_state: none,
    }
}

impl AppView {
    /// The days are in order, every task has an id below the next one, the task under the
    /// cursor exists, and the popup selects an item that it has.
    pub open spec fn wf(self) -> bool {
        &&& is_ordered(self.journal)
        &&& self.next_task_id >= 1
        &&& forall|i: int|
            0 <= i < self.tasks.len() ==> (#[trigger] self.tasks[i]).id < self.next_task_id
        &&& self.tasks_scroll == row_within(self.tasks_scroll, self.tasks.len())
        &&& self.selection_state.selected matches Some(i) ==> i < self.selection_items.len()
    }

    /// With one more journal entry, under the day and with the time of `now`.
    pub open spec fn with_entry_at(
        self,
        now: Moment,
        text: Seq<char>,
        tags: Seq<Seq<char>>,
    ) -> AppView {
        AppView {
            journal: with_entry(
                self.journal,
                date_key(now),
                EntryView { time: clock_text(now), text, tags },
            ),
            ..self
        }
    }

    /// With one more open task, made at `now`.
    pub open spec fn with_task_at(
        self,
        now: Moment,
        text: Seq<char>,
        tags: Seq<Seq<char>>,
    ) -> AppView {
        let task = TaskView {
            id: self.next_task_id,
            text,
            created_at: stamp_text(now),
            completed_at: None,
            tags,
        };
        AppView {
            tasks: self.tasks.push(task),
            next_task_id: (self.next_task_id + 1) as u64,
            tasks_scroll: row_within(self.tasks_scroll, self.tasks.len() + 1),
            ..self
        }
    }

    /// With task `idx` done at `now` and a journal entry that says so. A task that is done
    /// already, and a row that is none, change nothing.
    pub open spec fn with_task_done_at(self, idx: int, now: Moment) -> AppView {
        if 0 <= idx < self.tasks.len() && self.tasks[idx].completed_at is None {
            let task = self.tasks[idx];
            let done = TaskView { completed_at: Some(stamp_text(now)), ..task };
            AppView { tasks: self.tasks.update(idx, done), ..self }.with_entry_at(
                now,
                "DONE: "@ + task.text,
                task.tags,
            )
        } else {
            self
        }
    }

    /// With the day's clock entry, unless the day has one.
    pub open spec fn with_clock_entry(self, now: Moment, clock_out: TimeOfDay) -> AppView {
        if has_clock_entry(entries_of(self.journal, date_key(now))) {
            self
        } else {
            self.with_entry_at(
                now,
                clock_entry_text(now, clock_out),
                location_tags(self.location),
            )
        }
    }

    /// Without the tasks that were done before `today`.
    pub open spec fn pruned(self, today: (i32, u32, u32)) -> AppView {
        let tasks = kept_tasks(self.tasks, today);
        AppView { tasks, tasks_scroll: row_within(self.tasks_scroll, tasks.len()), ..self }
    }

    /// With the results of the query in the search input, the first one selected.
    pub open spec fn searched(self) -> AppView {
        let results = results_for(self.journal, query_terms(self.search_input));
        AppView {
            search_selected_detail: None,
            search_results: results,
            search_scroll: 0,
            search_state: self.search_state.selecting(
                if results.len() == 0 {
                    None
                } else {
                    Some(0)
                },
            ),
            ..self
        }
    }

    /// With the popup open on the search results, at the row of the results list.
    pub open spec fn showing_results(self) -> AppView {
        let items = self.search_results;
        AppView {
            show_selection: true,
            selection_source: Some(SelectionSource::Search),
            selection_items: items,
            selection_state: self.selection_state.selecting(
                if items.len() == 0 {
                    None
                } else {
                    Some(row_within(self.search_scroll, items.len()))
                },
            ),
            search_state: if items.len() == 0 {
                self.search_state
            } else {
                self.search_state.selecting(Some(self.search_scroll))
            },
            ..self
        }
    }

    /// With the popup open on the entries of the day of `now`, the latest first.
    pub open spec fn showing_day(self, now: Moment) -> AppView {
        let items = latest_first(date_key(now), entries_of(self.journal, date_key(now)));
        AppView {
            show_selection: true,
            selection_source: Some(SelectionSource::Journal),
            selection_items: items,
            selection_state: self.selection_state.selecting(
                if items.len() == 0 {
                    None
                } else {
                    Some(row_within(self.journal_scroll, items.len()))
                },
            ),
            journal_state: if items.len() == 0 {
                self.journal_state
            } else {
                self.journal_state.selecting(Some(self.journal_scroll))
            },
            ..self
        }
    }

    /// With the popup closed.
    pub open spec fn popup_closed(self) -> AppView {
        AppView {
            show_selection: false,
            selection_source: None,
            selection_state: self.selection_state.selecting(None),
            ..self
        }
    }

    /// The row of the popup that lies `delta` rows on, kept within the list.
    pub open spec fn popup_row(self, delta: int) -> usize {
        let row = (match self.selection_state.selected {
            Some(i) => i as int,
            None => 0,
        }) + delta;
        if row < 0 {
            0
        } else if row < self.selection_items.len() {
            row as usize
        } else {
            last_row(self.selection_items.len())
        }
    }

    /// With the selection of the popup moved by `delta` rows, and the list that it came
    /// from moved to the same row.
    pub open spec fn popup_moved(self, delta: int) -> AppView {
        if self.selection_items.len() == 0 {
            AppView { selection_state: self.selection_state.selecting(None), ..self }
        } else {
            let row = self.popup_row(delta);
            let moved = AppView {
                selection_state: self.selection_state.selecting(Some(row)),
                ..self
            };
            match self.selection_source {
                Some(SelectionSource::Search) => AppView {
                    search_scroll: row,
                    search_state: self.search_state.selecting(Some(row)),
                    ..moved
                },
                Some(SelectionSource::Journal) => AppView {
                    journal_scroll: row,
                    journal_state: self.journal_state.selecting(Some(row)),
                    ..moved
                },
                None => moved,
            }
        }
    }
}

/// Writes the text of a clock entry.
pub fn write_clock_entry(clock_in: &Moment, clock_out: &TimeOfDay) -> (res: String)
    requires
        clock_in.wf(),
        clock_out.wf(),
    ensures
        res@ == clock_entry_text(*clock_in, *clock_out),
{
    let mut res = "Clock-in: ".to_owned();
    res.append(clock_in.clock().as_str());
    res.append(", Clock-out: ");
    res.append(clock_out.text().as_str());
    res
}

/// The hours of work on the day of a moment.
pub fn hours_of(m: &Moment) -> (res: i64)
    requires
        m.wf(),
    ensures
        res == work_hours(m.weekday()),
{
    let weekday = weekday_of(m);
    if weekday == 0 || weekday == 1 {
        9
    } else {
        8
    }
}

/// When the hours of work are over that start now; none where the calendar ends first.
pub fn clock_out(now: &LocalReading) -> (res: Option<TimeReading>)
    requires
        now.wf(),
    ensures
        res is Some <==> day_can_end(*now),
        res matches Some(out) ==> out.wf() && out.unix == now.unix + work_hours(
            now.local.weekday(),
        ) * 3600,
{
    let hours = hours_of(&now.local);
    if now.unix <= LAST_SECOND - hours * 3600 {
        Some(hours_after(now, hours))
    } else {
        None
    }
}

/// Whether a task is kept that was done on the day that was read from its stamp.
pub fn keeps(read: Option<(i32, u32, u32)>, today: (i32, u32, u32)) -> (res: bool)
    ensures
        res == keeps_done(read, today),
{
    match read {
        Some(date) => !is_earlier(date, today),
        None => true,
    }
}

/// The session's tags: the location, if there is one.
pub fn tags_for(location: &str) -> (res: Vec<String>)
    ensures
        texts(res@) == location_tags(location@),
{
    let mut res: Vec<String> = Vec::new();
    if !location.is_empty() {
        res.push(location.to_owned());
    }
    proof { assert(texts(res@) =~= location_tags(location@)); }
    res
}

/// A state after a journal entry was added at some moment.
pub open spec fn entry_step(
    before: AppView,
    after: AppView,
    text: Seq<char>,
    tags: Seq<Seq<char>>,
    now: Moment,
) -> bool {
    now.wf() && after == before.with_entry_at(now, text, tags)
}

impl AppState {
    pub open spec fn wf(&self) -> bool {
        self@.wf()
    }

    /// Starts a session on what is kept on disk.
    pub fn load(data: DataFile, location: String) -> (res: AppState)
        requires
            data.journal.wf(),
            forall|i: int| 0 <= i < data.tasks@.len() ==> (#[trigger] data.tasks@[i]).id < u64::MAX,
        ensures
            res.wf(),
            res@ == initial(data.journal@, task_views(data.tasks@), location@),
    {
        let ghost all = task_views(data.tasks@);
        let mut next_task_id: u64 = 1;
        let mut i: usize = 0;
        proof { assert(all.take(0) =~= Seq::<TaskView>::empty()); }
        while i < data.tasks.len()
            invariant
                all == task_views(data.tasks@),
                i <= data.tasks@.len(),
                forall|k: int|
                    0 <= k < data.tasks@.len() ==> (#[trigger] data.tasks@[k]).id < u64::MAX,
                next_task_id == next_id(all.take(i as int)),
                next_task_id >= 1,
                forall|k: int| 0 <= k < i ==> (#[trigger] all[k]).id < next_task_id,
            decreases data.tasks@.len() - i,
        {
            proof {
                assert(all.take(i + 1).drop_last() =~= all.take(i as int));
                assert(all.take(i + 1).last() == data.tasks@[i as int]@);
            }
            if data.tasks[i].id >= next_task_id {
                next_task_id = data.tasks[i].id + 1;
            }
            i = i + 1;
        }
        proof { assert(all.take(all.len() as int) =~= all); }
        let mut tasks_state = ListState::new();
        if data.tasks.len() != 0 {
            tasks_state.select(Some(0));
        }
        let res = AppState {
            data,
            focus: Focus::Entry,
            entry_buffer: String::new(),
            entry_scroll: 0,
            journal_scroll: 0,
            tasks_scroll: 0,
            search_input: String::new(),
            search_results: Vec::new(),
            search_scroll: 0,
            search_selected_detail: None,
            next_task_id,
            location,
            tasks_state,
            search_state: ListState::new(),
            journal_state: ListState::new(),
            show_selection: false,
            selection_source: None,
            selection_items: Vec::new(),
            selection_state: ListState::new(),
        };
        proof { assert(res@ =~= initial(data.journal@, all, location@)); }
        res
    }

    /// Adds a journal entry under the day and with the time of `now`.
    pub fn add_entry_at(&mut self, now: &Moment, text: String, tags: Vec<String>)
        requires
            old(self).wf(),
            now.wf(),
        ensures
            final(self).wf(),
            final(self)@ == old(self)@.with_entry_at(*now, text@, texts(tags@)),
    {
        let entry = JournalEntry { time: now.clock(), text, tags };
        proof {
            with_day_is_ordered(
                self@.journal,
                date_key(*now),
                entries_of(self@.journal, date_key(*now)).push(entry@),
            );
        }
        self.data.journal.push(now.key(), entry);
        proof { assert(self@ =~= old(self)@.with_entry_at(*now, text@, texts(tags@))); }
    }

    /// Adds a journal entry under the current day and with the current time.
    pub fn add_entry_for_now(&mut self, text: String, tags: Vec<String>)
        requires
            old(self).wf(),
        ensures
            final(self).wf(),
            exists|now: Moment|
                #[trigger] entry_step(old(self)@, final(self)@, text@, texts(tags@), now),
    {
        let now = local_now().local;
        self.add_entry_at(&now, text, tags);
        proof { assert(entry_step(old(self)@, self@, text@, texts(tags@), now)); }
    }

    /// Adds an open task, made at `now`.
    pub fn add_task_at(&mut self, now: &Moment, text: String, tags: Vec<String>)
        requires
            old(self).wf(),
            now.wf(),
            old(self).next_task_id < u64::MAX,
        ensures
            final(self).wf(),
            final(self)@ == old(self)@.with_task_at(*now, text@, texts(tags@)),
    {
        let task = Task {
            id: self.next_task_id,
            text,
            created_at: now.stamp(),
            completed_at: None,
            tags,
        };
        let ghost t = task@;
        self.next_task_id = self.next_task_id + 1;
        self.data.tasks.push(task);
        let n: usize = self.data.tasks.len();
        if self.tasks_scroll >= n {
            self.tasks_scroll = n - 1;
        }
        proof {
            assert(self@.tasks =~= old(self)@.tasks.push(t));
            assert(self@ =~= old(self)@.with_task_at(*now, text@, texts(tags@)));
            assert forall|i: int| 0 <= i < self@.tasks.len() implies (#[trigger] self@.tasks[i]).id
                < self@.next_task_id by {
                if i < old(self)@.tasks.len() {
                    assert(self@.tasks[i] == old(self)@.tasks[i]);
                }
            }
        }
    }

    /// Adds an open task, made now.
    pub fn add_task(&mut self, text: String, tags: Vec<String>)
        requires
            old(self).wf(),
            old(self).next_task_id < u64::MAX,
        ensures
            final(self).wf(),
            exists|now: Moment|
                #[trigger] task_step(old(self)@, final(self)@, text@, texts(tags@), now),
    {
        let now = local_now().local;
        self.add_task_at(&now, text, tags);
        proof { assert(task_step(old(self)@, self@, text@, texts(tags@), now)); }
    }

    /// Marks task `idx` done at `now` and notes it in the journal, unless it is done.
    pub fn complete_task_at(&mut self, idx: usize, now: &Moment)
        requires
            old(self).wf(),
            now.wf(),
        ensures
            final(self).wf(),
            final(self)@ == old(self)@.with_task_done_at(idx as int, *now),
            idx < old(self)@.tasks.len() && old(self)@.tasks[idx as int].completed_at is None ==> {
                &&& final(self)@.tasks[idx as int].completed_at matches Some(stamp)
                &&& stamp_date(stamp) == Some(now.date())
            },
    {
        if idx >= self.data.tasks.len() {
            return;
        }
        if self.data.tasks[idx].completed_at.is_none() {
            let stamp = now.stamp();
            let mut done_text = "DONE: ".to_owned();
            done_text.append(self.data.tasks[idx].text.as_str());
            let tags = copy_texts(&self.data.tasks[idx].tags);
            let ghost task = self@.tasks[idx as int];
            let ghost done = TaskView { completed_at: Some(stamp@), ..task };
            self.data.tasks[idx].completed_at = Some(stamp);
            proof {
                assert(self@.tasks =~= old(self)@.tasks.update(idx as int, done));
                assert(self@ =~= AppView { tasks: self@.tasks, ..old(self)@ });
                assert forall|i: int| 0 <= i < self@.tasks.len() implies (
                #[trigger] self@.tasks[i]).id < self@.next_task_id by {
                    assert(self@.tasks[i].id == old(self)@.tasks[i].id);
                }
            }
            self.add_entry_at(now, done_text, tags);
        }
    }

    /// Marks task `idx` done now and notes it in the journal, unless it is done.
    pub fn complete_task(&mut self, idx: usize)
        requires
            old(self).wf(),
        ensures
            final(self).wf(),
            exists|now: Moment| #[trigger] done_step(old(self)@, final(self)@, idx as int, now),
    {
        let now = local_now().local;
        self.complete_task_at(idx, &now);
        proof { assert(done_step(old(self)@, self@, idx as int, now)); }
    }

    /// Whether the day of `now` has a clock entry.
    pub fn is_clocked_in(&self, now: &Moment) -> (res: bool)
        requires
            self.wf(),
            now.wf(),
        ensures
            res == has_clock_entry(entries_of(self@.journal, date_key(*now))),
    {
        let key = now.key();
        let ghost list = entries_of(self@.journal, date_key(*now));
        match self.data.journal.entries(key.as_str()) {
            None => false,
            Some(entries) => {
                let mut i: usize = 0;
                while i < entries.len()
                    invariant
                        i <= entries@.len(),
                        list == entry_views(entries@),
                        list == entries_of(self@.journal, date_key(*now)),
                        forall|k: int|
                            0 <= k < i ==> !has_prefix(
                                (#[trigger] list[k]).text,
                                "Clock-in:"@,
                            ),
                    decreases entries@.len() - i,
                {
                    proof { assert(list[i as int] == entries@[i as int]@); }
                    if starts_with(entries[i].text.as_str(), "Clock-in:") {
                        return true;
                    }
                    i = i + 1;
                }
                false
            },
        }
    }

    /// Adds the day's clock entry, unless the day has one. Where it was added, the message
    /// under which it is to be committed comes back.
    pub fn add_clock_entry_at(&mut self, now: &Moment, clock_out: &TimeOfDay) -> (res: Option<
        String,
    >)
        requires
            old(self).wf(),
            now.wf(),
            clock_out.wf(),
        ensures
            final(self).wf(),
            final(self)@ == old(self)@.with_clock_entry(*now, *clock_out),
            has_clock_entry(entries_of(final(self)@.journal, date_key(*now))),
            res is None <==> has_clock_entry(entries_of(old(self)@.journal, date_key(*now))),
            res matches Some(message) ==> message@ == "Add clock entry: "@ + clock_entry_text(
                *now,
                *clock_out,
            ),
    {
        proof { law_day_is_clocked_in(self@, *now, *clock_out); }
        if self.is_clocked_in(now) {
            return None;
        }
        let text = write_clock_entry(now, clock_out);
        let mut message = "Add clock entry: ".to_owned();
        message.append(text.as_str());
        let tags = tags_for(self.location.as_str());
        self.add_entry_at(now, text, tags);
        Some(message)
    }

    /// Adds the clock entry of the day of `now`, unless the day has one: clocked in at `now`,
    /// clocked out after the hours of work. Where it was added, the message under which it
    /// is to be committed comes back. Where it would have to be added and the calendar ends
    /// first, that is the error, and nothing changes.
    pub fn ensure_daily_clock_entry_at(&mut self, now: &LocalReading) -> (res: Result<
        Option<String>,
        ClockError,
    >)
        requires
            old(self).wf(),
            now.wf(),
        ensures
            final(self).wf(),
            res matches Ok(None) <==> has_clock_entry(
                entries_of(old(self)@.journal, date_key(now.local)),
            ),
            res is Err <==> !has_clock_entry(entries_of(old(self)@.journal, date_key(now.local)))
                && !day_can_end(*now),
            res is Ok ==> has_clock_entry(entries_of(final(self)@.journal, date_key(now.local))),
            exists|out: TimeReading| #[trigger]
                clock_step(old(self)@, final(self)@, res, *now, out),
    {
        let ghost none = TimeReading {
            time: TimeOfDay { hour: 0, minute: 0 },
            unix: 0,
            offset: 0,
        };
        if self.is_clocked_in(&now.local) {
            proof { assert(clock_step(old(self)@, self@, Ok(None), *now, none)); }
            return Ok(None);
        }
        match clock_out(now) {
            Some(out) => {
                let res: Result<Option<String>, ClockError> = Ok(
                    self.add_clock_entry_at(&now.local, &out.time),
                );
                proof { assert(clock_step(old(self)@, self@, res, *now, out)); }
                res
            },
            None => {
                let res: Result<Option<String>, ClockError> = Err(ClockError::CalendarEnds);
                proof { assert(clock_step(old(self)@, self@, res, *now, none)); }
                res
            },
        }
    }

    /// Adds today's clock entry, unless the day has one: clocked in now, clocked out after
    /// the hours of work.
    pub fn ensure_daily_clock_entry(&mut self) -> (res: Result<Option<String>, ClockError>)
        requires
            old(self).wf(),
        ensures
            final(self).wf(),
            exists|now: LocalReading, out: TimeReading|
                now.wf() && #[trigger] clock_step(old(self)@, final(self)@, res, now, out) && (
                res is Ok ==> has_clock_entry(
                    entries_of(final(self)@.journal, date_key(now.local)),
                )),
    {
        let now = local_now();
        self.ensure_daily_clock_entry_at(&now)
    }

    /// Takes out the tasks that were done before `today`.
    pub fn prune_completed_before(&mut self, today: (i32, u32, u32))
        requires
            old(self).wf(),
        ensures
            final(self).wf(),
            final(self)@ == old(self)@.pruned(today),
    {
        let ghost all = self@.tasks;
        let ghost mut seen: int = 0;
        let mut i: usize = 0;
        proof {
            assert(all.take(0) =~= Seq::<TaskView>::empty());
            assert(self@.tasks =~= kept_tasks(all.take(0), today) + all.skip(0));
        }
        while i < self.data.tasks.len()
            invariant
                all == old(self)@.tasks,
                0 <= seen <= all.len(),
                i == kept_tasks(all.take(seen), today).len(),
                i <= self.data.tasks@.len(),
                task_views(self.data.tasks@) == kept_tasks(all.take(seen), today) + all.skip(seen),
                self@ == (AppView { tasks: task_views(self.data.tasks@), ..old(self)@ }),
            decreases self.data.tasks@.len() - i,
        {
            let ghost before = task_views(self.data.tasks@);
            proof {
                assert(before[i as int] == all.skip(seen)[0]);
                assert(all.take(seen + 1).drop_last() =~= all.take(seen));
                assert(all.take(seen + 1).last() == all[seen]);
                assert(self.data.tasks@[i as int]@ == all[seen]);
            }
            let keep = match &self.data.tasks[i].completed_at {
                Some(stamp) => keeps(read_stamp(stamp.as_str()), today),
                None => true,
            };
            if keep {
                i = i + 1;
            } else {
                self.data.tasks.remove(i);
                proof { assert(task_views(self.data.tasks@) =~= before.remove(i as int)); }
            }
            proof {
                seen = seen + 1;
                assert(task_views(self.data.tasks@) =~= kept_tasks(all.take(seen), today)
                    + all.skip(seen));
                assert(self@ =~= AppView { tasks: task_views(self.data.tasks@), ..old(self)@ });
            }
        }
        proof {
            assert(seen == all.len());
            assert(all.take(seen) =~= all);
            assert(task_views(self.data.tasks@) =~= kept_tasks(all, today));
            kept_tasks_have_ids_below(all, today, self@.next_task_id as int);
        }
        let n: usize = self.data.tasks.len();
        if self.tasks_scroll >= n {
            self.tasks_scroll = if n == 0 { 0 } else { n - 1 };
        }
        proof { assert(self@ =~= old(self)@.pruned(today)); }
    }

    /// Takes out the tasks that were done before today.
    pub fn prune_old_completed_tasks(&mut self)
        requires
            old(self).wf(),
        ensures
            final(self).wf(),
            exists|now: Moment| #[trigger] prune_step(old(self)@, final(self)@, now),
    {
        let now = local_now().local;
        self.prune_completed_before((now.year, now.month, now.day));
        proof { assert(prune_step(old(self)@, self@, now)); }
    }

    /// Searches the journal for what stands in the search input. Where that is a tag, such
    /// as a location, every entry with the tag is found.
    pub fn run_search(&mut self)
        requires
            old(self).wf(),
        ensures
            final(self).wf(),
            final(self)@ == old(self)@.searched(),
            is_plain_term(old(self)@.search_input) ==> final(self)@.search_results == results_for(
                old(self)@.journal,
                seq![old(self)@.search_input],
            ),
            is_one_term(old(self)@.search_input) ==> final(self)@.search_results == results_for(
                old(self)@.journal,
                seq![lowercased(old(self)@.search_input)],
            ),
            is_one_term(old(self)@.search_input) || (is_ascii_text(old(self)@.search_input)
                && query_terms(old(self)@.search_input).len() > 0) ==> holds_tagged(
                final(self)@.search_results,
                old(self)@.journal,
                old(self)@.search_input,
            ),
    {
        self.search_selected_detail = None;
        let terms = parse_terms(self.search_input.as_str());
        if terms.len() == 0 {
            self.search_results = Vec::new();
            self.search_scroll = 0;
            self.search_state.select(None);
            proof {
                no_terms_no_hits(self@.journal, texts(terms@));
                assert(self@ =~= old(self)@.searched());
            }
            return;
        }
        let hits = collect_hits(&self.data.journal, &terms);
        proof {
            let query = self.search_input@;
            if is_one_term(query) || is_ascii_text(query) {
                query_finds_tagged(self@.journal, query);
            }
        }
        self.search_results = rank(hits);
        self.search_scroll = 0;
        if self.search_results.len() != 0 {
            self.search_state.select(Some(0));
        } else {
            self.search_state.select(None);
        }
        proof { assert(self@ =~= old(self)@.searched()); }
    }

    /// Opens the popup on the search results.
    pub fn open_selection_from_search(&mut self)
        requires
            old(self).wf(),
        ensures
            final(self).wf(),
            final(self)@ == old(self)@.showing_results(),
    {
        self.show_selection = true;
        self.selection_source = Some(SelectionSource::Search);
        self.selection_items = copy_hits(&self.search_results);
        let n: usize = self.selection_items.len();
        if n != 0 {
            let row: usize = if self.search_scroll < n { self.search_scroll } else { n - 1 };
            self.selection_state.select(Some(row));
            self.search_state.select(Some(self.search_scroll));
        } else {
            self.selection_state.select(None);
        }
        proof { assert(self@ =~= old(self)@.showing_results()); }
    }

    /// Opens the popup on the entries of the day of `now`, the latest first.
    pub fn open_selection_from_journal_at(&mut self, now: &Moment)
        requires
            old(self).wf(),
            now.wf(),
        ensures
            final(self).wf(),
            final(self)@ == old(self)@.showing_day(*now),
    {
        self.show_selection = true;
        self.selection_source = Some(SelectionSource::Journal);
        let key = now.key();
        let ghost list = entries_of(self@.journal, date_key(*now));
        let mut items: Vec<Hit> = Vec::new();
        match self.data.journal.entries(key.as_str()) {
            None => {},
            Some(entries) => {
                let mut left: usize = entries.len();
                while left > 0
                    invariant
                        left <= entries@.len(),
                        list == entry_views(entries@),
                        key@ == date_key(*now),
                        items@.len() == entries@.len() - left,
                        forall|i: int|
                            0 <= i < items@.len() ==> (#[trigger] items@[i])@ == (HitView {
                                date: date_key(*now),
                                entry: list[list.len() - 1 - i],
                            }),
                    decreases left,
                {
                    left = left - 1;
                    let entry = entries[left].clone();
                    items.push(Hit { date: key.clone(), entry });
                }
            },
        }
        proof { assert(hit_views(items@) =~= latest_first(date_key(*now), list)); }
        self.selection_items = items;
        let n: usize = self.selection_items.len();
        if n != 0 {
            let row: usize = if self.journal_scroll < n { self.journal_scroll } else { n - 1 };
            self.selection_state.select(Some(row));
            self.journal_state.select(Some(self.journal_scroll));
        } else {
            self.selection_state.select(None);
        }
        proof { assert(self@ =~= old(self)@.showing_day(*now)); }
    }

    /// Opens the popup on today's entries, the latest first.
    pub fn open_selection_from_journal(&mut self)
        requires
            old(self).wf(),
        ensures
            final(self).wf(),
            exists|now: Moment| #[trigger] day_step(old(self)@, final(self)@, now),
    {
        let now = local_now().local;
        self.open_selection_from_journal_at(&now);
        proof { assert(day_step(old(self)@, self@, now)); }
    }

    /// Closes the popup.
    pub fn close_selection(&mut self)
        requires
            old(self).wf(),
        ensures
            final(self).wf(),
            final(self)@ == old(self)@.popup_closed(),
    {
        self.show_selection = false;
        self.selection_source = None;
        self.selection_state.select(None);
        proof { assert(self@ =~= old(self)@.popup_closed()); }
    }

    /// Moves the selection of the popup by `delta` rows, as far as the list goes.
    pub fn popup_move_selection(&mut self, delta: isize)
        requires
            old(self).wf(),
        ensures
            final(self).wf(),
            final(self)@ == old(self)@.popup_moved(delta as int),
    {
        if self.selection_items.len() == 0 {
            self.selection_state.select(None);
            proof { assert(self@ =~= old(self)@.popup_moved(delta as int)); }
            return;
        }
        let last: usize = self.selection_items.len() - 1;
        let row: usize = match self.selection_state.selected {
            Some(i) => i,
            None => 0,
        };
        let next: usize = moved_row(row, delta, last);
        self.selection_state.select(Some(next));
        match self.selection_source {
            Some(SelectionSource::Search) => {
                self.search_scroll = next;
                self.search_state.select(Some(next));
            },
            Some(SelectionSource::Journal) => {
                self.journal_scroll = next;
                self.journal_state.select(Some(next));
            },
            None => {},
        }
        proof { assert(self@ =~= old(self)@.popup_moved(delta as int)); }
    }
}

fn moved_row(row: usize, delta: isize, last: usize) -> (res: usize)
    requires
        row <= last,
    ensures
        row + delta < 0 ==> res == 0,
        0 <= row + delta <= last ==> res == row + delta,
        row + delta > last ==> res == last,
{
    if delta < 0 {
        let back: usize = (-(delta + 1)) as usize;
        if back < row {
            row - back - 1
        } else {
            0
        }
    } else if (delta as usize) <= last - row {
        row + delta as usize
    } else {
        last
    }
}

proof fn kept_tasks_have_ids_below(tasks: Seq<TaskView>, today: (i32, u32, u32), bound: int)
    requires
        forall|i: int| 0 <= i < tasks.len() ==> (#[trigger] tasks[i]).id < bound,
    ensures
        forall|i: int|
            0 <= i < kept_tasks(tasks, today).len() ==> (#[trigger] kept_tasks(tasks, today)[i]).id
                < bound,
    decreases tasks.len(),
{
    if tasks.len() > 0 {
        let front = tasks.drop_last();
        assert forall|i: int| 0 <= i < front.len() implies (#[trigger] front[i]).id < bound by {
            assert(front[i] == tasks[i]);
        }
        kept_tasks_have_ids_below(front, today, bound);
        assert(tasks[tasks.len() - 1].id < bound);
    }
}

/// A state after the tasks done before some day were taken out.
pub open spec fn prune_step(before: AppView, after: AppView, now: Moment) -> bool {
    now.wf() && after == before.pruned(now.date())
}

/// A state after the popup was opened on the entries of the day of some moment.
pub open spec fn day_step(before: AppView, after: AppView, now: Moment) -> bool {
    now.wf() && after == before.showing_day(now)
}

/// A state after a task was added at some moment.
pub open spec fn task_step(
    before: AppView,
    after: AppView,
    text: Seq<char>,
    tags: Seq<Seq<char>>,
    now: Moment,
) -> bool {
    now.wf() && after == before.with_task_at(now, text, tags)
}

/// A state after a task was marked done at some moment.
pub open spec fn done_step(before: AppView, after: AppView, idx: int, now: Moment) -> bool {
    now.wf() && after == before.with_task_done_at(idx, now)
}

/// A state after the day's clock entry was seen to at some moment: it was there, or it was
/// added with the time at which the hours of work are over, or the calendar ends before that.
pub open spec fn clock_step(
    before: AppView,
    after: AppView,
    res: Result<Option<String>, ClockError>,
    now: LocalReading,
    out: TimeReading,
) -> bool {
    if has_clock_entry(entries_of(before.journal, date_key(now.local))) {
        res matches Ok(None) && after == before
    } else if !day_can_end(now) {
        res == Err::<Option<String>, ClockError>(ClockError::CalendarEnds) && after == before
    } else {
        &&& out.wf()
        &&& out.unix == now.unix + work_hours(now.local.weekday()) * 3600
        &&& after == before.with_clock_entry(now.local, out.time)
        &&& res matches Ok(Some(message))
        &&& message@ == "Add clock entry: "@ + clock_entry_text(now.local, out.time)
    }
}

} // verus!
