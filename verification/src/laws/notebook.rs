//! Tasks, clock entries, and the course of a session.
use crate::calendar::{
    clock_text, date_before, date_key, stamp_date, stamp_text, time_text, LocalReading, Moment,
    TimeOfDay, TimeReading, LAST_SECOND,
};
use crate::input::{
    event_step, is_quit, is_task_text, key_step, saved_step, submitted, terminal_key, Action, Event,
    KeyCode, KeyEvent, Saved, MAX_ENTRY_SCROLL,
};
use crate::journal::{
    entries_of, is_ordered, with_day_is_ordered, with_entry, DayView, EntryView, TaskView,
};
use crate::laws::entries::{
    law_day_is_read_under_its_key, law_entry_is_read_back, law_other_days_are_kept,
};
use crate::laws::searching::law_location_is_found;
use crate::laws::words::law_prefix_is_the_start;
use crate::search::{results_for, HitView};
use crate::state::{
    clock_entry_text, clock_step, day_can_end, has_clock_entry, initial, is_kept, kept_tasks,
    latest_first, location_tags, next_focus, next_id, prev_focus, row_within, AppView, ClockError,
    Focus, ListState, SelectionSource,
};
use crate::text::{has_prefix, lowercased, trimmed};
use vstd::prelude::*;

verus! {

/// Marking a task done a second time changes nothing, whenever that is.
pub proof fn law_completion_is_idempotent(app: AppView, idx: int, first: Moment, second: Moment)
    ensures
        app.with_task_done_at(idx, first).with_task_done_at(idx, second) == app.with_task_done_at(
            idx,
            first,
        ),
{
}

/// A journal entry is added at the end of the day of the moment, with the time of the moment,
/// the whole text and all tags; other days and all else stay as they are.
pub proof fn law_entry_is_added_whole(
    app: AppView,
    now: Moment,
    text: Seq<char>,
    tags: Seq<Seq<char>>,
    other: Seq<char>,
)
    requires
        app.wf(),
    ensures
        ({
            let after = app.with_entry_at(now, text, tags);
            &&& entries_of(after.journal, date_key(now)) == entries_of(
                app.journal,
                date_key(now),
            ).push(EntryView { time: clock_text(now), text, tags })
            &&& other != date_key(now) ==> entries_of(after.journal, other) == entries_of(
                app.journal,
                other,
            )
            &&& after == AppView { journal: after.journal, ..app }
        }),
{
    let entry = EntryView { time: clock_text(now), text, tags };
    law_entry_is_read_back(app.journal, date_key(now), entry);
    if other != date_key(now) {
        law_other_days_are_kept(app.journal, date_key(now), entry, other);
    }
}

/// A task is added at the end of the list, open, with the next id, the whole text and all tags;
/// the other tasks, the cursor and all else stay as they are.
pub proof fn law_task_is_added_whole(
    app: AppView,
    now: Moment,
    text: Seq<char>,
    tags: Seq<Seq<char>>,
)
    requires
        app.wf(),
        app.next_task_id < u64::MAX,
        app.tasks.len() < usize::MAX,
    ensures
        ({
            let task = TaskView {
                id: app.next_task_id,
                text,
                created_at: stamp_text(now),
                completed_at: None,
                tags,
            };
            let after = app.with_task_at(now, text, tags);
            &&& after.next_task_id == app.next_task_id + 1
            &&& after == AppView {
                tasks: app.tasks.push(task),
                next_task_id: after.next_task_id,
                ..app
            }
        }),
{
}

/// Only an open task of the list can be marked done.
pub proof fn law_what_is_done_stays_as_it_is(app: AppView, idx: int, now: Moment)
    requires
        idx < 0 || idx >= app.tasks.len() || app.tasks[idx].completed_at is Some,
    ensures
        app.with_task_done_at(idx, now) == app,
{
}

/// A task that is marked done is noted once, at the end of the day, with its text and its
/// tags; the other tasks, the other days and all else stay as they are.
pub proof fn law_completion_is_noted(app: AppView, idx: int, now: Moment, other: Seq<char>)
    requires
        app.wf(),
        0 <= idx < app.tasks.len(),
        app.tasks[idx].completed_at is None,
    ensures
        ({
            let after = app.with_task_done_at(idx, now);
            &&& entries_of(after.journal, date_key(now)) == entries_of(
                app.journal,
                date_key(now),
            ).push(
                EntryView {
                    time: clock_text(now),
                    text: "DONE: "@ + app.tasks[idx].text,
                    tags: app.tasks[idx].tags,
                },
            )
            &&& after.tasks[idx] == TaskView {
                completed_at: Some(stamp_text(now)),
                ..app.tasks[idx]
            }
            &&& after.tasks.len() == app.tasks.len()
            &&& forall|i: int|
                0 <= i < app.tasks.len() && i != idx ==> after.tasks[i] == #[trigger] app.tasks[i]
            &&& other != date_key(now) ==> entries_of(after.journal, other) == entries_of(
                app.journal,
                other,
            )
            &&& after == AppView { journal: after.journal, tasks: after.tasks, ..app }
        }),
{
    let entry = EntryView {
        time: clock_text(now),
        text: "DONE: "@ + app.tasks[idx].text,
        tags: app.tasks[idx].tags,
    };
    law_entry_is_read_back(app.journal, date_key(now), entry);
    if other != date_key(now) {
        law_other_days_are_kept(app.journal, date_key(now), entry, other);
    }
}

proof fn clock_entry_is_recognised(clock_in: Moment, clock_out: TimeOfDay)
    ensures
        has_prefix(clock_entry_text(clock_in, clock_out), "Clock-in:"@),
{
    reveal_strlit("Clock-in: ");
    reveal_strlit("Clock-in:");
    let text = clock_entry_text(clock_in, clock_out);
    assert("Clock-in: "@.take(9) =~= "Clock-in:"@);
    assert(text.take(9) =~= "Clock-in:"@) by {
        assert forall|i: int| 0 <= i < 9 implies text[i] == "Clock-in:"@[i] by {
            assert(text[i] == "Clock-in: "@[i]);
            assert("Clock-in: "@[i] == "Clock-in: "@.take(9)[i]);
        }
    }
}

/// Once a day was seen to, it has its clock entry.
pub proof fn law_day_is_clocked_in(app: AppView, now: Moment, out: TimeOfDay)
    requires
        app.wf(),
    ensures
        has_clock_entry(entries_of(app.with_clock_entry(now, out).journal, date_key(now))),
{
    let before = entries_of(app.journal, date_key(now));
    if !has_clock_entry(before) {
        let entry = EntryView {
            time: clock_text(now),
            text: clock_entry_text(now, out),
            tags: location_tags(app.location),
        };
        law_entry_is_read_back(app.journal, date_key(now), entry);
        let list = entries_of(app.with_clock_entry(now, out).journal, date_key(now));
        assert(list[before.len() as int] == entry);
        clock_entry_is_recognised(now, out);
    }
}

/// Where any entry of the day starts with `Clock-in:`, whichever it is, the day needs no clock
/// entry: nothing is added, and nothing is to be committed.
pub proof fn law_any_clock_entry_counts(
    app: AppView,
    d: int,
    i: int,
    rest: Seq<char>,
    after: AppView,
    res: Result<Option<String>, ClockError>,
    now: LocalReading,
    time: TimeOfDay,
    out: TimeReading,
)
    requires
        app.wf(),
        0 <= d < app.journal.len(),
        app.journal[d].key == date_key(now.local),
        0 <= i < app.journal[d].entries.len(),
        app.journal[d].entries[i].text == "Clock-in:"@ + rest,
    ensures
        app.with_clock_entry(now.local, time) == app,
        clock_step(app, after, res, now, out) ==> after == app && res matches Ok(None),
{
    law_day_is_read_under_its_key(app.journal, d);
    let list = entries_of(app.journal, date_key(now.local));
    law_prefix_is_the_start(list[i].text, "Clock-in:"@, rest);
    assert(has_prefix(list[i].text, "Clock-in:"@));
}

/// Where no entry of the day starts with `Clock-in:`, the clock entry comes at the end of the
/// day, with the location for its tag.
pub proof fn law_missing_clock_entry_is_added(app: AppView, now: Moment, out: TimeOfDay)
    requires
        app.wf(),
        forall|i: int|
            0 <= i < entries_of(app.journal, date_key(now)).len() ==> {
                let text = (#[trigger] entries_of(app.journal, date_key(now))[i]).text;
                text.len() < 9 || text.take(9) != "Clock-in:"@
            },
    ensures
        entries_of(app.with_clock_entry(now, out).journal, date_key(now)) == entries_of(
            app.journal,
            date_key(now),
        ).push(
            EntryView {
                time: clock_text(now),
                text: "Clock-in: "@ + clock_text(now) + ", Clock-out: "@ + time_text(out),
                tags: if app.location.len() == 0 {
                    Seq::empty()
                } else {
                    seq![app.location]
                },
            },
        ),
{
    reveal_strlit("Clock-in:");
    let list = entries_of(app.journal, date_key(now));
    assert(!has_clock_entry(list)) by {
        if has_clock_entry(list) {
            let i = choose|i: int|
                0 <= i < list.len() && has_prefix((#[trigger] list[i]).text, "Clock-in:"@);
            assert(list[i].text.take(9) == "Clock-in:"@);
        }
    }
    let entry = EntryView {
        time: clock_text(now),
        text: clock_entry_text(now, out),
        tags: location_tags(app.location),
    };
    law_entry_is_read_back(app.journal, date_key(now), entry);
}

/// Where the clock entry has to be added and the calendar goes on, it is added with the time at
/// which nine hours of work on Monday and Tuesday, or eight on another day, are over; and it is
/// to be committed under a message that holds its text.
pub proof fn law_clock_entry_has_the_hours_of_work(
    app: AppView,
    after: AppView,
    res: Result<Option<String>, ClockError>,
    now: LocalReading,
    out: TimeReading,
)
    requires
        clock_step(app, after, res, now, out),
        !has_clock_entry(entries_of(app.journal, date_key(now.local))),
    ensures
        ({
            let seconds: int = if now.local.weekday() < 2 {
                32400
            } else {
                28800
            };
            let text = "Clock-in: "@ + clock_text(now.local) + ", Clock-out: "@ + time_text(
                out.time,
            );
            &&& now.unix + seconds <= LAST_SECOND ==> {
                &&& out.wf()
                &&& out.unix == now.unix + seconds
                &&& after == app.with_clock_entry(now.local, out.time)
                &&& res matches Ok(Some(message)) && message@ == "Add clock entry: "@ + text
            }
            &&& now.unix + seconds > LAST_SECOND ==> res is Err && after == app
        }),
{
}

/// What is written after the clock entry does not make the day need another.
pub proof fn law_later_entries_need_no_clock_entry(
    app: AppView,
    now: Moment,
    out: TimeOfDay,
    later: Moment,
    text: Seq<char>,
    tags: Seq<Seq<char>>,
    again: Moment,
    again_out: TimeOfDay,
)
    requires
        app.wf(),
        date_key(later) == date_key(now),
        date_key(again) == date_key(now),
    ensures
        ({
            let written = app.with_clock_entry(now, out).with_entry_at(later, text, tags);
            written.with_clock_entry(again, again_out) == written
        }),
{
    let key = date_key(now);
    let clocked = app.with_clock_entry(now, out);
    law_day_is_clocked_in(app, now, out);
    let entry = EntryView { time: clock_text(later), text, tags };
    assert(is_ordered(clocked.journal)) by {
        with_day_is_ordered(
            app.journal,
            key,
            entries_of(app.journal, key).push(
                EntryView {
                    time: clock_text(now),
                    text: clock_entry_text(now, out),
                    tags: location_tags(app.location),
                },
            ),
        );
    }
    law_entry_is_read_back(clocked.journal, key, entry);
    let before = entries_of(clocked.journal, key);
    let i = choose|i: int|
        0 <= i < before.len() && has_prefix((#[trigger] before[i]).text, "Clock-in:"@);
    assert(before.push(entry)[i] == before[i]);
}

/// A day can be clocked in as long as its eight hours, or nine on Monday and Tuesday, are over
/// before the calendar ends.
pub proof fn law_day_ends_within_the_calendar(now: LocalReading)
    ensures
        now.local.weekday() <= 1 && now.local.weekday() >= 0 ==> (day_can_end(now) <==> now.unix
            + 32400 <= LAST_SECOND),
        now.local.weekday() > 1 ==> (day_can_end(now) <==> now.unix + 28800 <= LAST_SECOND),
{
}

/// A day gets its clock entry once: a second try on the same day changes nothing.
pub proof fn law_one_clock_entry_a_day(
    app: AppView,
    first: Moment,
    first_out: TimeOfDay,
    second: Moment,
    second_out: TimeOfDay,
)
    requires
        app.wf(),
        date_key(first) == date_key(second),
    ensures
        app.with_clock_entry(first, first_out).with_clock_entry(second, second_out)
            == app.with_clock_entry(first, first_out),
{
    law_day_is_clocked_in(app, first, first_out);
}

proof fn kept_tasks_hold(tasks: Seq<TaskView>, today: (i32, u32, u32), t: TaskView)
    ensures
        kept_tasks(tasks, today).contains(t) <==> tasks.contains(t) && is_kept(t, today),
    decreases tasks.len(),
{
    if tasks.len() > 0 {
        let front = tasks.drop_last();
        let kept = kept_tasks(front, today);
        kept_tasks_hold(front, today, t);
        assert(tasks.contains(t) <==> front.contains(t) || t == tasks.last()) by {
            if front.contains(t) {
                let k = choose|k: int| 0 <= k < front.len() && front[k] == t;
                assert(tasks[k] == t);
            }
            if tasks.contains(t) && t != tasks.last() {
                let k = choose|k: int| 0 <= k < tasks.len() && tasks[k] == t;
                assert(front[k] == t);
            }
            assert(tasks[tasks.len() - 1] == tasks.last());
        }
        assert(kept.push(tasks.last()).contains(t) <==> kept.contains(t) || t == tasks.last()) by {
            let more = kept.push(tasks.last());
            if kept.contains(t) {
                let k = choose|k: int| 0 <= k < kept.len() && kept[k] == t;
                assert(more[k] == t);
            }
            if more.contains(t) && t != tasks.last() {
                let k = choose|k: int| 0 <= k < more.len() && more[k] == t;
                assert(kept[k] == t);
            }
            assert(more[kept.len() as int] == tasks.last());
        }
    }
}

/// Pruning takes out the tasks that were done before today and no others: open tasks stay,
/// and so does what was done today or later.
pub proof fn law_prune_is_exact(app: AppView, today: (i32, u32, u32), t: TaskView)
    ensures
        app.pruned(today).tasks.contains(t) <==> app.tasks.contains(t) && is_kept(t, today),
        t.completed_at is None ==> is_kept(t, today),
        t.completed_at matches Some(stamp) ==> (stamp_date(stamp) matches Some(date) ==> (is_kept(
            t,
            today,
        ) <==> !date_before(date, today))),
{
    kept_tasks_hold(app.tasks, today, t);
}

proof fn kept_tasks_stay(tasks: Seq<TaskView>, today: (i32, u32, u32))
    ensures
        kept_tasks(kept_tasks(tasks, today), today) == kept_tasks(tasks, today),
        kept_tasks(tasks, today).len() <= tasks.len(),
    decreases tasks.len(),
{
    if tasks.len() > 0 {
        let kept = kept_tasks(tasks.drop_last(), today);
        kept_tasks_stay(tasks.drop_last(), today);
        if is_kept(tasks.last(), today) {
            assert(kept.push(tasks.last()).drop_last() =~= kept);
        }
    }
}

/// Pruning looks at each task by itself and keeps the order: two lists pruned are the whole
/// pruned, an open task stays, and one that was done stays unless that was on an earlier day.
pub proof fn law_tasks_are_pruned_one_by_one(
    a: Seq<TaskView>,
    b: Seq<TaskView>,
    t: TaskView,
    today: (i32, u32, u32),
)
    ensures
        kept_tasks(a + b, today) == kept_tasks(a, today) + kept_tasks(b, today),
        kept_tasks(seq![t], today) == if t.completed_at matches Some(stamp) && stamp_date(
            stamp,
        ) matches Some(date) && date_before(date, today) {
            Seq::empty()
        } else {
            seq![t]
        },
    decreases b.len(),
{
    reveal_with_fuel(kept_tasks, 2);
    let one = seq![t];
    assert(one.drop_last() =~= Seq::<TaskView>::empty());
    if is_kept(t, today) {
        assert(kept_tasks(one, today) =~= one);
    }
    if b.len() > 0 {
        law_tasks_are_pruned_one_by_one(a, b.drop_last(), t, today);
        assert((a + b).drop_last() =~= a + b.drop_last());
        assert(kept_tasks(a + b, today) =~= kept_tasks(a, today) + kept_tasks(b, today));
    } else {
        assert(a + b =~= a);
        assert(kept_tasks(a, today) + kept_tasks(b, today) =~= kept_tasks(a, today));
    }
}

/// Pruning changes the tasks only, and moves the cursor only where its row is gone: to the last
/// row that is left.
pub proof fn law_pruning_changes_the_tasks_only(app: AppView, today: (i32, u32, u32))
    requires
        app.tasks.len() <= usize::MAX,
    ensures
        ({
            let after = app.pruned(today);
            &&& after.tasks == kept_tasks(app.tasks, today)
            &&& after.tasks_scroll < after.tasks.len() || after.tasks_scroll == 0
            &&& app.tasks_scroll < after.tasks.len() ==> after.tasks_scroll == app.tasks_scroll
            &&& app.tasks_scroll >= after.tasks.len() && after.tasks.len() > 0
                ==> after.tasks_scroll == after.tasks.len() - 1
            &&& after == AppView {
                tasks: after.tasks,
                tasks_scroll: after.tasks_scroll,
                ..app
            }
        }),
{
    kept_tasks_stay(app.tasks, today);
}

/// Pruning twice on one day is pruning once.
pub proof fn law_prune_is_idempotent(app: AppView, today: (i32, u32, u32))
    ensures
        app.pruned(today).pruned(today) == app.pruned(today),
        app.pruned(today).tasks.len() <= app.tasks.len(),
{
    kept_tasks_stay(app.tasks, today);
}

proof fn next_id_is_above(tasks: Seq<TaskView>)
    ensures
        next_id(tasks) >= 1,
        forall|i: int| 0 <= i < tasks.len() ==> (#[trigger] tasks[i]).id < next_id(tasks),
    decreases tasks.len(),
{
    if tasks.len() > 0 {
        let front = tasks.drop_last();
        next_id_is_above(front);
        assert forall|i: int| 0 <= i < tasks.len() implies (#[trigger] tasks[i]).id < next_id(
            tasks,
        ) by {
            if i < front.len() {
                assert(tasks[i] == front[i]);
            }
        }
    }
}

/// The id for the next task is above every id, and the least such number from 1 on.
pub proof fn law_next_id_is_the_least(tasks: Seq<TaskView>, n: int)
    requires
        n >= 1,
        forall|i: int| 0 <= i < tasks.len() ==> (#[trigger] tasks[i]).id < n,
    ensures
        1 <= next_id(tasks) <= n,
        forall|i: int| 0 <= i < tasks.len() ==> (#[trigger] tasks[i]).id < next_id(tasks),
    decreases tasks.len(),
{
    next_id_is_above(tasks);
    if tasks.len() > 0 {
        let front = tasks.drop_last();
        assert forall|i: int| 0 <= i < front.len() implies (#[trigger] front[i]).id < n by {
            assert(front[i] == tasks[i]);
        }
        law_next_id_is_the_least(front, n);
        assert(tasks[tasks.len() - 1].id < n);
    }
}

/// No two tasks have one id.
pub open spec fn has_unique_ids(tasks: Seq<TaskView>) -> bool {
    forall|i: int, j: int|
        0 <= i < j < tasks.len() ==> (#[trigger] tasks[i]).id != (#[trigger] tasks[j]).id
}

/// A new task has an id that no task has.
pub proof fn law_new_task_has_a_new_id(
    app: AppView,
    now: Moment,
    text: Seq<char>,
    tags: Seq<Seq<char>>,
)
    requires
        app.wf(),
    ensures
        app.with_task_at(now, text, tags).tasks.last().id == app.next_task_id,
        forall|i: int|
            0 <= i < app.tasks.len() ==> (#[trigger] app.tasks[i]).id != app.next_task_id,
        has_unique_ids(app.tasks) ==> has_unique_ids(app.with_task_at(now, text, tags).tasks),
{
    let after = app.with_task_at(now, text, tags).tasks;
    if has_unique_ids(app.tasks) {
        assert forall|i: int, j: int| 0 <= i < j < after.len() implies (#[trigger] after[i]).id != (
        #[trigger] after[j]).id by {
            assert(after[i] == app.tasks[i]);
            if j < app.tasks.len() {
                assert(after[j] == app.tasks[j]);
            }
        }
    }
}

/// Going forth and back leads to where one was, either way round.
pub proof fn law_focus_goes_round(f: Focus)
    ensures
        prev_focus(next_focus(f)) == f,
        next_focus(prev_focus(f)) == f,
        next_focus(next_focus(next_focus(next_focus(next_focus(f))))) == f,
        next_focus(f) != f,
{
}

/// Tab and then Shift and Tab leave the notebook as it was.
pub proof fn law_tab_is_undone(
    app: AppView,
    tab: KeyEvent,
    back: KeyEvent,
    now: Moment,
    then: Moment,
)
    requires
        !app.show_selection,
        tab.code == KeyCode::Tab && !tab.modifiers.shift,
        back.code == KeyCode::BackTab || (back.code == KeyCode::Tab && back.modifiers.shift),
    ensures
        terminal_key(terminal_key(app, tab, now).0, back, then).0 == app,
{
}

/// What was typed into the entry or the search input is taken back by Backspace.
pub proof fn law_backspace_undoes_typing(
    app: AppView,
    typed: KeyEvent,
    back: KeyEvent,
    now: Moment,
    then: Moment,
)
    requires
        !app.show_selection,
        app.focus == Focus::Entry || app.focus == Focus::Search,
        typed.code is Char && !typed.modifiers.control,
        back.code == KeyCode::Backspace,
    ensures
        key_step(key_step(app, typed, now).0, back, then).0 == app,
{
    if let KeyCode::Char(c) = typed.code {
        assert(app.entry_buffer.push(c).drop_last() =~= app.entry_buffer);
        assert(app.search_input.push(c).drop_last() =~= app.search_input);
    }
}

/// Up and Down come back to the same task, away from the ends of the list.
pub proof fn law_cursor_comes_back(
    app: AppView,
    down: KeyEvent,
    up: KeyEvent,
    now: Moment,
    then: Moment,
)
    requires
        app.wf(),
        !app.show_selection,
        app.focus == Focus::Tasks,
        app.tasks_scroll + 1 < app.tasks.len() <= usize::MAX,
        down.code == KeyCode::Down,
        up.code == KeyCode::Up,
    ensures
        key_step(key_step(app, down, now).0, up, then).0.tasks_scroll == app.tasks_scroll,
{
}

/// The popup catches all keys: what is kept on disk, the focus and the texts stay, nothing
/// is saved, and only Escape closes it.
pub proof fn law_popup_catches_keys(app: AppView, key: KeyEvent, now: Moment)
    requires
        app.show_selection,
        !is_quit(key),
    ensures
        ({
            let (after, action) = terminal_key(app, key, now);
            &&& action == Action::Continue
            &&& after.journal == app.journal
            &&& after.tasks == app.tasks
            &&& after.focus == app.focus
            &&& after.entry_buffer == app.entry_buffer
            &&& after.search_input == app.search_input
            &&& after.search_results == app.search_results
            &&& after.show_selection <==> key.code != KeyCode::Esc
        }),
{
}

/// The place that was reached in the popup is kept when it closes: the cursor of the results
/// is as many rows on as the popup was moved, within the list, and all else is as it was
/// before the popup.
pub proof fn law_place_among_results_is_kept(app: AppView, delta: int)
    requires
        app.search_scroll < app.search_results.len() <= usize::MAX,
    ensures
        ({
            let after = app.showing_results().popup_moved(delta).popup_closed();
            let row = app.search_scroll + delta;
            &&& after.search_scroll == if row < 0 {
                0
            } else if row < app.search_results.len() {
                row
            } else {
                app.search_results.len() - 1
            }
            &&& after.search_state.selected == Some(after.search_scroll)
            &&& after == AppView {
                search_scroll: after.search_scroll,
                search_state: after.search_state,
                show_selection: false,
                selection_source: None,
                selection_items: app.search_results,
                selection_state: app.selection_state.selecting(None),
                ..app
            }
        }),
{
}

/// The same holds of the popup on the entries of a day and the cursor of the journal.
pub proof fn law_place_in_the_day_is_kept(app: AppView, now: Moment, delta: int)
    requires
        app.journal_scroll < entries_of(app.journal, date_key(now)).len() <= usize::MAX,
    ensures
        ({
            let after = app.showing_day(now).popup_moved(delta).popup_closed();
            let list = entries_of(app.journal, date_key(now));
            let row = app.journal_scroll + delta;
            &&& after.journal_scroll == if row < 0 {
                0
            } else if row < list.len() {
                row
            } else {
                list.len() - 1
            }
            &&& after.journal_state.selected == Some(after.journal_scroll)
            &&& after == AppView {
                journal_scroll: after.journal_scroll,
                journal_state: after.journal_state,
                show_selection: false,
                selection_source: None,
                selection_items: latest_first(date_key(now), list),
                selection_state: app.selection_state.selecting(None),
                ..app
            }
        }),
{
}

/// Control and C quits at once and changes nothing.
pub proof fn law_quit_changes_nothing(app: AppView, key: KeyEvent, now: Moment)
    requires
        is_quit(key),
    ensures
        terminal_key(app, key, now) == (app, Action::Quit),
{
}

/// What is kept on disk changes only where the event is to be saved.
pub proof fn law_changes_are_saved(app: AppView, event: Event, now: Moment)
    ensures
        ({
            let (after, action) = event_step(app, event, now);
            !(action is Save) ==> after.journal == app.journal && after.tasks == app.tasks
                && after.next_task_id == app.next_task_id
        }),
{
}

/// Once an event is saved, saving changes nothing more of what is kept on disk.
pub proof fn law_saving_keeps_the_data(app: AppView, saved: Saved)
    ensures
        saved_step(app, saved).journal == app.journal,
        saved_step(app, saved).tasks == app.tasks,
        saved_step(app, saved).next_task_id == app.next_task_id,
{
}

/// The journal only grows: no event takes out or changes an entry.
#[verifier::rlimit(30)]
pub proof fn law_journal_only_grows(app: AppView, event: Event, now: Moment, key: Seq<char>)
    requires
        app.wf(),
    ensures
        entries_of(app.journal, key).is_prefix_of(
            entries_of(event_step(app, event, now).0.journal, key),
        ),
{
    let after = event_step(app, event, now).0;
    let before_list = entries_of(app.journal, key);
    if after.journal != app.journal {
        let text = trimmed(app.entry_buffer);
        let tags = location_tags(app.location);
        let idx = app.tasks_scroll as int;
        let submitted_entry = EntryView { time: clock_text(now), text, tags };
        let done_entry = EntryView {
            time: clock_text(now),
            text: "DONE: "@ + app.tasks[idx].text,
            tags: app.tasks[idx].tags,
        };
        let entry = if app.focus == Focus::Entry {
            submitted_entry
        } else {
            done_entry
        };
        assert(after.journal == with_entry(app.journal, date_key(now), entry));
        law_entry_is_read_back(app.journal, date_key(now), entry);
        if key != date_key(now) {
            law_other_days_are_kept(app.journal, date_key(now), entry, key);
        }
        let after_list = entries_of(after.journal, key);
        assert(after_list.take(before_list.len() as int) =~= before_list);
    } else {
        assert(before_list.take(before_list.len() as int) =~= before_list);
    }
}

/// A blank entry is cleared and leaves nothing behind.
pub proof fn law_blank_entry_is_dropped(app: AppView, now: Moment)
    requires
        trimmed(app.entry_buffer).len() == 0,
    ensures
        submitted(app, now) == (app.entry_cleared(), Action::Continue),
{
}

/// A submitted entry starts the next one from nothing.
pub proof fn law_submission_clears_the_entry(app: AppView, now: Moment)
    ensures
        ({
            let (after, action) = submitted(app, now);
            let settled = match action {
                Action::Save(saved) => saved_step(after, saved),
                _ => after,
            };
            settled.entry_buffer.len() == 0 && settled.entry_scroll == 0
        }),
{
}

/// What is written at a location is found by a search for that location.
pub proof fn law_entry_is_found_by_its_location(app: AppView, now: Moment)
    requires
        app.wf(),
        trimmed(app.entry_buffer).len() > 0,
        !is_task_text(trimmed(app.entry_buffer)),
        app.location.len() > 0,
    ensures
        ({
            let entry = EntryView {
                time: clock_text(now),
                text: trimmed(app.entry_buffer),
                tags: seq![app.location],
            };
            results_for(submitted(app, now).0.journal, seq![lowercased(app.location)]).contains(
                HitView { date: date_key(now), entry },
            )
        }),
{
    let key = date_key(now);
    let entry = EntryView {
        time: clock_text(now),
        text: trimmed(app.entry_buffer),
        tags: location_tags(app.location),
    };
    let journal = submitted(app, now).0.journal;
    let list = entries_of(app.journal, key);
    with_day_is_ordered(app.journal, key, list.push(entry));
    law_entry_is_read_back(app.journal, key, entry);
    assert(list.push(entry)[list.len() as int] == entry);
    assert(entry.tags[0] == app.location);
    law_location_is_found(journal, app.location, key, entry);
}

/// The entry is never scrolled beyond its limit.
pub proof fn law_entry_scroll_is_bounded(app: AppView, event: Event, now: Moment)
    requires
        app.entry_scroll <= MAX_ENTRY_SCROLL,
    ensures
        event_step(app, event, now).0.entry_scroll <= MAX_ENTRY_SCROLL,
{
}

/// The cursor of the results is on a result, and the popup knows where its items are from.
pub open spec fn is_settled(app: AppView) -> bool {
    &&& app.search_scroll == row_within(app.search_scroll, app.search_results.len())
    &&& app.show_selection <==> app.selection_source is Some
    &&& app.selection_source == Some(SelectionSource::Search) ==> app.selection_items
        == app.search_results
}

/// A session starts with all that is kept on disk, in the entry, with nothing typed, found or
/// open, and with the first task selected where there is one.
pub proof fn law_session_starts_fresh(
    journal: Seq<DayView>,
    tasks: Seq<TaskView>,
    location: Seq<char>,
)
    ensures
        ({
            let app = initial(journal, tasks, location);
            let idle = ListState { selected: None, offset: 0 };
            &&& app.journal == journal && app.tasks == tasks && app.location == location
            &&& app.focus == Focus::Entry
            &&& app.entry_buffer.len() == 0 && app.search_input.len() == 0
            &&& app.entry_scroll == 0 && app.journal_scroll == 0 && app.tasks_scroll == 0
            &&& app.search_scroll == 0 && app.search_results.len() == 0
            &&& app.search_selected_detail is None
            &&& !app.show_selection && app.selection_source is None
            &&& app.selection_items.len() == 0
            &&& app.search_state == idle && app.journal_state == idle && app.selection_state == idle
            &&& app.tasks_state.offset == 0
            &&& app.tasks_state.selected == if tasks.len() == 0 {
                None
            } else {
                Some(0usize)
            }
        }),
{
}

/// A list selects the row that it is told to; its view stays, or goes back to the top where
/// nothing is selected.
pub proof fn law_selection_is_as_told(list: ListState, row: usize)
    ensures
        list.selecting(Some(row)).selected == Some(row),
        list.selecting(Some(row)).offset == list.offset,
        list.selecting(None).selected is None,
        list.selecting(None).offset == 0,
{
}

/// The popup on the results has them all, in their order, and starts at the row of the cursor.
pub proof fn law_popup_has_all_results(app: AppView)
    requires
        app.search_results.len() <= usize::MAX,
    ensures
        ({
            let after = app.showing_results();
            let n = app.search_results.len();
            &&& after.selection_items == app.search_results
            &&& after.selection_state.selected == if n == 0 {
                None
            } else if app.search_scroll < n {
                Some(app.search_scroll)
            } else {
                Some((n - 1) as usize)
            }
            &&& n > 0 ==> after.search_state.selected == Some(app.search_scroll)
                && after.search_state.offset == app.search_state.offset
            &&& n == 0 ==> after.search_state == app.search_state
            &&& after == AppView {
                show_selection: true,
                selection_source: Some(SelectionSource::Search),
                selection_items: after.selection_items,
                selection_state: after.selection_state,
                search_state: after.search_state,
                ..app
            }
        }),
{
}

/// The popup on a day has all its entries, each under the key of the day; read backwards they
/// stand as they were written. It starts at the row of the cursor.
pub proof fn law_popup_has_the_day_backwards(app: AppView, now: Moment, i: int)
    requires
        entries_of(app.journal, date_key(now)).len() <= usize::MAX,
        0 <= i < entries_of(app.journal, date_key(now)).len(),
    ensures
        ({
            let after = app.showing_day(now);
            let list = entries_of(app.journal, date_key(now));
            let n = list.len();
            &&& after.selection_items.len() == n
            &&& after.selection_items.reverse()[i] == HitView {
                date: date_key(now),
                entry: list[i],
            }
            &&& after.selection_state.selected == if app.journal_scroll < n {
                Some(app.journal_scroll)
            } else {
                Some((n - 1) as usize)
            }
            &&& after.journal_state.selected == Some(app.journal_scroll)
            &&& after.journal_state.offset == app.journal_state.offset
            &&& after == AppView {
                show_selection: true,
                selection_source: Some(SelectionSource::Journal),
                selection_items: after.selection_items,
                selection_state: after.selection_state,
                journal_state: after.journal_state,
                ..app
            }
        }),
{
}

/// The popup on a day without entries is empty.
pub proof fn law_popup_on_an_empty_day_is_empty(app: AppView, now: Moment)
    requires
        entries_of(app.journal, date_key(now)).len() == 0,
    ensures
        ({
            let after = app.showing_day(now);
            &&& after.selection_items.len() == 0
            &&& after.selection_state == ListState { selected: None, offset: 0 }
            &&& after == AppView {
                show_selection: true,
                selection_source: Some(SelectionSource::Journal),
                selection_items: Seq::empty(),
                selection_state: after.selection_state,
                ..app
            }
        }),
{
    assert(app.showing_day(now).selection_items =~= Seq::<HitView>::empty());
}

/// The popup moves as far as it is told, within its items, and takes along the cursor of the
/// list that it was opened from, and no other.
#[verifier::rlimit(30)]
pub proof fn law_popup_moves_within_its_items(app: AppView, delta: int)
    requires
        app.wf(),
        0 < app.selection_items.len() <= usize::MAX,
    ensures
        ({
            let after = app.popup_moved(delta);
            let n = app.selection_items.len();
            let from = match app.selection_state.selected {
                Some(row) => row as int,
                None => 0,
            };
            let results = app.selection_source == Some(SelectionSource::Search);
            let journal = app.selection_source == Some(SelectionSource::Journal);
            &&& after.selection_state.selected matches Some(row) && {
                &&& row < n
                &&& 0 <= from + delta < n ==> row == from + delta
                &&& from + delta < 0 ==> row == 0
                &&& from + delta >= n ==> row == n - 1
                &&& results ==> after.search_scroll == row && after.search_state.selected == Some(
                    row,
                )
                &&& journal ==> after.journal_scroll == row && after.journal_state.selected == Some(
                    row,
                )
            }
            &&& !results ==> after.search_scroll == app.search_scroll && after.search_state
                == app.search_state
            &&& !journal ==> after.journal_scroll == app.journal_scroll && after.journal_state
                == app.journal_state
            &&& after.selection_state.offset == app.selection_state.offset
            &&& after.search_state.offset == app.search_state.offset
            &&& after.journal_state.offset == app.journal_state.offset
            &&& after == AppView {
                selection_state: after.selection_state,
                search_scroll: after.search_scroll,
                search_state: after.search_state,
                journal_scroll: after.journal_scroll,
                journal_state: after.journal_state,
                ..app
            }
        }),
{
}

/// A session starts settled.
pub proof fn law_session_starts_settled(
    journal: Seq<DayView>,
    tasks: Seq<TaskView>,
    location: Seq<char>,
)
    ensures
        is_settled(initial(journal, tasks, location)),
{
}

/// Events, saving and drawing keep the cursor of the results on a result.
#[verifier::rlimit(30)]
pub proof fn law_cursors_stay_settled(
    app: AppView,
    event: Event,
    saved: Saved,
    now: Moment,
)
    requires
        app.wf(),
        is_settled(app),
        app.search_results.len() <= usize::MAX,
        app.selection_items.len() <= usize::MAX,
    ensures
        is_settled(event_step(app, event, now).0),
        is_settled(saved_step(app, saved)),
        is_settled(app.drawn(now)),
{
}

/// Drawing twice at one moment is drawing once.
pub proof fn law_drawing_is_idempotent(app: AppView, now: Moment)
    requires
        app.wf(),
        app.selection_items.len() <= usize::MAX,
        entries_of(app.journal, date_key(now)).len() <= usize::MAX,
    ensures
        app.drawn(now).drawn(now) == app.drawn(now),
{
}

} // verus!
