//! What each key does, to which part of the notebook, and what it leaves alone.
use crate::calendar::{clock_text, date_key, stamp_text, Moment};
use crate::input::{
    event_makes_task, event_step, key_step, pressed, reported, saved_step, Action, Event, KeyCode,
    KeyEvent, Saved,
};
use crate::journal::{entries_of, EntryView, TaskView};
use crate::laws::entries::law_entry_is_read_back;
use crate::laws::words::{
    has_bare_ends, is_blank, is_run, law_only_the_run_is_taken_off, law_run_is_taken_off,
    law_trim_leaves_the_middle, law_trim_takes_white_space_only,
};
use crate::screen::{draw_step, screen_of, ScreenView};
use crate::state::{
    day_step, done_step, entry_step, location_tags, prune_step, task_step, AppView, Focus,
    SelectionSource,
};
use crate::text::{is_white_space, trimmed, without_leading};
use vstd::prelude::*;

verus! {

/// A key that goes to the part in focus: the popup is closed, and it is neither Tab nor the
/// key that quits.
pub open spec fn goes_to_focus(app: AppView, key: KeyEvent) -> bool {
    &&& !app.show_selection
    &&& key.code != KeyCode::Tab
    &&& key.code != KeyCode::BackTab
    &&& !(key.code == KeyCode::Char('c') && key.modifiers.control && !key.modifiers.shift
        && !key.modifiers.other)
}

/// The state and what is left to do after a key.
pub open spec fn after_key(app: AppView, key: KeyEvent, now: Moment) -> (AppView, Action) {
    event_step(app, Event::Key(key), now)
}

/// What is typed is appended to the entry or to the search input, however long that is, and
/// nothing else changes. With Control held nothing is typed.
pub proof fn law_typing_appends(app: AppView, key: KeyEvent, c: char, now: Moment)
    requires
        goes_to_focus(app, key),
        key.code == KeyCode::Char(c),
    ensures
        app.focus == Focus::Entry && !key.modifiers.control ==> after_key(app, key, now) == (
            AppView { entry_buffer: app.entry_buffer.push(c), ..app },
            Action::Continue,
        ),
        app.focus == Focus::Search && !key.modifiers.control ==> after_key(app, key, now) == (
            AppView { search_input: app.search_input.push(c), ..app },
            Action::Continue,
        ),
        app.focus == Focus::Entry && key.modifiers.control ==> after_key(app, key, now) == (
            app,
            Action::Continue,
        ),
        app.focus == Focus::Search && key.modifiers.control && c != 'g' ==> after_key(app, key, now)
            == (app, Action::Continue),
        app.focus == Focus::Results && !(key.modifiers.control && c == 'g') ==> after_key(
            app,
            key,
            now,
        ) == (app, Action::Continue),
        app.focus == Focus::Tasks || app.focus == Focus::Journal ==> after_key(app, key, now) == (
            app,
            Action::Continue,
        ),
{
}

/// Control and G searches, from the input and from the results.
pub proof fn law_control_g_searches(app: AppView, key: KeyEvent, now: Moment)
    requires
        !app.show_selection,
        key.code == KeyCode::Char('g') && key.modifiers.control,
        app.focus == Focus::Search || app.focus == Focus::Results,
    ensures
        after_key(app, key, now) == (app.searched(), Action::Continue),
{
}

/// Backspace takes the last character off the entry or the search input, and only that; where
/// the search input is empty it closes the detail. Elsewhere it does nothing.
pub proof fn law_backspace_takes_one(app: AppView, key: KeyEvent, now: Moment)
    requires
        goes_to_focus(app, key),
        key.code == KeyCode::Backspace,
    ensures
        after_key(app, key, now).1 == Action::Continue,
        ({
            let after = after_key(app, key, now).0;
            let entry = app.entry_buffer;
            let input = app.search_input;
            &&& app.focus == Focus::Entry ==> after == AppView {
                entry_buffer: if entry.len() == 0 {
                    entry
                } else {
                    entry.take(entry.len() - 1)
                },
                ..app
            }
            &&& app.focus == Focus::Search && input.len() > 0 ==> after == AppView {
                search_input: input.take(input.len() - 1),
                ..app
            }
            &&& app.focus == Focus::Search && input.len() == 0 ==> after == AppView {
                search_selected_detail: None,
                ..app
            }
            &&& app.focus != Focus::Entry && app.focus != Focus::Search ==> after == app
        }),
{
    let after = after_key(app, key, now).0;
    if app.focus == Focus::Entry && app.entry_buffer.len() > 0 {
        assert(after.entry_buffer =~= app.entry_buffer.take(app.entry_buffer.len() - 1));
    }
    if app.focus == Focus::Search && app.search_input.len() > 0 {
        assert(after.search_input =~= app.search_input.take(app.search_input.len() - 1));
    }
}

/// Shift and Enter break the line of the entry; with Control, Enter does nothing there.
pub proof fn law_shift_enter_breaks_the_line(app: AppView, key: KeyEvent, now: Moment)
    requires
        goes_to_focus(app, key),
        app.focus == Focus::Entry,
        key.code == KeyCode::Enter,
    ensures
        key.modifiers.shift ==> after_key(app, key, now) == (
            AppView { entry_buffer: app.entry_buffer.push('\n'), ..app },
            Action::Continue,
        ),
        !key.modifiers.shift && key.modifiers.control ==> after_key(app, key, now) == (
            app,
            Action::Continue,
        ),
{
}

/// Up and Down scroll the entry by one line, from 0 to 10000.
pub proof fn law_arrows_scroll_the_entry(app: AppView, key: KeyEvent, now: Moment)
    requires
        goes_to_focus(app, key),
        app.focus == Focus::Entry,
    ensures
        ({
            let (after, action) = after_key(app, key, now);
            let line = app.entry_scroll as int;
            &&& key.code == KeyCode::Up || key.code == KeyCode::Down ==> action == Action::Continue
                && after == AppView { entry_scroll: after.entry_scroll, ..app }
            &&& key.code == KeyCode::Up ==> after.entry_scroll == if line > 0 {
                line - 1
            } else {
                0
            }
            &&& key.code == KeyCode::Down ==> after.entry_scroll == if line + 1 <= 10000 {
                line + 1
            } else {
                10000
            }
        }),
{
}

/// The tags of what is written in a session: the location, where there is one.
pub proof fn law_location_is_the_tag(location: Seq<char>)
    ensures
        location.len() > 0 ==> location_tags(location) == seq![location],
        location.len() == 0 ==> location_tags(location).len() == 0,
{
}

/// Enter submits what stands in the entry, without the white space around it: all of it goes
/// into a journal entry of the day, with the time and the location, and nothing else changes.
pub proof fn law_entry_is_submitted_whole(
    app: AppView,
    key: KeyEvent,
    now: Moment,
    a: Seq<char>,
    text: Seq<char>,
    b: Seq<char>,
)
    requires
        app.wf(),
        !app.show_selection,
        app.focus == Focus::Entry,
        key.code == KeyCode::Enter && !key.modifiers.shift && !key.modifiers.control,
        app.entry_buffer == a + text + b,
        is_blank(a),
        is_blank(b),
        text.len() > 0,
        has_bare_ends(text),
        text[0] != '*',
    ensures
        ({
            let (after, action) = after_key(app, key, now);
            &&& action == Action::Save(Saved::Entry)
            &&& entries_of(after.journal, date_key(now)) == entries_of(
                app.journal,
                date_key(now),
            ).push(
                EntryView {
                    time: clock_text(now),
                    text,
                    tags: if app.location.len() == 0 {
                        Seq::empty()
                    } else {
                        seq![app.location]
                    },
                },
            )
            &&& after == AppView { journal: after.journal, ..app }
        }),
{
    law_trim_leaves_the_middle(a, text, b);
    let entry = EntryView {
        time: clock_text(now),
        text,
        tags: location_tags(app.location),
    };
    law_entry_is_read_back(app.journal, date_key(now), entry);
}

/// Enter makes a task of what starts with asterisks: all that follows them and the white space
/// behind them is the text of the new task, which comes at the end of the list; nothing else
/// changes.
pub proof fn law_task_is_submitted_whole(
    app: AppView,
    key: KeyEvent,
    now: Moment,
    a: Seq<char>,
    stars: Seq<char>,
    blanks: Seq<char>,
    text: Seq<char>,
    b: Seq<char>,
)
    requires
        app.wf(),
        app.next_task_id < u64::MAX,
        app.tasks.len() < usize::MAX,
        !app.show_selection,
        app.focus == Focus::Entry,
        key.code == KeyCode::Enter && !key.modifiers.shift && !key.modifiers.control,
        app.entry_buffer == a + (stars + blanks + text) + b,
        is_blank(a),
        stars.len() > 0,
        is_run(stars, '*'),
        is_blank(blanks),
        text.len() > 0 || blanks.len() == 0,
        has_bare_ends(text),
        blanks.len() == 0 && text.len() > 0 ==> text[0] != '*',
        is_blank(b),
    ensures
        ({
            let (after, action) = after_key(app, key, now);
            &&& action == Action::Save(Saved::Task)
            &&& after.tasks == app.tasks.push(
                TaskView {
                    id: app.next_task_id,
                    text,
                    created_at: stamp_text(now),
                    completed_at: None,
                    tags: if app.location.len() == 0 {
                        Seq::empty()
                    } else {
                        seq![app.location]
                    },
                },
            )
            &&& after.next_task_id == app.next_task_id + 1
            &&& after == AppView {
                tasks: after.tasks,
                next_task_id: after.next_task_id,
                ..app
            }
        }),
{
    let none = Seq::<char>::empty();
    let whole = stars + blanks + text;
    assert(whole[0] == stars[0]);
    if text.len() > 0 {
        assert(whole.last() == text.last());
    } else {
        assert(whole.last() == stars[stars.len() - 1]);
    }
    assert(has_bare_ends(whole));
    law_trim_leaves_the_middle(a, whole, b);
    assert(whole =~= stars + (blanks + text));
    if blanks.len() > 0 {
        assert((blanks + text)[0] == blanks[0]);
        assert(is_white_space(blanks[0]));
    }
    law_run_is_taken_off(stars, blanks + text, '*');
    assert(blanks + text =~= blanks + text + none);
    law_trim_leaves_the_middle(blanks, text, none);
}

/// Nothing of a submitted task is lost: the trimmed entry is a run of asterisks, white space,
/// the text of the new task, and nothing more.
#[verifier::rlimit(30)]
pub proof fn law_nothing_of_a_task_is_lost(app: AppView, key: KeyEvent, now: Moment) -> (front: (
    Seq<char>,
    Seq<char>,
))
    requires
        !app.show_selection,
        app.focus == Focus::Entry,
        key.code == KeyCode::Enter && !key.modifiers.shift && !key.modifiers.control,
        trimmed(app.entry_buffer).len() > 0,
        trimmed(app.entry_buffer)[0] == '*',
    ensures
        ({
            let (after, action) = after_key(app, key, now);
            &&& action == Action::Save(Saved::Task)
            &&& after.tasks.len() == app.tasks.len() + 1
            &&& after.tasks.drop_last() == app.tasks
            &&& trimmed(app.entry_buffer) == front.0 + front.1 + after.tasks.last().text
            &&& is_run(front.0, '*')
            &&& is_blank(front.1)
            &&& has_bare_ends(after.tasks.last().text)
        }),
{
    let text = trimmed(app.entry_buffer);
    let after = after_key(app, key, now).0;
    let ends = law_trim_takes_white_space_only(app.entry_buffer);
    let run = law_only_the_run_is_taken_off(text, '*');
    let rest = without_leading(text, '*');
    let around = law_trim_takes_white_space_only(rest);
    // the end of the text is bare, so that nothing is taken off behind the task
    if around.1.len() > 0 {
        assert(rest.last() == around.1[around.1.len() - 1]);
        assert(text.last() == rest.last());
        assert(is_white_space(text.last()));
    }
    assert(around.1.len() == 0);
    assert(after.tasks.drop_last() =~= app.tasks);
    assert(rest =~= around.0 + trimmed(rest));
    assert(text =~= run + around.0 + trimmed(rest));
    (run, around.0)
}

/// Enter on white space only clears the entry and saves nothing.
pub proof fn law_blank_is_not_submitted(app: AppView, key: KeyEvent, now: Moment)
    requires
        !app.show_selection,
        app.focus == Focus::Entry,
        key.code == KeyCode::Enter && !key.modifiers.shift && !key.modifiers.control,
        is_blank(app.entry_buffer),
    ensures
        after_key(app, key, now) == (
            AppView { entry_buffer: Seq::empty(), entry_scroll: 0, ..app },
            Action::Continue,
        ),
{
    let none = Seq::<char>::empty();
    assert(app.entry_buffer =~= app.entry_buffer + none + none);
    law_trim_leaves_the_middle(app.entry_buffer, none, none);
}

/// Once a change is saved, a new task is under the cursor, and what was submitted is gone from
/// the entry; nothing else changes.
pub proof fn law_saving_settles(app: AppView)
    requires
        0 < app.tasks.len() <= usize::MAX,
    ensures
        ({
            let after = saved_step(app, Saved::Task);
            &&& after.tasks_scroll == app.tasks.len() - 1
            &&& after.tasks_state.selected == Some(after.tasks_scroll)
            &&& after.tasks_state.offset == app.tasks_state.offset
            &&& after == AppView {
                tasks_scroll: after.tasks_scroll,
                tasks_state: after.tasks_state,
                entry_buffer: Seq::empty(),
                entry_scroll: 0,
                ..app
            }
        }),
        saved_step(app, Saved::Entry) == (AppView {
            entry_buffer: Seq::empty(),
            entry_scroll: 0,
            ..app
        }),
        saved_step(app, Saved::Completion) == app,
{
}

/// Up and Down move the cursor of the tasks by one row, within the list.
pub proof fn law_arrows_move_through_tasks(app: AppView, key: KeyEvent, now: Moment)
    requires
        app.wf(),
        app.tasks.len() <= usize::MAX,
        goes_to_focus(app, key),
        app.focus == Focus::Tasks,
        key.code == KeyCode::Up || key.code == KeyCode::Down,
    ensures
        ({
            let (after, action) = after_key(app, key, now);
            let row = app.tasks_scroll as int;
            &&& action == Action::Continue
            &&& key.code == KeyCode::Up ==> after.tasks_scroll == if row > 0 {
                row - 1
            } else {
                0
            }
            &&& key.code == KeyCode::Down ==> after.tasks_scroll == if row + 1 < app.tasks.len() {
                row + 1
            } else {
                row
            }
            &&& after.tasks_state.selected == Some(after.tasks_scroll)
            &&& after.tasks_state.offset == app.tasks_state.offset
            &&& after == AppView {
                tasks_scroll: after.tasks_scroll,
                tasks_state: after.tasks_state,
                ..app
            }
        }),
{
}

/// Enter marks the task under the cursor done, where it is open, and saves that; a task that is
/// done, and an empty list, are left as they are.
pub proof fn law_enter_marks_the_task_under_the_cursor(app: AppView, key: KeyEvent, now: Moment)
    requires
        goes_to_focus(app, key),
        app.focus == Focus::Tasks,
        key.code == KeyCode::Enter,
    ensures
        ({
            let row = app.tasks_scroll as int;
            let open = row < app.tasks.len() && app.tasks[row].completed_at is None;
            &&& open ==> after_key(app, key, now) == (
                app.with_task_done_at(row, now),
                Action::Save(Saved::Completion),
            )
            &&& !open ==> after_key(app, key, now) == (app, Action::Continue)
        }),
{
}

/// Enter searches where there is something to search for, whatever its length; Shift adds a
/// line break to the input.
pub proof fn law_enter_searches(app: AppView, key: KeyEvent, now: Moment, i: int)
    requires
        goes_to_focus(app, key),
        app.focus == Focus::Search,
        key.code == KeyCode::Enter,
        0 <= i < app.search_input.len(),
        !is_white_space(app.search_input[i]),
    ensures
        after_key(app, key, now).1 == Action::Continue,
        !key.modifiers.shift ==> after_key(app, key, now).0 == app.searched(),
        key.modifiers.shift ==> after_key(app, key, now).0 == (AppView {
            search_input: app.search_input.push('\n'),
            ..app.searched()
        }),
{
    let ends = law_trim_takes_white_space_only(app.search_input);
    if trimmed(app.search_input).len() == 0 {
        if i < ends.0.len() {
            assert(app.search_input[i] == ends.0[i]);
        } else {
            assert(app.search_input[i] == ends.1[i - ends.0.len()]);
        }
    }
}

/// With nothing to search for, Enter by itself opens the selected result where there is one;
/// otherwise it does nothing, but for the line break that Shift adds.
pub proof fn law_enter_on_blank_input_opens(app: AppView, key: KeyEvent, now: Moment)
    requires
        goes_to_focus(app, key),
        app.focus == Focus::Search,
        key.code == KeyCode::Enter,
        is_blank(app.search_input),
    ensures
        ({
            let (after, action) = after_key(app, key, now);
            let bare = !key.modifiers.shift && !key.modifiers.control && !key.modifiers.other;
            &&& action == Action::Continue
            &&& bare && app.search_results.len() > 0 ==> after == app.showing_results()
            &&& bare && app.search_results.len() == 0 ==> after == app
            &&& key.modifiers.shift ==> after == AppView {
                search_input: app.search_input.push('\n'),
                ..app
            }
            &&& !bare && !key.modifiers.shift ==> after == app
        }),
{
    let none = Seq::<char>::empty();
    assert(app.search_input =~= app.search_input + none + none);
    law_trim_leaves_the_middle(app.search_input, none, none);
}

/// Up and Down move the cursor of the results by one row, within the list, from the input and
/// from the results; without results they do nothing.
pub proof fn law_arrows_move_through_results(app: AppView, key: KeyEvent, now: Moment)
    requires
        app.search_results.len() <= usize::MAX,
        app.search_results.len() > 0 ==> app.search_scroll < app.search_results.len(),
        goes_to_focus(app, key),
        app.focus == Focus::Search || app.focus == Focus::Results,
        key.code == KeyCode::Up || key.code == KeyCode::Down,
    ensures
        ({
            let (after, action) = after_key(app, key, now);
            let row = app.search_scroll as int;
            let n = app.search_results.len();
            &&& action == Action::Continue
            &&& n == 0 ==> after == app
            &&& n > 0 ==> {
                &&& key.code == KeyCode::Up ==> after.search_scroll == if row > 0 {
                    row - 1
                } else {
                    0
                }
                &&& key.code == KeyCode::Down ==> after.search_scroll == if row + 1 < n {
                    row + 1
                } else {
                    row
                }
                &&& after.search_state.selected == Some(after.search_scroll)
                &&& after.search_state.offset == app.search_state.offset
                &&& after == AppView {
                    search_scroll: after.search_scroll,
                    search_state: after.search_state,
                    ..app
                }
            }
        }),
{
}

/// Enter opens the selected result.
pub proof fn law_enter_opens_the_result(app: AppView, key: KeyEvent, now: Moment)
    requires
        goes_to_focus(app, key),
        app.focus == Focus::Results,
        key.code == KeyCode::Enter,
    ensures
        app.search_results.len() > 0 ==> after_key(app, key, now) == (
            app.showing_results(),
            Action::Continue,
        ),
        app.search_results.len() == 0 ==> after_key(app, key, now) == (app, Action::Continue),
{
}

/// Up and Down move the cursor of the journal by one row, and Enter opens the day.
pub proof fn law_keys_of_the_journal(app: AppView, key: KeyEvent, now: Moment)
    requires
        goes_to_focus(app, key),
        app.focus == Focus::Journal,
        app.journal_scroll < usize::MAX,
    ensures
        ({
            let (after, action) = after_key(app, key, now);
            let row = app.journal_scroll as int;
            &&& action == Action::Continue
            &&& key.code == KeyCode::Enter ==> after == app.showing_day(now)
            &&& key.code == KeyCode::Up ==> after.journal_scroll == if row > 0 {
                row - 1
            } else {
                0
            }
            &&& key.code == KeyCode::Down ==> after.journal_scroll == row + 1
            &&& key.code == KeyCode::Up || key.code == KeyCode::Down ==> {
                &&& after.journal_state.selected == Some(after.journal_scroll)
                &&& after.journal_state.offset == app.journal_state.offset
                &&& after == AppView {
                    journal_scroll: after.journal_scroll,
                    journal_state: after.journal_state,
                    ..app
                }
            }
        }),
{
}

/// Escape and the keys without a meaning do nothing while the popup is closed.
pub proof fn law_other_keys_do_nothing(app: AppView, key: KeyEvent, now: Moment)
    requires
        !app.show_selection,
        key.code == KeyCode::Esc || key.code == KeyCode::Other,
    ensures
        after_key(app, key, now) == (app, Action::Continue),
{
}

/// Tab moves the focus one on, Shift and Tab or the key for both one back; nothing else changes.
pub proof fn law_tab_moves_the_focus_only(app: AppView, key: KeyEvent, now: Moment)
    requires
        !app.show_selection,
        key.code == KeyCode::Tab || key.code == KeyCode::BackTab,
    ensures
        ({
            let (after, action) = after_key(app, key, now);
            let forth = key.code == KeyCode::Tab && !key.modifiers.shift;
            &&& action == Action::Continue
            &&& after == AppView { focus: after.focus, ..app }
            &&& forth ==> match app.focus {
                Focus::Entry => after.focus == Focus::Tasks,
                Focus::Tasks => after.focus == Focus::Search,
                Focus::Search => after.focus == Focus::Results,
                Focus::Results => after.focus == Focus::Journal,
                Focus::Journal => after.focus == Focus::Entry,
            }
            &&& !forth ==> match after.focus {
                Focus::Entry => app.focus == Focus::Tasks,
                Focus::Tasks => app.focus == Focus::Search,
                Focus::Search => app.focus == Focus::Results,
                Focus::Results => app.focus == Focus::Journal,
                Focus::Journal => app.focus == Focus::Entry,
            }
        }),
{
}

/// A key quits exactly where it is C with Control and no other modifier.
pub proof fn law_only_control_c_quits(app: AppView, key: KeyEvent, now: Moment)
    ensures
        after_key(app, key, now).1 == Action::Quit <==> key.code == KeyCode::Char('c')
            && key.modifiers.control && !key.modifiers.shift && !key.modifiers.other,
{
}

/// In the popup Escape closes it, Up and Down move by one, and every other key does nothing.
pub proof fn law_keys_of_the_popup(app: AppView, key: KeyEvent, now: Moment)
    requires
        app.show_selection,
        !(key.code == KeyCode::Char('c') && key.modifiers.control && !key.modifiers.shift
            && !key.modifiers.other),
    ensures
        ({
            let (after, action) = after_key(app, key, now);
            &&& action == Action::Continue
            &&& key.code == KeyCode::Esc ==> {
                &&& after.selection_state.selected is None && after.selection_state.offset == 0
                &&& after == AppView {
                    show_selection: false,
                    selection_source: None,
                    selection_state: after.selection_state,
                    ..app
                }
            }
            &&& key.code == KeyCode::Up ==> after == app.popup_moved(-1)
            &&& key.code == KeyCode::Down ==> after == app.popup_moved(1)
            &&& key.code != KeyCode::Esc && key.code != KeyCode::Up && key.code != KeyCode::Down
                ==> after == app
        }),
{
}

/// Pasted text is appended whole to the entry or to the search input, by the focus; elsewhere
/// it is dropped, and so is every other event.
pub proof fn law_pasting_appends(app: AppView, text: String, now: Moment)
    ensures
        event_step(app, Event::Paste(text), now) == (
            match app.focus {
                Focus::Entry => AppView { entry_buffer: app.entry_buffer + text@, ..app },
                Focus::Search => AppView { search_input: app.search_input + text@, ..app },
                _ => app,
            },
            Action::Continue,
        ),
        event_step(app, Event::Other, now) == (app, Action::Continue),
{
}

/// Going down one row and up again in the popup leads to the same item, away from the end.
pub proof fn law_popup_comes_back(app: AppView)
    requires
        app.wf(),
        app.selection_items.len() <= usize::MAX,
        app.selection_state.selected matches Some(row) && row + 1 < app.selection_items.len(),
    ensures
        app.popup_moved(1).popup_moved(-1).selection_state == app.selection_state,
        app.selection_source == Some(SelectionSource::Search)
            ==> app.popup_moved(1).popup_moved(-1).search_scroll
            == app.selection_state.selected->0,
{
}

/// An id is needed exactly where a task is to be saved.
pub proof fn law_only_new_tasks_need_an_id(app: AppView, event: Event, now: Moment)
    ensures
        event_makes_task(app, event) <==> event_step(app, event, now).1 == Action::Save(
            Saved::Task,
        ),
{
}

/// What the clock decides is the moment alone: at whatever moment it is, a change is the one of
/// that moment.
pub proof fn law_clock_decides_the_moment_only(
    before: AppView,
    after: AppView,
    action: Action,
    text: Seq<char>,
    tags: Seq<Seq<char>>,
    idx: int,
    key: KeyEvent,
    event: Event,
    screen: ScreenView,
    now: Moment,
)
    ensures
        entry_step(before, after, text, tags, now) ==> now.wf() && after == before.with_entry_at(
            now,
            text,
            tags,
        ),
        task_step(before, after, text, tags, now) ==> now.wf() && after == before.with_task_at(
            now,
            text,
            tags,
        ),
        done_step(before, after, idx, now) ==> now.wf() && after == before.with_task_done_at(
            idx,
            now,
        ),
        prune_step(before, after, now) ==> now.wf() && after == before.pruned(
            (now.year, now.month, now.day),
        ),
        day_step(before, after, now) ==> now.wf() && after == before.showing_day(now),
        pressed(before, (after, action), key, now) ==> now.wf() && (after, action) == key_step(
            before,
            key,
            now,
        ),
        reported(before, (after, action), event, now) ==> now.wf() && (after, action)
            == event_step(before, event, now),
        draw_step(before, after, screen, now) ==> now.wf() && after == before.drawn(now) && screen
            == screen_of(before, now),
{
}

/// A key that is handled by itself does what it does as an event, but for Tab and the key that
/// quits, which are seen to before.
pub proof fn law_keys_are_events(app: AppView, key: KeyEvent, now: Moment)
    requires
        goes_to_focus(app, key) || (app.show_selection && after_key(app, key, now).1
            != Action::Quit),
    ensures
        key_step(app, key, now) == after_key(app, key, now),
{
}

} // verus!
