//! What the keys do.
use crate::calendar::{local_now, Moment};
use crate::state::{
    last_row, location_tags, next_focus, prev_focus, tags_for, AppState, AppView, Focus,
};
use crate::text::{strip_leading, trim, trimmed, without_leading};
use vstd::prelude::*;

verus! {

/// The keys that mean something here; every other key is `Other`.
#[derive(Clone, Copy, Debug, PartialEq, Eq, Structural)]
pub enum KeyCode {
    Char(char),
    Enter,
    Backspace,
    Tab,
    BackTab,
    Esc,
    Up,
    Down,
    Other,
}

/// The modifier keys that are held down; `other` is any but Shift and Control.
#[derive(Clone, Copy, Debug, PartialEq, Eq, Structural)]
pub struct KeyModifiers {
    pub shift: bool,
    pub control: bool,
    pub other: bool,
}

#[derive(Clone, Copy, Debug, PartialEq, Eq, Structural)]
pub struct KeyEvent {
    pub code: KeyCode,
    pub modifiers: KeyModifiers,
}

/// What the terminal reports.
#[derive(Debug)]
pub enum Event {
    Key(KeyEvent),
    Paste(String),
    Other,
}

/// What has changed and is to be saved.
#[derive(Clone, Copy, Debug, PartialEq, Eq, Structural)]
pub enum Saved {
    Task,
    Entry,
    Completion,
}

/// What is left to do after an event. After `Save`, once the data is on disk,
/// [`after_save`] is due.
#[derive(Clone, Copy, Debug, PartialEq, Eq, Structural)]
pub enum Action {
    Continue,
    Quit,
    Save(Saved),
}

/// The furthest that the entry can be scrolled.
pub const MAX_ENTRY_SCROLL: u16 = 10_000;

/// A key without Shift and Control that submits.
pub open spec fn is_submit(key: KeyEvent) -> bool {
    key.code == KeyCode::Enter && !key.modifiers.shift && !key.modifiers.control
}

/// Enter by itself, without any modifier.
pub open spec fn is_bare_enter(key: KeyEvent) -> bool {
    key.code == KeyCode::Enter && !key.modifiers.shift && !key.modifiers.control
        && !key.modifiers.other
}

/// The letter G with Control.
pub open spec fn is_search_key(key: KeyEvent) -> bool {
    key.code == KeyCode::Char('g') && key.modifiers.control
}

/// Control and C, and no other modifier.
pub open spec fn is_quit(key: KeyEvent) -> bool {
    key.code == KeyCode::Char('c') && key.modifiers.control && !key.modifiers.shift
        && !key.modifiers.other
}

/// The text makes a task: it starts with an asterisk.
pub open spec fn is_task_text(text: Seq<char>) -> bool {
    text.len() > 0 && text[0] == '*'
}

/// The text of a task: without the asterisks that it starts with, and trimmed.
pub open spec fn task_text(text: Seq<char>) -> Seq<char> {
    trimmed(without_leading(text, '*'))
}

/// The key makes a task of what stands in the entry.
pub open spec fn makes_task(app: AppView, key: KeyEvent) -> bool {
    &&& !app.show_selection
    &&& app.focus == Focus::Entry
    &&& is_submit(key)
    &&& is_task_text(trimmed(app.entry_buffer))
}

impl AppView {
    /// With an empty entry.
    pub open spec fn entry_cleared(self) -> AppView {
        AppView { entry_buffer: Seq::empty(), entry_scroll: 0, ..self }
    }

    /// With the cursor of the results one row up, if there is one.
    pub open spec fn results_up(self) -> AppView {
        if self.search_results.len() == 0 {
            self
        } else {
            let row = if self.search_scroll > 0 {
                (self.search_scroll - 1) as usize
            } else {
                self.search_scroll
            };
            AppView {
                search_scroll: row,
                search_state: self.search_state.selecting(Some(row)),
                ..self
            }
        }
    }

    /// With the cursor of the results one row down, if there is one.
    pub open spec fn results_down(self) -> AppView {
        if self.search_results.len() == 0 {
            self
        } else {
            let row = if self.search_scroll < self.search_results.len() - 1 {
                (self.search_scroll + 1) as usize
            } else {
                self.search_scroll
            };
            AppView {
                search_scroll: row,
                search_state: self.search_state.selecting(Some(row)),
                ..self
            }
        }
    }
}

/// A key while the popup is open.
pub open spec fn popup_key(app: AppView, key: KeyEvent) -> AppView {
    match key.code {
        KeyCode::Esc => app.popup_closed(),
        KeyCode::Up => app.popup_moved(-1),
        KeyCode::Down => app.popup_moved(1),
        _ => app,
    }
}

/// A submitted entry: blank, a task, or a line for the journal.
pub open spec fn submitted(app: AppView, now: Moment) -> (AppView, Action) {
    let text = trimmed(app.entry_buffer);
    let tags = location_tags(app.location);
    if text.len() == 0 {
        (app.entry_cleared(), Action::Continue)
    } else if is_task_text(text) {
        (app.with_task_at(now, task_text(text), tags), Action::Save(Saved::Task))
    } else {
        (app.with_entry_at(now, text, tags), Action::Save(Saved::Entry))
    }
}

/// A key in the entry.
pub open spec fn entry_key(app: AppView, key: KeyEvent, now: Moment) -> (AppView, Action) {
    match key.code {
        KeyCode::Enter => if key.modifiers.shift {
            (AppView { entry_buffer: app.entry_buffer.push('\n'), ..app }, Action::Continue)
        } else if key.modifiers.control {
            (app, Action::Continue)
        } else {
            submitted(app, now)
        },
        KeyCode::Char(c) => if key.modifiers.control {
            (app, Action::Continue)
        } else {
            (AppView { entry_buffer: app.entry_buffer.push(c), ..app }, Action::Continue)
        },
        KeyCode::Backspace => if app.entry_buffer.len() == 0 {
            (app, Action::Continue)
        } else {
            (AppView { entry_buffer: app.entry_buffer.drop_last(), ..app }, Action::Continue)
        },
        KeyCode::Up => if app.entry_scroll > 0 {
            (AppView { entry_scroll: (app.entry_scroll - 1) as u16, ..app }, Action::Continue)
        } else {
            (app, Action::Continue)
        },
        KeyCode::Down => (
            AppView {
                entry_scroll: if app.entry_scroll < MAX_ENTRY_SCROLL {
                    (app.entry_scroll + 1) as u16
                } else {
                    MAX_ENTRY_SCROLL
                },
                ..app
            },
            Action::Continue,
        ),
        _ => (app, Action::Continue),
    }
}

/// A key in the list of tasks.
pub open spec fn tasks_key(app: AppView, key: KeyEvent, now: Moment) -> (AppView, Action) {
    match key.code {
        KeyCode::Up => {
            let row = if app.tasks_scroll > 0 {
                (app.tasks_scroll - 1) as usize
            } else {
                app.tasks_scroll
            };
            (
                AppView {
                    tasks_scroll: row,
                    tasks_state: app.tasks_state.selecting(Some(row)),
                    ..app
                },
                Action::Continue,
            )
        },
        KeyCode::Down => {
            let row = if app.tasks_scroll + 1 < app.tasks.len() {
                (app.tasks_scroll + 1) as usize
            } else {
                app.tasks_scroll
            };
            (
                AppView {
                    tasks_scroll: row,
                    tasks_state: app.tasks_state.selecting(Some(row)),
                    ..app
                },
                Action::Continue,
            )
        },
        KeyCode::Enter => {
            let idx = app.tasks_scroll as int;
            if idx < app.tasks.len() && app.tasks[idx].completed_at is None {
                (app.with_task_done_at(idx, now), Action::Save(Saved::Completion))
            } else {
                (app, Action::Continue)
            }
        },
        _ => (app, Action::Continue),
    }
}

/// A key in the search input. Enter searches for what stands there; with nothing there, Enter
/// by itself opens the selected result.
pub open spec fn search_key(app: AppView, key: KeyEvent) -> AppView {
    if is_search_key(key) {
        app.searched()
    } else {
        match key.code {
            KeyCode::Enter => {
                let found = if trimmed(app.search_input).len() > 0 {
                    app.searched()
                } else if is_bare_enter(key) && app.search_results.len() > 0 {
                    app.showing_results()
                } else {
                    app
                };
                if key.modifiers.shift {
                    AppView { search_input: found.search_input.push('\n'), ..found }
                } else {
                    found
                }
            },
            KeyCode::Char(c) => if key.modifiers.control {
                app
            } else {
                AppView { search_input: app.search_input.push(c), ..app }
            },
            KeyCode::Backspace => if app.search_input.len() > 0 {
                AppView { search_input: app.search_input.drop_last(), ..app }
            } else {
                AppView { search_selected_detail: None, ..app }
            },
            KeyCode::Up => app.results_up(),
            KeyCode::Down => app.results_down(),
            _ => app,
        }
    }
}

/// A key in the list of results.
pub open spec fn results_key(app: AppView, key: KeyEvent) -> AppView {
    match key.code {
        KeyCode::Up => app.results_up(),
        KeyCode::Down => app.results_down(),
        KeyCode::Enter => if app.search_results.len() > 0 {
            app.showing_results()
        } else {
            app
        },
        _ => if is_search_key(key) {
            app.searched()
        } else {
            app
        },
    }
}

/// A key in the journal.
pub open spec fn journal_key(app: AppView, key: KeyEvent, now: Moment) -> AppView {
    match key.code {
        KeyCode::Up => {
            let row = if app.journal_scroll > 0 {
                (app.journal_scroll - 1) as usize
            } else {
                app.journal_scroll
            };
            AppView {
                journal_scroll: row,
                journal_state: app.journal_state.selecting(Some(row)),
                ..app
            }
        },
        KeyCode::Down => {
            let row = if app.journal_scroll < usize::MAX {
                (app.journal_scroll + 1) as usize
            } else {
                app.journal_scroll
            };
            AppView {
                journal_scroll: row,
                journal_state: app.journal_state.selecting(Some(row)),
                ..app
            }
        },
        KeyCode::Enter => app.showing_day(now),
        _ => app,
    }
}

/// A key: for the popup while it is open, and otherwise for the part in focus.
pub open spec fn key_step(app: AppView, key: KeyEvent, now: Moment) -> (AppView, Action) {
    if app.show_selection {
        (popup_key(app, key), Action::Continue)
    } else {
        match app.focus {
            Focus::Entry => entry_key(app, key, now),
            Focus::Tasks => tasks_key(app, key, now),
            Focus::Search => (search_key(app, key), Action::Continue),
            Focus::Results => (results_key(app, key), Action::Continue),
            Focus::Journal => (journal_key(app, key, now), Action::Continue),
        }
    }
}

/// A key before it comes to [`key_step`]: Control and C quits, and with the popup closed Tab
/// moves the focus.
pub open spec fn terminal_key(app: AppView, key: KeyEvent, now: Moment) -> (AppView, Action) {
    if is_quit(key) {
        (app, Action::Quit)
    } else if app.show_selection {
        key_step(app, key, now)
    } else if key.code == KeyCode::Tab {
        let focus = if key.modifiers.shift {
            prev_focus(app.focus)
        } else {
            next_focus(app.focus)
        };
        (AppView { focus, ..app }, Action::Continue)
    } else if key.code == KeyCode::BackTab {
        (AppView { focus: prev_focus(app.focus), ..app }, Action::Continue)
    } else {
        key_step(app, key, now)
    }
}

/// Pasted text goes to the entry or to the search input.
pub open spec fn pasted(app: AppView, text: Seq<char>) -> AppView {
    match app.focus {
        Focus::Entry => AppView { entry_buffer: app.entry_buffer + text, ..app },
        Focus::Search => AppView { search_input: app.search_input + text, ..app },
        _ => app,
    }
}

/// What an event does.
pub open spec fn event_step(app: AppView, event: Event, now: Moment) -> (AppView, Action) {
    match event {
        Event::Key(key) => terminal_key(app, key, now),
        Event::Paste(text) => (pasted(app, text@), Action::Continue),
        Event::Other => (app, Action::Continue),
    }
}

/// The state once what has changed is saved.
pub open spec fn saved_step(app: AppView, saved: Saved) -> AppView {
    match saved {
        Saved::Task => {
            let row = last_row(app.tasks.len());
            AppView {
                tasks_scroll: row,
                tasks_state: app.tasks_state.selecting(Some(row)),
                ..app
            }.entry_cleared()
        },
        Saved::Entry => app.entry_cleared(),
        Saved::Completion => app,
    }
}

/// The event needs an id for a task.
pub open spec fn event_makes_task(app: AppView, event: Event) -> bool {
    match event {
        Event::Key(key) => makes_task(app, key),
        _ => false,
    }
}

fn handle_popup_key(app: &mut AppState, key: KeyEvent)
    requires
        old(app).wf(),
    ensures
        final(app).wf(),
        final(app)@ == popup_key(old(app)@, key),
{
    match key.code {
        KeyCode::Esc => {
            app.close_selection();
        },
        KeyCode::Up => {
            app.popup_move_selection(-1);
        },
        KeyCode::Down => {
            app.popup_move_selection(1);
        },
        _ => {},
    }
}

/// Submits what stands in the entry.
pub fn submit_entry(app: &mut AppState, now: &Moment) -> (res: Action)
    requires
        old(app).wf(),
        now.wf(),
        is_task_text(trimmed(old(app)@.entry_buffer)) ==> old(app).next_task_id < u64::MAX,
    ensures
        final(app).wf(),
        (final(app)@, res) == submitted(old(app)@, *now),
{
    let tags = tags_for(app.location.as_str());
    let text = trim(app.entry_buffer.as_str());
    if text.as_str().is_empty() {
        clear_entry(app);
        return Action::Continue;
    }
    if text.as_str().get_char(0) == '*' {
        let bare = strip_leading(text.as_str(), '*');
        app.add_task_at(now, trim(bare.as_str()), tags);
        Action::Save(Saved::Task)
    } else {
        app.add_entry_at(now, text, tags);
        Action::Save(Saved::Entry)
    }
}

fn clear_entry(app: &mut AppState)
    requires
        old(app).wf(),
    ensures
        final(app).wf(),
        final(app)@ == old(app)@.entry_cleared(),
{
    app.entry_buffer = String::new();
    app.entry_scroll = 0;
    proof { assert(app@ =~= old(app)@.entry_cleared()); }
}

fn handle_entry_key(app: &mut AppState, key: KeyEvent, now: &Moment) -> (res: Action)
    requires
        old(app).wf(),
        now.wf(),
        is_submit(key) && is_task_text(trimmed(old(app)@.entry_buffer)) ==> old(app).next_task_id
            < u64::MAX,
    ensures
        final(app).wf(),
        (final(app)@, res) == entry_key(old(app)@, key, *now),
{
    match key.code {
        KeyCode::Enter => {
            if key.modifiers.shift {
                app.entry_buffer.push('\n');
            } else if !key.modifiers.control {
                return submit_entry(app, now);
            }
        },
        KeyCode::Char(c) => {
            if !key.modifiers.control {
                app.entry_buffer.push(c);
            }
        },
        KeyCode::Backspace => {
            app.entry_buffer.pop();
        },
        KeyCode::Up => {
            if app.entry_scroll > 0 {
                app.entry_scroll = app.entry_scroll - 1;
            }
        },
        KeyCode::Down => {
            if app.entry_scroll < MAX_ENTRY_SCROLL {
                app.entry_scroll = app.entry_scroll + 1;
            } else {
                app.entry_scroll = MAX_ENTRY_SCROLL;
            }
        },
        _ => {},
    }
    proof { assert(app@ =~= entry_key(old(app)@, key, *now).0); }
    Action::Continue
}

fn handle_tasks_key(app: &mut AppState, key: KeyEvent, now: &Moment) -> (res: Action)
    requires
        old(app).wf(),
        now.wf(),
    ensures
        final(app).wf(),
        (final(app)@, res) == tasks_key(old(app)@, key, *now),
{
    match key.code {
        KeyCode::Up => {
            if app.tasks_scroll > 0 {
                app.tasks_scroll = app.tasks_scroll - 1;
            }
            app.tasks_state.select(Some(app.tasks_scroll));
        },
        KeyCode::Down => {
            let n: usize = app.data.tasks.len();
            if n > 0 && app.tasks_scroll < n - 1 {
                app.tasks_scroll = app.tasks_scroll + 1;
            }
            app.tasks_state.select(Some(app.tasks_scroll));
        },
        KeyCode::Enter => {
            let idx: usize = app.tasks_scroll;
            if idx < app.data.tasks.len() && app.data.tasks[idx].completed_at.is_none() {
                app.complete_task_at(idx, now);
                return Action::Save(Saved::Completion);
            }
        },
        _ => {},
    }
    proof { assert(app@ =~= tasks_key(old(app)@, key, *now).0); }
    Action::Continue
}

fn move_results_up(app: &mut AppState)
    requires
        old(app).wf(),
    ensures
        final(app).wf(),
        final(app)@ == old(app)@.results_up(),
{
    if app.search_results.len() != 0 {
        if app.search_scroll > 0 {
            app.search_scroll = app.search_scroll - 1;
        }
        app.search_state.select(Some(app.search_scroll));
    }
    proof { assert(app@ =~= old(app)@.results_up()); }
}

fn move_results_down(app: &mut AppState)
    requires
        old(app).wf(),
    ensures
        final(app).wf(),
        final(app)@ == old(app)@.results_down(),
{
    let n: usize = app.search_results.len();
    if n != 0 {
        if app.search_scroll < n - 1 {
            app.search_scroll = app.search_scroll + 1;
        }
        app.search_state.select(Some(app.search_scroll));
    }
    proof { assert(app@ =~= old(app)@.results_down()); }
}

fn handle_search_key(app: &mut AppState, key: KeyEvent)
    requires
        old(app).wf(),
    ensures
        final(app).wf(),
        final(app)@ == search_key(old(app)@, key),
{
    if key.code == KeyCode::Char('g') && key.modifiers.control {
        app.run_search();
        return;
    }
    match key.code {
        KeyCode::Enter => {
            if !trim(app.search_input.as_str()).as_str().is_empty() {
                app.run_search();
            } else if !key.modifiers.shift && !key.modifiers.control && !key.modifiers.other
                && app.search_results.len() != 0 {
                app.open_selection_from_search();
            }
            if key.modifiers.shift {
                app.search_input.push('\n');
            }
        },
        KeyCode::Char(c) => {
            if !key.modifiers.control {
                app.search_input.push(c);
            }
        },
        KeyCode::Backspace => {
            if !app.search_input.as_str().is_empty() {
                app.search_input.pop();
            } else {
                app.search_selected_detail = None;
            }
        },
        KeyCode::Up => {
            move_results_up(app);
        },
        KeyCode::Down => {
            move_results_down(app);
        },
        _ => {},
    }
    proof { assert(app@ =~= search_key(old(app)@, key)); }
}

fn handle_results_key(app: &mut AppState, key: KeyEvent)
    requires
        old(app).wf(),
    ensures
        final(app).wf(),
        final(app)@ == results_key(old(app)@, key),
{
    match key.code {
        KeyCode::Up => {
            move_results_up(app);
        },
        KeyCode::Down => {
            move_results_down(app);
        },
        KeyCode::Enter => {
            if app.search_results.len() != 0 {
                app.open_selection_from_search();
            }
        },
        _ => {
            if key.code == KeyCode::Char('g') && key.modifiers.control {
                app.run_search();
            }
        },
    }
}

fn handle_journal_key(app: &mut AppState, key: KeyEvent, now: &Moment)
    requires
        old(app).wf(),
        now.wf(),
    ensures
        final(app).wf(),
        final(app)@ == journal_key(old(app)@, key, *now),
{
    match key.code {
        KeyCode::Up => {
            if app.journal_scroll > 0 {
                app.journal_scroll = app.journal_scroll - 1;
            }
            app.journal_state.select(Some(app.journal_scroll));
        },
        KeyCode::Down => {
            app.journal_scroll = app.journal_scroll.saturating_add(1);
            app.journal_state.select(Some(app.journal_scroll));
        },
        KeyCode::Enter => {
            app.open_selection_from_journal_at(now);
        },
        _ => {},
    }
    proof { assert(app@ =~= journal_key(old(app)@, key, *now)); }
}

/// Handles a key that was pressed at `now`.
pub fn handle_key_event_at(app: &mut AppState, key: KeyEvent, now: &Moment) -> (res: Action)
    requires
        old(app).wf(),
        now.wf(),
        makes_task(old(app)@, key) ==> old(app).next_task_id < u64::MAX,
    ensures
        final(app).wf(),
        (final(app)@, res) == key_step(old(app)@, key, *now),
{
    if app.show_selection {
        handle_popup_key(app, key);
        return Action::Continue;
    }
    match app.focus {
        Focus::Entry => handle_entry_key(app, key, now),
        Focus::Tasks => handle_tasks_key(app, key, now),
        Focus::Search => {
            handle_search_key(app, key);
            Action::Continue
        },
        Focus::Results => {
            handle_results_key(app, key);
            Action::Continue
        },
        Focus::Journal => {
            handle_journal_key(app, key, now);
            Action::Continue
        },
    }
}

/// A state after a key was pressed at some moment.
pub open spec fn pressed(
    before: AppView,
    after: (AppView, Action),
    key: KeyEvent,
    now: Moment,
) -> bool {
    now.wf() && after == key_step(before, key, now)
}

/// Handles a key that was pressed now.
pub fn handle_key_event(app: &mut AppState, key: KeyEvent) -> (res: Action)
    requires
        old(app).wf(),
        makes_task(old(app)@, key) ==> old(app).next_task_id < u64::MAX,
    ensures
        final(app).wf(),
        exists|now: Moment| #[trigger] pressed(old(app)@, (final(app)@, res), key, now),
{
    let now = local_now().local;
    let res = handle_key_event_at(app, key, &now);
    proof { assert(pressed(old(app)@, (app@, res), key, now)); }
    res
}

/// Whether an event makes a task, which takes an id.
pub fn would_make_task(app: &AppState, event: &Event) -> (res: bool)
    ensures
        res == event_makes_task(app@, *event),
{
    match event {
        Event::Key(key) => {
            let m = key.modifiers;
            if app.show_selection || app.focus != Focus::Entry || key.code != KeyCode::Enter
                || m.shift || m.control {
                return false;
            }
            let text = trim(app.entry_buffer.as_str());
            !text.as_str().is_empty() && text.as_str().get_char(0) == '*'
        },
        _ => false,
    }
}

/// Handles an event that the terminal reported at `now`.
pub fn handle_event_at(app: &mut AppState, event: Event, now: &Moment) -> (res: Action)
    requires
        old(app).wf(),
        now.wf(),
        event_makes_task(old(app)@, event) ==> old(app).next_task_id < u64::MAX,
    ensures
        final(app).wf(),
        (final(app)@, res) == event_step(old(app)@, event, *now),
{
    match event {
        Event::Key(key) => {
            let m = key.modifiers;
            if key.code == KeyCode::Char('c') && m.control && !m.shift && !m.other {
                return Action::Quit;
            }
            if app.show_selection {
                return handle_key_event_at(app, key, now);
            }
            if key.code == KeyCode::Tab {
                if m.shift {
                    app.focus = app.focus.prev();
                } else {
                    app.focus = app.focus.next();
                }
                proof { assert(app@ =~= event_step(old(app)@, event, *now).0); }
                return Action::Continue;
            }
            if key.code == KeyCode::BackTab {
                app.focus = app.focus.prev();
                proof { assert(app@ =~= event_step(old(app)@, event, *now).0); }
                return Action::Continue;
            }
            handle_key_event_at(app, key, now)
        },
        Event::Paste(text) => {
            match app.focus {
                Focus::Entry => app.entry_buffer.append(text.as_str()),
                Focus::Search => app.search_input.append(text.as_str()),
                _ => {},
            }
            proof { assert(app@ =~= pasted(old(app)@, text@)); }
            Action::Continue
        },
        Event::Other => Action::Continue,
    }
}

/// A state after an event was reported at some moment.
pub open spec fn reported(
    before: AppView,
    after: (AppView, Action),
    event: Event,
    now: Moment,
) -> bool {
    now.wf() && after == event_step(before, event, now)
}

/// Handles an event that the terminal reports now.
pub fn handle_event(app: &mut AppState, event: Event) -> (res: Action)
    requires
        old(app).wf(),
        event_makes_task(old(app)@, event) ==> old(app).next_task_id < u64::MAX,
    ensures
        final(app).wf(),
        exists|now: Moment| #[trigger] reported(old(app)@, (final(app)@, res), event, now),
{
    let now = local_now().local;
    let res = handle_event_at(app, event, &now);
    proof { assert(reported(old(app)@, (app@, res), event, now)); }
    res
}

/// Goes on once what has changed is saved.
pub fn after_save(app: &mut AppState, saved: Saved)
    requires
        old(app).wf(),
    ensures
        final(app).wf(),
        final(app)@ == saved_step(old(app)@, saved),
{
    match saved {
        Saved::Task => {
            let n: usize = app.data.tasks.len();
            app.tasks_scroll = if n == 0 { 0 } else { n - 1 };
            app.tasks_state.select(Some(app.tasks_scroll));
            clear_entry(app);
            proof { assert(app@ =~= saved_step(old(app)@, saved)); }
        },
        Saved::Entry => {
            clear_entry(app);
        },
        Saved::Completion => {},
    }
}

/// The message under which a change is committed.
pub open spec fn message_for(saved: Saved) -> Seq<char> {
    match saved {
        Saved::Task => "Add task"@,
        Saved::Entry => "Add entry"@,
        Saved::Completion => "Complete task"@,
    }
}

impl Saved {
    /// The message under which the change is committed.
    pub fn commit_message(self) -> (res: String)
        ensures
            res@ == message_for(self),
    {
        match self {
            Saved::Task => "Add task".to_owned(),
            Saved::Entry => "Add entry".to_owned(),
            Saved::Completion => "Complete task".to_owned(),
        }
    }
}

} // verus!
