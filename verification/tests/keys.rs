//! What the keys do.
use pro_logue::calendar::Moment;
use pro_logue::input::{
    after_save, handle_event, handle_event_at, handle_key_event, handle_key_event_at, submit_entry,
    would_make_task, Action, Event, KeyCode, KeyEvent, KeyModifiers, Saved, MAX_ENTRY_SCROLL,
};
use pro_logue::journal::DataFile;
use pro_logue::state::{AppState, Focus, SelectionSource};

fn now() -> Moment {
    Moment { year: 2025, month: 12, day: 18, hour: 10, minute: 45, second: 0 }
}

fn app() -> AppState {
    AppState::load(DataFile::default(), "EAWAG".to_string())
}

fn key(code: KeyCode) -> KeyEvent {
    KeyEvent { code, modifiers: KeyModifiers { shift: false, control: false, other: false } }
}

fn shift(code: KeyCode) -> KeyEvent {
    KeyEvent { code, modifiers: KeyModifiers { shift: true, control: false, other: false } }
}

fn control(c: char) -> KeyEvent {
    KeyEvent {
        code: KeyCode::Char(c),
        modifiers: KeyModifiers { shift: false, control: true, other: false },
    }
}

fn press(app: &mut AppState, k: KeyEvent) -> Action {
    let action = handle_event_at(app, Event::Key(k), &now());
    if let Action::Save(saved) = action {
        after_save(app, saved);
    }
    action
}

fn write(app: &mut AppState, text: &str) {
    for c in text.chars() {
        assert_eq!(press(app, key(KeyCode::Char(c))), Action::Continue);
    }
}

fn today(app: &AppState) -> Vec<String> {
    match app.data.journal.entries("2025_12_18") {
        Some(list) => list.iter().map(|e| e.text.clone()).collect(),
        None => vec![],
    }
}

#[test]
fn focus_goes_round() {
    let mut f = Focus::Entry;
    for expected in [Focus::Tasks, Focus::Search, Focus::Results, Focus::Journal, Focus::Entry] {
        assert_eq!(f.next().prev(), f);
        f = f.next();
        assert_eq!(f, expected);
    }
    assert_eq!(Focus::Entry.prev(), Focus::Journal);
    assert_eq!(Focus::Journal.prev(), Focus::Results);
    assert_eq!(Focus::Results.prev(), Focus::Search);
    assert_eq!(Focus::Search.prev(), Focus::Tasks);
    assert_eq!(Focus::Tasks.prev(), Focus::Entry);
}

#[test]
fn tab_moves_the_focus() {
    let mut a = app();
    press(&mut a, key(KeyCode::Tab));
    assert_eq!(a.focus, Focus::Tasks);
    press(&mut a, shift(KeyCode::Tab));
    assert_eq!(a.focus, Focus::Entry);
    press(&mut a, key(KeyCode::BackTab));
    assert_eq!(a.focus, Focus::Journal);
    press(&mut a, key(KeyCode::Tab));
    assert_eq!(a.focus, Focus::Entry);
}

#[test]
fn control_c_quits() {
    let mut a = app();
    assert_eq!(press(&mut a, control('c')), Action::Quit);
    a.show_selection = true;
    assert_eq!(press(&mut a, control('c')), Action::Quit);
    let mut k = control('c');
    k.modifiers.shift = true;
    assert_eq!(press(&mut a, k), Action::Continue);
    let mut k = control('c');
    k.modifiers.other = true;
    assert_eq!(press(&mut a, k), Action::Continue);
    assert_eq!(press(&mut app(), key(KeyCode::Char('c'))), Action::Continue);
}

#[test]
fn an_entry_is_submitted() {
    let mut a = app();
    write(&mut a, "  Met with team...  ");
    assert_eq!(press(&mut a, key(KeyCode::Enter)), Action::Save(Saved::Entry));
    assert_eq!(today(&a), ["Met with team..."]);
    let e = &a.data.journal.entries("2025_12_18").unwrap()[0];
    assert_eq!(e.time, "10:45");
    assert_eq!(e.tags, ["EAWAG"]);
    assert_eq!(a.entry_buffer, "");
    assert_eq!(a.entry_scroll, 0);
    assert!(a.data.tasks.is_empty());
}

#[test]
fn an_entry_without_a_location_has_no_tags() {
    let mut a = AppState::load(DataFile::default(), String::new());
    write(&mut a, "x");
    press(&mut a, key(KeyCode::Enter));
    assert!(a.data.journal.entries("2025_12_18").unwrap()[0].tags.is_empty());
}

#[test]
fn a_star_makes_a_task() {
    let mut a = app();
    write(&mut a, " ** Fix bug ");
    assert!(would_make_task(&a, &Event::Key(key(KeyCode::Enter))));
    assert_eq!(press(&mut a, key(KeyCode::Enter)), Action::Save(Saved::Task));
    assert_eq!(a.data.tasks.len(), 1);
    let t = &a.data.tasks[0];
    assert_eq!((t.id, t.text.as_str()), (1, "Fix bug"));
    assert_eq!(t.created_at, "2025-12-18T10:45:00");
    assert_eq!(t.tags, ["EAWAG"]);
    assert!(today(&a).is_empty());
    assert_eq!(a.entry_buffer, "");
    assert_eq!(a.tasks_state.selected, Some(0));

    write(&mut a, "*second");
    press(&mut a, key(KeyCode::Enter));
    assert_eq!(a.data.tasks[1].id, 2);
    assert_eq!(a.tasks_scroll, 1);
    assert_eq!(a.tasks_state.selected, Some(1));
}

#[test]
fn only_a_submitted_star_takes_an_id() {
    let mut a = app();
    write(&mut a, "*x");
    assert!(!would_make_task(&a, &Event::Key(shift(KeyCode::Enter))));
    assert!(!would_make_task(&a, &Event::Key(key(KeyCode::Char('x')))));
    assert!(!would_make_task(&a, &Event::Paste("*".to_string())));
    assert!(!would_make_task(&a, &Event::Other));
    a.focus = Focus::Search;
    assert!(!would_make_task(&a, &Event::Key(key(KeyCode::Enter))));
    let mut b = app();
    write(&mut b, "x*");
    assert!(!would_make_task(&b, &Event::Key(key(KeyCode::Enter))));
    assert!(!would_make_task(&app(), &Event::Key(key(KeyCode::Enter))));
}

#[test]
fn a_lone_star_makes_a_task_without_text() {
    let mut a = app();
    write(&mut a, "*");
    press(&mut a, key(KeyCode::Enter));
    assert_eq!(a.data.tasks[0].text, "");
}

#[test]
fn a_blank_entry_is_dropped() {
    let mut a = app();
    write(&mut a, "   ");
    a.entry_scroll = 3;
    assert_eq!(submit_entry(&mut a, &now()), Action::Continue);
    assert_eq!(a.entry_buffer, "");
    assert_eq!(a.entry_scroll, 0);
    assert!(a.data.journal.days.is_empty());
}

#[test]
fn shift_enter_breaks_the_line() {
    let mut a = app();
    write(&mut a, "a");
    press(&mut a, shift(KeyCode::Enter));
    write(&mut a, "b");
    assert_eq!(a.entry_buffer, "a\nb");
    let mut k = key(KeyCode::Enter);
    k.modifiers.control = true;
    assert_eq!(press(&mut a, k), Action::Continue);
    assert_eq!(a.entry_buffer, "a\nb");
    press(&mut a, key(KeyCode::Enter));
    assert_eq!(today(&a), ["a\nb"]);
}

#[test]
fn backspace_undoes_typing() {
    let mut a = app();
    write(&mut a, "aé");
    press(&mut a, key(KeyCode::Backspace));
    assert_eq!(a.entry_buffer, "a");
    press(&mut a, key(KeyCode::Backspace));
    press(&mut a, key(KeyCode::Backspace));
    assert_eq!(a.entry_buffer, "");
    press(&mut a, control('x'));
    assert_eq!(a.entry_buffer, "");
}

#[test]
fn the_entry_scrolls_within_bounds() {
    let mut a = app();
    press(&mut a, key(KeyCode::Up));
    assert_eq!(a.entry_scroll, 0);
    press(&mut a, key(KeyCode::Down));
    press(&mut a, key(KeyCode::Down));
    press(&mut a, key(KeyCode::Up));
    assert_eq!(a.entry_scroll, 1);
    a.entry_scroll = MAX_ENTRY_SCROLL;
    press(&mut a, key(KeyCode::Down));
    assert_eq!(a.entry_scroll, 10_000);
    a.entry_scroll = u16::MAX;
    press(&mut a, key(KeyCode::Down));
    assert_eq!(a.entry_scroll, 10_000);
}

#[test]
fn pasted_text_goes_to_the_focus() {
    let mut a = app();
    handle_event_at(&mut a, Event::Paste("one\ntwo".to_string()), &now());
    assert_eq!(a.entry_buffer, "one\ntwo");
    a.focus = Focus::Search;
    handle_event_at(&mut a, Event::Paste("query".to_string()), &now());
    assert_eq!(a.search_input, "query");
    a.focus = Focus::Tasks;
    assert_eq!(handle_event_at(&mut a, Event::Paste("x".to_string()), &now()), Action::Continue);
    assert_eq!(handle_event_at(&mut a, Event::Other, &now()), Action::Continue);
    assert_eq!((a.entry_buffer.as_str(), a.search_input.as_str()), ("one\ntwo", "query"));
}

fn with_tasks() -> AppState {
    let mut a = app();
    for text in ["*one", "*two", "*three"] {
        write(&mut a, text);
        press(&mut a, key(KeyCode::Enter));
    }
    a.focus = Focus::Tasks;
    a
}

#[test]
fn the_cursor_moves_through_tasks() {
    let mut a = with_tasks();
    assert_eq!(a.tasks_scroll, 2);
    press(&mut a, key(KeyCode::Down));
    assert_eq!(a.tasks_scroll, 2);
    press(&mut a, key(KeyCode::Up));
    assert_eq!((a.tasks_scroll, a.tasks_state.selected), (1, Some(1)));
    press(&mut a, key(KeyCode::Down));
    press(&mut a, key(KeyCode::Up));
    assert_eq!(a.tasks_scroll, 1);
    press(&mut a, key(KeyCode::Up));
    press(&mut a, key(KeyCode::Up));
    assert_eq!((a.tasks_scroll, a.tasks_state.selected), (0, Some(0)));
}

#[test]
fn enter_marks_a_task_done_once() {
    let mut a = with_tasks();
    press(&mut a, key(KeyCode::Up));
    assert_eq!(press(&mut a, key(KeyCode::Enter)), Action::Save(Saved::Completion));
    assert_eq!(a.data.tasks[1].completed_at.as_deref(), Some("2025-12-18T10:45:00"));
    assert_eq!(today(&a), ["DONE: two"]);
    assert_eq!(press(&mut a, key(KeyCode::Enter)), Action::Continue);
    assert_eq!(today(&a), ["DONE: two"]);
    assert_eq!(a.data.tasks.len(), 3);
}

#[test]
fn enter_without_tasks_does_nothing() {
    let mut a = app();
    a.focus = Focus::Tasks;
    assert_eq!(press(&mut a, key(KeyCode::Enter)), Action::Continue);
    press(&mut a, key(KeyCode::Down));
    assert_eq!((a.tasks_scroll, a.tasks_state.selected), (0, Some(0)));
}

fn with_entries() -> AppState {
    let mut a = app();
    for text in ["alpha", "beta", "alphabet"] {
        write(&mut a, text);
        press(&mut a, key(KeyCode::Enter));
    }
    a.focus = Focus::Search;
    a
}

#[test]
fn enter_runs_a_search() {
    let mut a = with_entries();
    write(&mut a, "ALPHA");
    press(&mut a, key(KeyCode::Enter));
    assert_eq!(a.search_results.len(), 2);
    assert_eq!(a.search_results[0].entry.text, "alpha");
    assert_eq!(a.focus, Focus::Search);
    assert_eq!(a.search_input, "ALPHA");
    assert!(!a.show_selection);
}

#[test]
fn shift_enter_searches_and_breaks_the_line() {
    let mut a = with_entries();
    write(&mut a, "beta");
    press(&mut a, shift(KeyCode::Enter));
    assert_eq!(a.search_results.len(), 1);
    assert_eq!(a.search_input, "beta\n");
}

#[test]
fn enter_with_cleared_input_opens_the_selected_result() {
    let mut a = with_entries();
    write(&mut a, "alpha");
    press(&mut a, key(KeyCode::Enter));
    press(&mut a, key(KeyCode::Down));
    for _ in 0..5 {
        press(&mut a, key(KeyCode::Backspace));
    }
    assert_eq!(a.search_input, "");
    press(&mut a, key(KeyCode::Enter));
    assert!(a.show_selection);
    assert_eq!(a.selection_source, Some(SelectionSource::Search));
    assert_eq!(a.selection_state.selected, Some(1));
    assert_eq!(a.selection_items[1].entry.text, "alphabet");
}

#[test]
fn only_a_bare_enter_opens_from_the_input() {
    let mut a = with_entries();
    write(&mut a, "alpha");
    press(&mut a, key(KeyCode::Enter));
    a.search_input.clear();
    press(&mut a, shift(KeyCode::Enter));
    assert!(!a.show_selection);
    assert_eq!(a.search_input, "\n");
    let mut k = key(KeyCode::Enter);
    k.modifiers.control = true;
    press(&mut a, k);
    let mut k = key(KeyCode::Enter);
    k.modifiers.other = true;
    press(&mut a, k);
    assert!(!a.show_selection);
    assert_eq!(a.search_results.len(), 2);
    press(&mut a, key(KeyCode::Enter));
    assert!(a.show_selection);
}

#[test]
fn the_place_in_the_popup_is_kept() {
    let mut a = with_entries();
    write(&mut a, "alpha");
    press(&mut a, key(KeyCode::Enter));
    a.focus = Focus::Results;
    for (moves, row) in [(vec![KeyCode::Down], 1), (vec![KeyCode::Up, KeyCode::Up], 0)] {
        press(&mut a, key(KeyCode::Enter));
        for code in moves {
            press(&mut a, key(code));
        }
        press(&mut a, key(KeyCode::Esc));
        assert!(!a.show_selection);
        assert_eq!((a.selection_source, a.selection_state.selected), (None, None));
        assert_eq!((a.search_scroll, a.search_state.selected), (row, Some(row)));
        assert_eq!((a.search_results.len(), a.journal_scroll), (2, 0));
        assert_eq!(a.focus, Focus::Results);
    }
}

#[test]
fn a_location_with_commas_is_found() {
    let mut a = AppState::load(DataFile::default(), "Lab 2, Zürich".to_string());
    write(&mut a, "x");
    press(&mut a, key(KeyCode::Enter));
    a.focus = Focus::Search;
    write(&mut a, "Lab 2, Zürich");
    press(&mut a, key(KeyCode::Enter));
    assert_eq!(a.search_results.len(), 1);
}

#[test]
fn enter_with_neither_input_nor_results_does_nothing() {
    let mut a = app();
    a.focus = Focus::Search;
    assert_eq!(press(&mut a, key(KeyCode::Enter)), Action::Continue);
    assert!(!a.show_selection);
    write(&mut a, "  ");
    press(&mut a, key(KeyCode::Enter));
    assert!(!a.show_selection && a.search_results.is_empty());
}

#[test]
fn control_g_searches_from_input_and_results() {
    let mut a = with_entries();
    write(&mut a, "beta");
    press(&mut a, control('g'));
    assert_eq!(a.search_results.len(), 1);
    assert_eq!(a.search_input, "beta");
    a.search_input = "alpha".to_string();
    a.focus = Focus::Results;
    press(&mut a, control('g'));
    assert_eq!(a.search_results.len(), 2);
    a.search_input.clear();
    press(&mut a, control('g'));
    assert!(a.search_results.is_empty());
}

#[test]
fn search_keys_edit_the_input() {
    let mut a = with_entries();
    write(&mut a, "gx");
    press(&mut a, control('x'));
    press(&mut a, key(KeyCode::Backspace));
    assert_eq!(a.search_input, "g");
    press(&mut a, key(KeyCode::Esc));
    press(&mut a, key(KeyCode::Other));
    assert_eq!(a.search_input, "g");
}

#[test]
fn backspace_without_input_clears_the_detail() {
    let mut a = with_entries();
    write(&mut a, "b");
    press(&mut a, key(KeyCode::Enter));
    a.search_selected_detail = Some(a.search_results[0].clone());
    press(&mut a, key(KeyCode::Backspace));
    assert!(a.search_selected_detail.is_some());
    press(&mut a, key(KeyCode::Backspace));
    assert!(a.search_selected_detail.is_none());
}

#[test]
fn the_cursor_moves_through_results() {
    for focus in [Focus::Search, Focus::Results] {
        let mut a = with_entries();
        press(&mut a, key(KeyCode::Down));
        assert_eq!((a.search_scroll, a.search_state.selected), (0, None));
        press(&mut a, key(KeyCode::Up));
        assert_eq!(a.search_state.selected, None);
        write(&mut a, "alpha");
        press(&mut a, key(KeyCode::Enter));
        a.focus = focus;
        press(&mut a, key(KeyCode::Up));
        assert_eq!(a.search_scroll, 0);
        press(&mut a, key(KeyCode::Down));
        press(&mut a, key(KeyCode::Down));
        assert_eq!((a.search_scroll, a.search_state.selected), (1, Some(1)));
        press(&mut a, key(KeyCode::Up));
        assert_eq!((a.search_scroll, a.search_state.selected), (0, Some(0)));
    }
}

#[test]
fn enter_opens_a_result() {
    let mut a = with_entries();
    a.focus = Focus::Results;
    press(&mut a, key(KeyCode::Enter));
    assert!(!a.show_selection);
    a.search_input = "alpha".to_string();
    a.run_search();
    press(&mut a, key(KeyCode::Char('q')));
    press(&mut a, key(KeyCode::Enter));
    assert!(a.show_selection);
    assert_eq!(a.selection_items.len(), 2);
}

#[test]
fn the_journal_scrolls_and_opens() {
    let mut a = with_entries();
    a.focus = Focus::Journal;
    press(&mut a, key(KeyCode::Up));
    assert_eq!((a.journal_scroll, a.journal_state.selected), (0, Some(0)));
    press(&mut a, key(KeyCode::Down));
    assert_eq!((a.journal_scroll, a.journal_state.selected), (1, Some(1)));
    press(&mut a, key(KeyCode::Enter));
    assert!(a.show_selection);
    assert_eq!(a.selection_source, Some(SelectionSource::Journal));
    assert_eq!(a.selection_state.selected, Some(1));
    assert_eq!(a.selection_items[0].entry.text, "alphabet");
    press(&mut a, key(KeyCode::Esc));
    a.journal_scroll = usize::MAX;
    press(&mut a, key(KeyCode::Down));
    assert_eq!(a.journal_scroll, usize::MAX);
}

#[test]
fn the_popup_catches_keys() {
    let mut a = with_entries();
    a.focus = Focus::Journal;
    press(&mut a, key(KeyCode::Enter));
    for code in [KeyCode::Tab, KeyCode::BackTab, KeyCode::Enter, KeyCode::Char('x')] {
        assert_eq!(press(&mut a, key(code)), Action::Continue);
        assert!(a.show_selection);
        assert_eq!(a.focus, Focus::Journal);
    }
    press(&mut a, key(KeyCode::Down));
    assert_eq!(a.selection_state.selected, Some(1));
    press(&mut a, key(KeyCode::Up));
    assert_eq!(a.selection_state.selected, Some(0));
    press(&mut a, key(KeyCode::Esc));
    assert!(!a.show_selection);
}

#[test]
fn the_journal_only_grows() {
    let mut a = with_entries();
    let mut before = today(&a);
    for k in [
        key(KeyCode::Tab),
        key(KeyCode::Enter),
        key(KeyCode::Esc),
        key(KeyCode::Char('z')),
        key(KeyCode::Tab),
        key(KeyCode::Tab),
        key(KeyCode::Char('z')),
        key(KeyCode::Enter),
        control('g'),
    ] {
        press(&mut a, k);
        let after = today(&a);
        assert_eq!(after[..before.len()], before[..]);
        before = after;
    }
}

#[test]
fn changes_are_saved_under_a_message() {
    assert_eq!(Saved::Task.commit_message(), "Add task");
    assert_eq!(Saved::Entry.commit_message(), "Add entry");
    assert_eq!(Saved::Completion.commit_message(), "Complete task");
}

#[test]
fn the_entry_waits_for_its_saving() {
    let mut a = app();
    write(&mut a, "x");
    assert_eq!(handle_key_event_at(&mut a, key(KeyCode::Enter), &now()), Action::Save(Saved::Entry));
    assert_eq!(a.entry_buffer, "x");
    after_save(&mut a, Saved::Entry);
    assert_eq!(a.entry_buffer, "");
    assert_eq!(today(&a), ["x"]);
    after_save(&mut a, Saved::Completion);
    assert_eq!(today(&a), ["x"]);
}

#[test]
fn keys_are_handled_by_the_local_clock() {
    let mut a = app();
    assert_eq!(handle_key_event(&mut a, key(KeyCode::Char('h'))), Action::Continue);
    assert_eq!(handle_event(&mut a, Event::Paste("i".to_string())), Action::Continue);
    assert_eq!(handle_event(&mut a, Event::Key(key(KeyCode::Enter))), Action::Save(Saved::Entry));
    assert_eq!(a.data.journal.days[0].entries[0].text, "hi");
    let today = chrono::Local::now().format("%Y_%m_").to_string();
    assert!(a.data.journal.days[0].key.len() == 10);
    assert!(a.data.journal.days[0].key.starts_with(&today[..3]));
}

#[test]
fn an_entry_is_found_by_its_location() {
    let mut a = with_entries();
    write(&mut a, "EAWAG");
    press(&mut a, key(KeyCode::Enter));
    assert_eq!(a.search_results.len(), 3);
}
