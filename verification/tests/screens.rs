//! What stands on the screen.
use pro_logue::calendar::Moment;
use pro_logue::journal::{DataFile, JournalEntry, Task};
use pro_logue::screen::{
    popup_rect, ticks_off, ui, ui_at, within_border, write_full_text, write_header,
    write_tasks_title, Rect, Row,
};
use pro_logue::state::{AppState, Focus};

fn now() -> Moment {
    Moment { year: 2025, month: 12, day: 18, hour: 10, minute: 45, second: 0 }
}

fn task(id: u64, text: &str, done: Option<&str>) -> Task {
    Task {
        id,
        text: text.to_string(),
        created_at: "2025-12-10T10:00:00".to_string(),
        completed_at: done.map(|d| d.to_string()),
        tags: vec![],
    }
}

fn texts(rows: &[Row]) -> Vec<&str> {
    rows.iter().map(|r| r.text.as_str()).collect()
}

fn with_entries() -> AppState {
    let mut app = AppState::load(DataFile::default(), "EAWAG".to_string());
    app.add_entry_at(&now(), "alpha".to_string(), vec!["a".to_string(), "b".to_string()]);
    app.add_entry_at(&now(), "beta".to_string(), vec![]);
    app
}

#[test]
fn header_says_where_and_when() {
    assert_eq!(write_header("EAWAG", &now()), "Working from EAWAG on Thursday,18 December");
    let first = Moment { day: 1, ..now() };
    assert_eq!(write_header("", &first), "Working from Unknown on Monday, 1 December");
}

#[test]
fn tasks_are_counted() {
    assert_eq!(write_tasks_title(0, 0), "TASKS (1/1)");
    assert_eq!(write_tasks_title(2, 12), "TASKS (3/12)");
    assert_eq!(
        write_tasks_title(usize::MAX, 1),
        format!("TASKS ({}/1)", usize::MAX)
    );
}

#[test]
fn an_empty_notebook() {
    let mut app = AppState::load(DataFile::default(), String::new());
    let s = ui_at(&mut app, &now());
    assert_eq!(s.header, "Working from Unknown on Thursday,18 December");
    assert_eq!(s.tasks_title, "TASKS (1/1)");
    assert_eq!(texts(&s.tasks), ["(no tasks)"]);
    assert_eq!(s.search_title, "SEARCH (results: 0)");
    assert_eq!(texts(&s.results), ["(no results)"]);
    assert_eq!(texts(&s.journal), ["(no entries today)"]);
    assert_eq!(s.search_lines.len(), 3);
    assert_eq!(s.search_lines[0].text, "> ");
    assert!(s.search_lines[0].bold && !s.search_lines[1].bold);
    assert_eq!(
        s.search_lines[1].text,
        "Press Enter (when input present) to run search. Tab -> RESULTS to open selected result with Enter"
    );
    assert_eq!(s.search_lines[2].text, "");
    assert!(s.popup.is_none());
    assert_eq!(app.tasks_state.selected, None);
    assert_eq!(app.journal_state.selected, None);
}

#[test]
fn done_tasks_are_ticked_off_on_their_day() {
    let mut data = DataFile::default();
    data.tasks = vec![
        task(1, "open", None),
        task(2, "today", Some("2025-12-18T09:00:00")),
        task(3, "tomorrow", Some("2025-12-19T09:00:00")),
        task(4, "unreadable", Some("soon")),
    ];
    let mut app = AppState::load(data, String::new());
    app.focus = Focus::Tasks;
    app.tasks_scroll = 1;
    let s = ui_at(&mut app, &now());
    assert_eq!(texts(&s.tasks), ["open", "✓ today", "tomorrow", "unreadable"]);
    let dim: Vec<bool> = s.tasks.iter().map(|r| r.dim).collect();
    assert_eq!(dim, [false, true, false, false]);
    let marked: Vec<bool> = s.tasks.iter().map(|r| r.highlighted).collect();
    assert_eq!(marked, [false, true, false, false]);
    assert_eq!(s.tasks_title, "TASKS (2/4)");
    assert_eq!(app.tasks_state.selected, Some(1));
    app.focus = Focus::Entry;
    assert!(ui_at(&mut app, &now()).tasks.iter().all(|r| !r.highlighted));
}

#[test]
fn todays_entries_stand_latest_first() {
    let mut app = with_entries();
    app.journal_scroll = 8;
    let s = ui_at(&mut app, &now());
    assert_eq!(texts(&s.journal), ["10:45 beta", "10:45 alpha"]);
    assert_eq!(app.journal_scroll, 1);
    assert_eq!(app.journal_state.selected, Some(1));
    let tomorrow = Moment { day: 19, ..now() };
    let s = ui_at(&mut app, &tomorrow);
    assert_eq!(texts(&s.journal), ["(no entries today)"]);
    assert_eq!(app.journal_scroll, 1);
    assert_eq!(app.journal_state.selected, None);
}

#[test]
fn an_empty_day_has_no_entries() {
    let mut app = with_entries();
    app.data.journal.insert("2025_12_18".to_string(), vec![]);
    assert_eq!(texts(&ui_at(&mut app, &now()).journal), ["(no entries today)"]);
}

#[test]
fn results_are_listed() {
    let mut app = with_entries();
    app.search_input = "2025".to_string();
    app.run_search();
    app.search_scroll = 1;
    for (focus, marked) in [(Focus::Search, true), (Focus::Results, true), (Focus::Tasks, false)] {
        app.focus = focus;
        let s = ui_at(&mut app, &now());
        assert_eq!(s.search_title, "SEARCH (results: 2)");
        assert_eq!(s.search_lines[0].text, "> 2025");
        assert_eq!(texts(&s.results), ["2025_12_18 10:45 — alpha", "2025_12_18 10:45 — beta"]);
        assert!(!s.results[0].highlighted);
        assert_eq!(s.results[1].highlighted, marked);
        assert_eq!(app.search_state.selected, Some(1));
    }
}

#[test]
fn a_detail_is_shown_in_place_of_the_input() {
    let mut app = with_entries();
    app.search_input = "a".to_string();
    app.run_search();
    app.search_selected_detail = Some(app.search_results[0].clone());
    let s = ui_at(&mut app, &now());
    let lines: Vec<&str> = s.search_lines.iter().map(|l| l.text.as_str()).collect();
    assert_eq!(
        lines,
        [
            "2025_12_18 10:45",
            "alpha",
            "tags: a, b",
            "(Backspace (when input empty) clears detail)",
        ]
    );
    assert!(s.search_lines[0].bold && !s.search_lines[3].bold);
    assert_eq!(texts(&s.results), ["(detail open)"]);

    app.search_selected_detail = Some(app.search_results[1].clone());
    assert_eq!(ui_at(&mut app, &now()).search_lines.len(), 3);
}

#[test]
fn the_popup_shows_one_item_in_full() {
    let mut app = with_entries();
    app.open_selection_from_journal_at(&now());
    app.popup_move_selection(1);
    let p = ui_at(&mut app, &now()).popup.unwrap();
    assert_eq!(texts(&p.items), ["2025_12_18 10:45 — beta", "2025_12_18 10:45 — alpha"]);
    assert!(!p.items[0].highlighted && p.items[1].highlighted);
    assert_eq!(p.full_text, "10:45 alpha\n\nTags: a, b\n");
}

#[test]
fn the_popup_falls_back_to_the_cursor() {
    let mut app = with_entries();
    app.open_selection_from_journal_at(&now());
    app.selection_state.select(None);
    app.journal_scroll = 1;
    let p = ui_at(&mut app, &now()).popup.unwrap();
    assert!(p.items.iter().all(|r| !r.highlighted));
    assert_eq!(p.full_text, "10:45 alpha\n\nTags: a, b\n");
    assert_eq!(app.selection_state.selected, Some(1));

    app.selection_state.select(None);
    app.selection_source = None;
    let p = ui_at(&mut app, &now()).popup.unwrap();
    assert_eq!(p.full_text, "10:45 beta\n\n");
    assert_eq!(app.selection_state.selected, Some(0));
}

#[test]
fn the_popup_without_items() {
    let mut app = AppState::load(DataFile::default(), String::new());
    app.open_selection_from_search();
    let p = ui_at(&mut app, &now()).popup.unwrap();
    assert_eq!(texts(&p.items), ["(no items)"]);
    assert_eq!(p.full_text, "(no item selected)");
    assert_eq!(app.selection_state.selected, None);
}

#[test]
fn full_text_of_an_entry() {
    let e = JournalEntry { time: "09:00".to_string(), text: "x".to_string(), tags: vec![] };
    assert_eq!(write_full_text(&e), "09:00 x\n\n");
    let e = JournalEntry { tags: vec!["t".to_string()], ..e };
    assert_eq!(write_full_text(&e), "09:00 x\n\nTags: t\n");
}

#[test]
fn drawing_twice_is_drawing_once() {
    let mut app = with_entries();
    app.journal_scroll = 5;
    app.open_selection_from_journal_at(&now());
    ui_at(&mut app, &now());
    let first = (app.journal_scroll, app.journal_state, app.selection_state, app.tasks_state);
    ui_at(&mut app, &now());
    let second = (app.journal_scroll, app.journal_state, app.selection_state, app.tasks_state);
    assert_eq!(first, second);
}

#[test]
fn drawn_by_the_local_clock() {
    let words = || chrono::Local::now().format("%A,%e %B").to_string();
    let before = words();
    let mut app = AppState::load(DataFile::default(), "Lab".to_string());
    let s = ui(&mut app);
    let after = words();
    assert!([before, after].iter().any(|w| s.header == format!("Working from Lab on {}", w)));
}

#[test]
fn the_popup_covers_the_body() {
    assert_eq!(popup_rect(80, 24, 3), Rect { x: 0, y: 3, width: 80, height: 21 });
    assert_eq!(popup_rect(80, 2, 3), Rect { x: 0, y: 3, width: 80, height: 0 });
}

#[test]
fn a_border_takes_one_cell() {
    let inner = within_border(Rect { x: 0, y: 3, width: 80, height: 21 });
    assert_eq!(inner, Rect { x: 1, y: 4, width: 78, height: 19 });
    let inner = within_border(Rect { x: 0, y: 0, width: 1, height: 0 });
    assert_eq!(inner, Rect { x: 1, y: 1, width: 0, height: 0 });
}

#[test]
fn only_todays_stamps_tick_off() {
    assert!(ticks_off(Some((2025, 12, 18)), &now()));
    assert!(!ticks_off(Some((2025, 12, 17)), &now()));
    assert!(!ticks_off(Some((2025, 11, 18)), &now()));
    assert!(!ticks_off(Some((2024, 12, 18)), &now()));
    assert!(!ticks_off(None, &now()));
}
