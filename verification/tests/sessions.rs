//! What can be done to the notebook, at given moments and by the local clock.
use chrono::{DateTime, Datelike, Duration, Local, TimeZone, Timelike, Utc, Weekday};
use pro_logue::calendar::{
    read_stamp, LocalReading, Moment, TimeOfDay, TimeReading, LAST_SECOND,
};
use pro_logue::journal::{DataFile, JournalEntry, Task};
use pro_logue::state::{
    clock_out, hours_of, keeps, tags_for, AppState, ClockError, Focus, ListState, SelectionSource,
};

fn at(day: u32, hour: u32, minute: u32) -> Moment {
    Moment { year: 2025, month: 12, day, hour, minute, second: 7 }
}

fn task(id: u64, text: &str, done: Option<&str>) -> Task {
    Task {
        id,
        text: text.to_string(),
        created_at: "2025-12-10T10:00:00".to_string(),
        completed_at: done.map(|d| d.to_string()),
        tags: vec!["EAWAG".to_string()],
    }
}

fn session(tasks: Vec<Task>) -> AppState {
    let mut data = DataFile::default();
    data.tasks = tasks;
    AppState::load(data, "Lab".to_string())
}

fn on_day<'a>(app: &'a AppState, key: &str) -> &'a Vec<JournalEntry> {
    app.data.journal.entries(key).unwrap()
}

#[test]
fn a_session_starts_on_the_entry() {
    let app = session(vec![]);
    assert_eq!(app.focus, Focus::Entry);
    assert_eq!(app.next_task_id, 1);
    assert_eq!(app.tasks_state, ListState { selected: None, offset: 0 });
    assert_eq!(app.location, "Lab");
    assert!(!app.show_selection);
    assert!(app.entry_buffer.is_empty() && app.search_input.is_empty());
    let app = session(vec![task(1, "a", None)]);
    assert_eq!(app.tasks_state.selected, Some(0));
    assert_eq!(app.search_state.selected, None);
}

#[test]
fn next_id_is_above_all() {
    assert_eq!(session(vec![task(1, "a", None)]).next_task_id, 2);
    let app = session(vec![task(3, "a", None), task(9, "b", None), task(4, "c", None)]);
    assert_eq!(app.next_task_id, 10);
    assert_eq!(session(vec![task(0, "a", None)]).next_task_id, 1);
    assert_eq!(session(vec![task(u64::MAX - 1, "a", None)]).next_task_id, u64::MAX);
}

#[test]
fn lists_go_back_to_the_top_without_a_selection() {
    let mut s = ListState { selected: Some(4), offset: 3 };
    s.select(Some(5));
    assert_eq!(s, ListState { selected: Some(5), offset: 3 });
    s.select(None);
    assert_eq!(s, ListState::new());
}

#[test]
fn an_entry_goes_under_its_day() {
    let mut app = session(vec![]);
    app.add_entry_at(&at(18, 9, 5), "one".to_string(), tags_for("Lab"));
    app.add_entry_at(&at(18, 9, 4), "two".to_string(), tags_for(""));
    let list = on_day(&app, "2025_12_18");
    assert_eq!(list.len(), 2);
    assert_eq!((list[0].time.as_str(), list[0].text.as_str()), ("09:05", "one"));
    assert_eq!(list[0].tags, ["Lab"]);
    assert_eq!((list[1].time.as_str(), list[1].text.as_str()), ("09:04", "two"));
    assert!(list[1].tags.is_empty());
}

#[test]
fn a_task_gets_the_next_id() {
    let mut app = session(vec![task(5, "old", None)]);
    app.add_task_at(&at(18, 9, 5), "new".to_string(), vec![]);
    let t = &app.data.tasks[1];
    assert_eq!((t.id, t.text.as_str()), (6, "new"));
    assert_eq!(t.created_at, "2025-12-18T09:05:07");
    assert!(t.completed_at.is_none());
    assert_eq!(app.next_task_id, 7);
}

#[test]
fn a_task_is_done_once() {
    let mut app = session(vec![task(1, "Fix bug", None), task(2, "other", None)]);
    app.complete_task_at(0, &at(18, 10, 0));
    assert_eq!(app.data.tasks[0].completed_at.as_deref(), Some("2025-12-18T10:00:07"));
    assert!(app.data.tasks[1].completed_at.is_none());
    let list = on_day(&app, "2025_12_18");
    assert_eq!((list[0].time.as_str(), list[0].text.as_str()), ("10:00", "DONE: Fix bug"));
    assert_eq!(list[0].tags, ["EAWAG"]);

    app.complete_task_at(0, &at(18, 11, 0));
    assert_eq!(app.data.tasks[0].completed_at.as_deref(), Some("2025-12-18T10:00:07"));
    assert_eq!(on_day(&app, "2025_12_18").len(), 1);
    app.complete_task_at(2, &at(18, 11, 0));
    assert_eq!(on_day(&app, "2025_12_18").len(), 1);
}

#[test]
fn a_day_is_clocked_in_once() {
    let mut app = session(vec![]);
    assert!(!app.is_clocked_in(&at(18, 9, 0)));
    let message = app.add_clock_entry_at(&at(18, 9, 0), &TimeOfDay { hour: 17, minute: 0 });
    assert_eq!(
        message.as_deref(),
        Some("Add clock entry: Clock-in: 09:00, Clock-out: 17:00")
    );
    let list = on_day(&app, "2025_12_18");
    assert_eq!(list[0].text, "Clock-in: 09:00, Clock-out: 17:00");
    assert_eq!(list[0].tags, ["Lab"]);
    assert!(app.is_clocked_in(&at(18, 23, 0)));
    assert!(app.add_clock_entry_at(&at(18, 10, 0), &TimeOfDay { hour: 18, minute: 0 }).is_none());
    assert_eq!(on_day(&app, "2025_12_18").len(), 1);
    assert!(app.add_clock_entry_at(&at(19, 9, 0), &TimeOfDay { hour: 17, minute: 0 }).is_some());
}

#[test]
fn old_tasks_are_pruned() {
    let mut app = session(vec![
        task(1, "open", None),
        task(2, "yesterday", Some("2025-12-17T23:59:59")),
        task(3, "today", Some("2025-12-18T00:00:00")),
        task(4, "unreadable", Some("some day")),
        task(5, "tomorrow", Some("2025-12-19T00:00:00")),
        task(6, "long ago", Some("2024-12-31T10:00:00")),
    ]);
    app.tasks_scroll = 5;
    app.prune_completed_before((2025, 12, 18));
    let left: Vec<&str> = app.data.tasks.iter().map(|t| t.text.as_str()).collect();
    assert_eq!(left, ["open", "today", "unreadable", "tomorrow"]);
    assert_eq!(app.tasks_scroll, 3);
    assert_eq!(app.next_task_id, 7);

    app.prune_completed_before((2025, 12, 18));
    assert_eq!(app.data.tasks.len(), 4);
    app.prune_completed_before((2026, 1, 1));
    let left: Vec<&str> = app.data.tasks.iter().map(|t| t.text.as_str()).collect();
    assert_eq!(left, ["open", "unreadable"]);
}

#[test]
fn pruning_all_leaves_the_cursor_at_the_top() {
    let mut app = session(vec![task(1, "a", Some("2025-12-17T10:00:00"))]);
    app.prune_completed_before((2025, 12, 18));
    assert!(app.data.tasks.is_empty());
    assert_eq!(app.tasks_scroll, 0);
}

fn with_entries() -> AppState {
    let mut app = session(vec![]);
    app.add_entry_at(&at(17, 9, 0), "alpha".to_string(), vec![]);
    app.add_entry_at(&at(18, 9, 0), "beta".to_string(), vec![]);
    app.add_entry_at(&at(18, 10, 0), "alphabet".to_string(), vec![]);
    app
}

#[test]
fn a_search_selects_the_first_result() {
    let mut app = with_entries();
    app.search_input = "Alpha".to_string();
    app.search_scroll = 7;
    app.run_search();
    let found: Vec<&str> = app.search_results.iter().map(|h| h.entry.text.as_str()).collect();
    assert_eq!(found, ["alphabet", "alpha"]);
    assert_eq!(app.search_scroll, 0);
    assert_eq!(app.search_state.selected, Some(0));

    app.search_input = "gamma".to_string();
    app.run_search();
    assert!(app.search_results.is_empty());
    assert_eq!(app.search_state.selected, None);

    app.search_input = " , ".to_string();
    app.run_search();
    assert!(app.search_results.is_empty());
}

#[test]
fn the_popup_opens_on_results() {
    let mut app = with_entries();
    app.search_input = "alpha".to_string();
    app.run_search();
    app.search_scroll = 1;
    app.open_selection_from_search();
    assert!(app.show_selection);
    assert_eq!(app.selection_source, Some(SelectionSource::Search));
    assert_eq!(app.selection_items.len(), 2);
    assert_eq!(app.selection_state.selected, Some(1));
    assert_eq!(app.search_state.selected, Some(1));

    app.close_selection();
    assert!(!app.show_selection);
    assert_eq!(app.selection_source, None);
    assert_eq!(app.selection_state.selected, None);
}

#[test]
fn the_popup_opens_without_results() {
    let mut app = session(vec![]);
    app.open_selection_from_search();
    assert!(app.show_selection);
    assert!(app.selection_items.is_empty());
    assert_eq!(app.selection_state.selected, None);
}

#[test]
fn the_popup_opens_on_a_day() {
    let mut app = with_entries();
    app.journal_scroll = 9;
    app.open_selection_from_journal_at(&at(18, 12, 0));
    let items: Vec<&str> = app.selection_items.iter().map(|h| h.entry.text.as_str()).collect();
    assert_eq!(items, ["alphabet", "beta"]);
    assert!(app.selection_items.iter().all(|h| h.date == "2025_12_18"));
    assert_eq!(app.selection_source, Some(SelectionSource::Journal));
    assert_eq!(app.selection_state.selected, Some(1));
    assert_eq!(app.journal_state.selected, Some(9));

    app.open_selection_from_journal_at(&at(20, 12, 0));
    assert!(app.selection_items.is_empty());
    assert_eq!(app.selection_state.selected, None);
}

#[test]
fn the_popup_stays_within_its_list() {
    let mut app = with_entries();
    app.open_selection_from_journal_at(&at(18, 12, 0));
    app.popup_move_selection(1);
    assert_eq!((app.selection_state.selected, app.journal_scroll), (Some(1), 1));
    app.popup_move_selection(1);
    assert_eq!((app.selection_state.selected, app.journal_scroll), (Some(1), 1));
    app.popup_move_selection(-5);
    assert_eq!((app.selection_state.selected, app.journal_scroll), (Some(0), 0));
    app.popup_move_selection(isize::MIN);
    assert_eq!(app.selection_state.selected, Some(0));
    app.popup_move_selection(isize::MAX);
    assert_eq!(app.selection_state.selected, Some(1));
}

#[test]
fn the_results_follow_the_popup() {
    let mut app = with_entries();
    app.search_input = "alpha".to_string();
    app.run_search();
    app.open_selection_from_search();
    app.popup_move_selection(1);
    assert_eq!(app.search_scroll, 1);
    assert_eq!(app.search_state.selected, Some(1));
    assert_eq!(app.journal_scroll, 0);
}

#[test]
fn an_empty_popup_selects_nothing() {
    let mut app = session(vec![]);
    app.open_selection_from_search();
    app.popup_move_selection(1);
    assert_eq!(app.selection_state.selected, None);
}

#[test]
fn the_local_clock_dates_entries() {
    let before = Local::now();
    let mut app = session(vec![]);
    app.add_entry_for_now("now".to_string(), vec![]);
    let after = Local::now();
    let day = &app.data.journal.days[0];
    let keys = [before, after].map(|t| t.format("%Y_%m_%d").to_string());
    let times = [before, after].map(|t| t.format("%H:%M").to_string());
    assert!(keys.contains(&day.key));
    assert!(times.contains(&day.entries[0].time));
    assert_eq!(day.entries[0].text, "now");
}

#[test]
fn the_local_clock_dates_tasks() {
    let before = Local::now().format("%Y-%m-%dT%H:%M:%S").to_string();
    let mut app = session(vec![]);
    app.add_task("now".to_string(), vec![]);
    app.complete_task(0);
    let after = Local::now().format("%Y-%m-%dT%H:%M:%S").to_string();
    let t = &app.data.tasks[0];
    let done = t.completed_at.clone().unwrap();
    assert!(before <= t.created_at && t.created_at <= done && done <= after);
    assert!(read_stamp(&done).is_some());
    app.prune_old_completed_tasks();
    assert_eq!(app.data.journal.days[0].entries[0].text, "DONE: now");
}

#[test]
fn the_local_clock_prunes_what_is_long_done() {
    let mut app = session(vec![
        task(1, "long ago", Some("2001-01-01T10:00:00")),
        task(2, "far ahead", Some("9999-01-01T10:00:00")),
        task(3, "open", None),
    ]);
    app.prune_old_completed_tasks();
    let left: Vec<u64> = app.data.tasks.iter().map(|t| t.id).collect();
    assert_eq!(left, [2, 3]);
}

#[test]
fn the_local_clock_clocks_in_and_out() {
    let expected = |t: chrono::DateTime<Local>| {
        let hours = match t.weekday() {
            Weekday::Mon | Weekday::Tue => 9,
            _ => 8,
        };
        let out = t + Duration::hours(hours);
        format!("Clock-in: {}, Clock-out: {}", t.format("%H:%M"), out.format("%H:%M"))
    };
    let before = expected(Local::now());
    let mut app = session(vec![]);
    let message = app.ensure_daily_clock_entry().unwrap().unwrap();
    let after = expected(Local::now());
    let text = &app.data.journal.days[0].entries[0].text;
    assert!(*text == before || *text == after, "{}", text);
    assert_eq!(message, format!("Add clock entry: {}", text));
    assert_eq!(app.data.journal.days[0].entries[0].tags, ["Lab"]);
}

#[test]
fn the_local_clock_opens_todays_entries() {
    let mut app = session(vec![]);
    app.add_entry_for_now("first".to_string(), vec![]);
    app.add_entry_for_now("second".to_string(), vec![]);
    app.open_selection_from_journal();
    assert!(app.show_selection);
    if app.data.journal.days.len() == 1 && app.selection_items.len() == 2 {
        assert_eq!(app.selection_items[0].entry.text, "second");
        assert_eq!(app.selection_items[1].entry.text, "first");
    }
}

fn reading(t: DateTime<Local>) -> LocalReading {
    LocalReading {
        local: Moment {
            year: t.year(),
            month: t.month(),
            day: t.day(),
            hour: t.hour(),
            minute: t.minute(),
            second: t.second(),
        },
        unix: t.timestamp(),
        offset: t.offset().local_minus_utc(),
    }
}

#[test]
fn the_hours_of_work_are_added() {
    for (day, hours) in [(15, 9), (16, 9), (17, 8), (18, 8), (19, 8), (20, 8), (21, 8)] {
        let t = Local.with_ymd_and_hms(2025, 12, day, 12, 34, 56).unwrap();
        let out = clock_out(&reading(t)).unwrap();
        let then = t + Duration::hours(hours);
        let expected = TimeReading {
            time: TimeOfDay { hour: then.hour(), minute: then.minute() },
            unix: then.timestamp(),
            offset: then.offset().local_minus_utc(),
        };
        assert_eq!(out, expected);
        assert_eq!(out.time.text(), then.format("%H:%M").to_string());
    }
}

#[test]
fn a_reading_clocks_in_once() {
    let t = Local.with_ymd_and_hms(2025, 12, 15, 9, 0, 0).unwrap();
    let mut app = session(vec![]);
    let message = app.ensure_daily_clock_entry_at(&reading(t)).unwrap().unwrap();
    let out = (t + Duration::hours(9)).format("%H:%M").to_string();
    assert_eq!(message, format!("Add clock entry: Clock-in: 09:00, Clock-out: {}", out));
    assert_eq!(on_day(&app, "2025_12_15").len(), 1);
    let later = t + Duration::hours(1);
    assert_eq!(app.ensure_daily_clock_entry_at(&reading(later)), Ok(None));
    assert_eq!(on_day(&app, "2025_12_15").len(), 1);
}

#[test]
fn the_calendar_ends() {
    assert_eq!(DateTime::<Utc>::MAX_UTC.timestamp(), LAST_SECOND);
    let end = LocalReading {
        local: Moment { year: 262142, month: 12, day: 31, hour: 23, minute: 59, second: 59 },
        unix: LAST_SECOND,
        offset: 0,
    };
    assert_eq!(clock_out(&end), None);
    let mut app = session(vec![]);
    assert_eq!(app.ensure_daily_clock_entry_at(&end), Err(ClockError::CalendarEnds));
    assert!(app.data.journal.days.is_empty());
    app.add_clock_entry_at(&end.local, &TimeOfDay { hour: 8, minute: 0 });
    assert_eq!(app.ensure_daily_clock_entry_at(&end), Ok(None));
}

#[test]
fn tasks_are_kept_by_the_day_that_was_read() {
    assert!(keeps(None, (2025, 12, 18)));
    assert!(keeps(Some((2025, 12, 18)), (2025, 12, 18)));
    assert!(keeps(Some((2025, 12, 19)), (2025, 12, 18)));
    assert!(!keeps(Some((2025, 12, 17)), (2025, 12, 18)));
}

#[test]
fn the_last_day_of_the_calendar_is_clocked_in() {
    let start = Moment { year: 262142, month: 12, day: 31, hour: 0, minute: 0, second: 0 };
    let hours = hours_of(&start);
    for unix in [LAST_SECOND - 86399, LAST_SECOND - hours * 3600] {
        let gone = (unix - (LAST_SECOND - 86399)) as u32;
        let local = Moment {
            hour: gone / 3600,
            minute: gone / 60 % 60,
            second: gone % 60,
            ..start
        };
        let now = LocalReading { local, unix, offset: 0 };
        let out = clock_out(&now).unwrap();
        assert_eq!(out.unix, unix + hours * 3600);
        let mut app = session(vec![]);
        assert!(app.ensure_daily_clock_entry_at(&now).unwrap().is_some());
        let expected = format!("Clock-in: {}, Clock-out: {}", local.clock(), out.time.text());
        assert_eq!(on_day(&app, "+262142_12_31")[0].text, expected);
    }
    let unix = LAST_SECOND - hours * 3600 + 1;
    let late = Moment { hour: 24 - hours as u32, ..start };
    assert_eq!(clock_out(&LocalReading { local: late, unix, offset: 0 }), None);
}
