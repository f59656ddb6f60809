//! What stands on the screen.
use crate::calendar::{date_key, local_now, long_date, read_stamp, stamp_date, Moment};
use crate::journal::{entries_of, entry_views, EntryView, JournalEntry, Task, TaskView};
use crate::search::{hit_views, Hit, HitView};
use crate::state::{row_within, AppState, AppView, Focus, SelectionSource};
use crate::text::{decimal, join, joined, number, texts, trim, trimmed};
use vstd::prelude::*;

verus! {

/// A row of a list.
#[derive(Debug)]
pub struct Row {
    pub text: String,
    /// The task was done today.
    pub dim: bool,
    /// The row under the cursor.
    pub highlighted: bool,
}

#[verifier::ext_equal]
pub struct RowView {
    pub text: Seq<char>,
    pub dim: bool,
    pub highlighted: bool,
}

impl View for Row {
    type V = RowView;

    open spec fn view(&self) -> RowView {
        RowView { text: self.text@, dim: self.dim, highlighted: self.highlighted }
    }
}

pub open spec fn row_views(rows: Seq<Row>) -> Seq<RowView> {
    Seq::new(rows.len(), |i: int| rows[i]@)
}

/// A line of text.
#[derive(Debug)]
pub struct TextLine {
    pub text: String,
    pub bold: bool,
}

#[verifier::ext_equal]
pub struct LineView {
    pub text: Seq<char>,
    pub bold: bool,
}

impl View for TextLine {
    type V = LineView;

    open spec fn view(&self) -> LineView {
        LineView { text: self.text@, bold: self.bold }
    }
}

pub open spec fn line_views(lines: Seq<TextLine>) -> Seq<LineView> {
    Seq::new(lines.len(), |i: int| lines[i]@)
}

/// The popup: a list of items, and the selected one in full.
#[derive(Debug)]
pub struct Popup {
    pub items: Vec<Row>,
    pub full_text: String,
}

#[verifier::ext_equal]
pub struct PopupView {
    pub items: Seq<RowView>,
    pub full_text: Seq<char>,
}

impl View for Popup {
    type V = PopupView;

    open spec fn view(&self) -> PopupView {
        PopupView { items: row_views(self.items@), full_text: self.full_text@ }
    }
}

/// The texts of one picture of the screen.
#[derive(Debug)]
pub struct Screen {
    pub header: String,
    pub tasks_title: String,
    pub tasks: Vec<Row>,
    pub search_title: String,
    pub search_lines: Vec<TextLine>,
    pub results: Vec<Row>,
    pub journal: Vec<Row>,
    pub popup: Option<Popup>,
}

#[verifier::ext_equal]
pub struct ScreenView {
    pub header: Seq<char>,
    pub tasks_title: Seq<char>,
    pub tasks: Seq<RowView>,
    pub search_title: Seq<char>,
    pub search_lines: Seq<LineView>,
    pub results: Seq<RowView>,
    pub journal: Seq<RowView>,
    pub popup: Option<PopupView>,
}

impl View for Screen {
    type V = ScreenView;

    open spec fn view(&self) -> ScreenView {
        ScreenView {
            header: self.header@,
            tasks_title: self.tasks_title@,
            tasks: row_views(self.tasks@),
            search_title: self.search_title@,
            search_lines: line_views(self.search_lines@),
            results: row_views(self.results@),
            journal: row_views(self.journal@),
            popup: match self.popup {
                Some(p) => Some(p@),
                None => None,
            },
        }
    }
}

/// A row that is neither dim nor highlighted.
pub open spec fn plain(text: Seq<char>) -> RowView {
    RowView { text, dim: false, highlighted: false }
}

/// Where the work is done, and on which day.
pub open spec fn header_text(location: Seq<char>, now: Moment) -> Seq<char> {
    "Working from "@ + (if location.len() == 0 {
        "Unknown"@
    } else {
        location
    }) + " on "@ + trimmed(long_date(now))
}

/// The row of the cursor, counted from 1, and how many tasks there are, at least 1.
pub open spec fn tasks_title(scroll: usize, count: nat) -> Seq<char> {
    let row = if scroll < usize::MAX {
        (scroll + 1) as nat
    } else {
        scroll as nat
    };
    let rows = if count == 0 {
        1
    } else {
        count
    };
    "TASKS ("@ + decimal(row) + "/"@ + decimal(rows) + ")"@
}

/// The task was done on the day of `now`.
pub open spec fn is_done_today(task: TaskView, now: Moment) -> bool {
    task.completed_at matches Some(stamp) && stamp_date(stamp) == Some(now.date())
}

/// The row of a task; what was done today is ticked off.
pub open spec fn task_row(task: TaskView, now: Moment, highlighted: bool) -> RowView {
    if is_done_today(task, now) {
        RowView { text: "✓ "@ + task.text, dim: true, highlighted }
    } else {
        RowView { text: task.text, dim: false, highlighted }
    }
}

pub open spec fn task_rows(app: AppView, now: Moment) -> Seq<RowView> {
    if app.tasks.len() == 0 {
        seq![plain("(no tasks)"@)]
    } else {
        Seq::new(
            app.tasks.len(),
            |i: int|
                task_row(app.tasks[i], now, i == app.tasks_scroll && app.focus == Focus::Tasks),
        )
    }
}

/// An entry with its date and time.
pub open spec fn hit_line(hit: HitView) -> Seq<char> {
    hit.date + " "@ + hit.entry.time + " — "@ + hit.entry.text
}

pub open spec fn search_title(results: nat) -> Seq<char> {
    "SEARCH (results: "@ + decimal(results) + ")"@
}

pub open spec fn search_lines(app: AppView) -> Seq<LineView> {
    match app.search_selected_detail {
        Some(hit) => {
            let head = seq![
                LineView { text: hit.date + " "@ + hit.entry.time, bold: true },
                LineView { text: hit.entry.text, bold: false },
            ];
            let tags = if hit.entry.tags.len() == 0 {
                Seq::empty()
            } else {
                seq![LineView { text: "tags: "@ + joined(hit.entry.tags, ", "@), bold: false }]
            };
            (head + tags).push(
                LineView { text: "(Backspace (when input empty) clears detail)"@, bold: false },
            )
        },
        None => seq![
            LineView { text: "> "@ + app.search_input, bold: true },
            LineView {
                text:
                    "Press Enter (when input present) to run search. Tab -> RESULTS to open selected result with Enter"@,
                bold: false,
            },
            LineView { text: ""@, bold: false },
        ],
    }
}

pub open spec fn result_rows(app: AppView) -> Seq<RowView> {
    if app.search_selected_detail is Some {
        seq![plain("(detail open)"@)]
    } else if app.search_results.len() == 0 {
        seq![plain("(no results)"@)]
    } else {
        Seq::new(
            app.search_results.len(),
            |i: int|
                RowView {
                    text: hit_line(app.search_results[i]),
                    dim: false,
                    highlighted: (app.focus == Focus::Search || app.focus == Focus::Results)
                        && i == app.search_scroll,
                },
        )
    }
}

/// The entries of the day of `now`, the latest first.
pub open spec fn journal_rows(app: AppView, now: Moment) -> Seq<RowView> {
    let entries = entries_of(app.journal, date_key(now));
    if entries.len() == 0 {
        seq![plain("(no entries today)"@)]
    } else {
        Seq::new(
            entries.len(),
            |i: int|
                {
                    let e = entries[entries.len() - 1 - i];
                    plain(e.time + " "@ + e.text)
                },
        )
    }
}

pub open spec fn popup_rows(items: Seq<HitView>, selected: Option<usize>) -> Seq<RowView> {
    if items.len() == 0 {
        seq![plain("(no items)"@)]
    } else {
        Seq::new(
            items.len(),
            |i: int|
                RowView {
                    text: hit_line(items[i]),
                    dim: false,
                    highlighted: selected matches Some(row) && i == row,
                },
        )
    }
}

/// An entry in full: time, text and tags.
pub open spec fn full_text(entry: EntryView) -> Seq<char> {
    entry.time + " "@ + entry.text + "\n\n"@ + if entry.tags.len() == 0 {
        Seq::empty()
    } else {
        "Tags: "@ + joined(entry.tags, ", "@) + "\n"@
    }
}

/// The row that the popup falls back to where none is selected.
pub open spec fn popup_default(app: AppView) -> usize {
    match app.selection_source {
        Some(SelectionSource::Search) => row_within(
            app.search_scroll,
            app.selection_items.len(),
        ),
        Some(SelectionSource::Journal) => row_within(
            app.journal_scroll,
            app.selection_items.len(),
        ),
        None => 0,
    }
}

/// The row that the popup shows in full.
pub open spec fn popup_selected(app: AppView) -> Option<usize> {
    if app.selection_items.len() == 0 {
        None
    } else {
        match app.selection_state.selected {
            Some(row) => Some(row),
            None => Some(popup_default(app)),
        }
    }
}

pub open spec fn popup_view(app: AppView) -> PopupView {
    PopupView {
        items: popup_rows(app.selection_items, app.selection_state.selected),
        full_text: match popup_selected(app) {
            Some(row) => full_text(app.selection_items[row as int].entry),
            None => "(no item selected)"@,
        },
    }
}

/// The picture of the screen at `now`.
pub open spec fn screen_of(app: AppView, now: Moment) -> ScreenView {
    ScreenView {
        header: header_text(app.location, now),
        tasks_title: tasks_title(app.tasks_scroll, app.tasks.len()),
        tasks: task_rows(app, now),
        search_title: search_title(app.search_results.len()),
        search_lines: search_lines(app),
        results: result_rows(app),
        journal: journal_rows(app, now),
        popup: if app.show_selection {
            Some(popup_view(app.lists_drawn(now)))
        } else {
            None
        },
    }
}

impl AppView {
    /// With every list selecting its cursor's row, and the cursor of the journal on a row
    /// that there is.
    pub open spec fn lists_drawn(self, now: Moment) -> AppView {
        let today = entries_of(self.journal, date_key(now)).len();
        let journal_row = if today == 0 {
            self.journal_scroll
        } else {
            row_within(self.journal_scroll, today)
        };
        AppView {
            tasks_state: self.tasks_state.selecting(
                if self.tasks.len() == 0 {
                    None
                } else {
                    Some(self.tasks_scroll)
                },
            ),
            search_state: self.search_state.selecting(
                if self.search_results.len() == 0 {
                    None
                } else {
                    Some(self.search_scroll)
                },
            ),
            journal_scroll: journal_row,
            journal_state: self.journal_state.selecting(
                if today == 0 {
                    None
                } else {
                    Some(journal_row)
                },
            ),
            ..self
        }
    }

    /// The state once the screen is drawn.
    pub open spec fn drawn(self, now: Moment) -> AppView {
        let lists = self.lists_drawn(now);
        if self.show_selection {
            AppView {
                selection_state: self.selection_state.selecting(popup_selected(lists)),
                ..lists
            }
        } else {
            lists
        }
    }
}

fn plain_row(text: &str) -> (res: Vec<Row>)
    ensures
        row_views(res@) == seq![plain(text@)],
{
    let mut res: Vec<Row> = Vec::new();
    res.push(Row { text: text.to_owned(), dim: false, highlighted: false });
    proof { assert(row_views(res@) =~= seq![plain(text@)]); }
    res
}

/// Writes the header.
pub fn write_header(location: &str, now: &Moment) -> (res: String)
    requires
        now.wf(),
    ensures
        res@ == header_text(location@, *now),
{
    let date = now.in_words();
    let mut res = "Working from ".to_owned();
    if location.is_empty() {
        res.append("Unknown");
    } else {
        res.append(location);
    }
    res.append(" on ");
    res.append(trim(date.as_str()).as_str());
    res
}

/// Writes the title over the tasks.
pub fn write_tasks_title(scroll: usize, count: usize) -> (res: String)
    ensures
        res@ == tasks_title(scroll, count as nat),
{
    let rows: usize = if count == 0 { 1 } else { count };
    let mut res = "TASKS (".to_owned();
    res.append(number(scroll.saturating_add(1)).as_str());
    res.append("/");
    res.append(number(rows).as_str());
    res.append(")");
    res
}

/// Whether a task is ticked off that was done on the day that was read from its stamp.
pub fn ticks_off(read: Option<(i32, u32, u32)>, now: &Moment) -> (res: bool)
    ensures
        res == (read == Some(now.date())),
{
    match read {
        Some(date) => date.0 == now.year && date.1 == now.month && date.2 == now.day,
        None => false,
    }
}

fn write_task_row(task: &Task, now: &Moment, highlighted: bool) -> (res: Row)
    ensures
        res@ == task_row(task@, *now, highlighted),
{
    let done_today = match &task.completed_at {
        Some(stamp) => ticks_off(read_stamp(stamp.as_str()), now),
        None => false,
    };
    if done_today {
        let mut text = "✓ ".to_owned();
        text.append(task.text.as_str());
        Row { text, dim: true, highlighted }
    } else {
        Row { text: task.text.clone(), dim: false, highlighted }
    }
}

fn write_task_rows(app: &AppState, now: &Moment) -> (res: Vec<Row>)
    ensures
        row_views(res@) == task_rows(app@, *now),
{
    if app.data.tasks.len() == 0 {
        return plain_row("(no tasks)");
    }
    let mut res: Vec<Row> = Vec::new();
    let focused = app.focus == Focus::Tasks;
    let mut i: usize = 0;
    while i < app.data.tasks.len()
        invariant
            i <= app.data.tasks@.len(),
            focused == (app.focus == Focus::Tasks),
            res@.len() == i,
            forall|k: int|
                0 <= k < i ==> (#[trigger] res@[k])@ == task_row(
                    app@.tasks[k],
                    *now,
                    k == app.tasks_scroll && focused,
                ),
        decreases app.data.tasks@.len() - i,
    {
        let row = write_task_row(&app.data.tasks[i], now, i == app.tasks_scroll && focused);
        res.push(row);
        i = i + 1;
    }
    proof { assert(row_views(res@) =~= task_rows(app@, *now)); }
    res
}

fn write_hit_line(hit: &Hit) -> (res: String)
    ensures
        res@ == hit_line(hit@),
{
    let mut res = hit.date.clone();
    res.append(" ");
    res.append(hit.entry.time.as_str());
    res.append(" — ");
    res.append(hit.entry.text.as_str());
    res
}

fn write_search_title(results: usize) -> (res: String)
    ensures
        res@ == search_title(results as nat),
{
    let mut res = "SEARCH (results: ".to_owned();
    res.append(number(results).as_str());
    res.append(")");
    res
}

fn write_search_lines(app: &AppState) -> (res: Vec<TextLine>)
    ensures
        line_views(res@) == search_lines(app@),
{
    let mut res: Vec<TextLine> = Vec::new();
    match &app.search_selected_detail {
        Some(hit) => {
            let mut head = hit.date.clone();
            head.append(" ");
            head.append(hit.entry.time.as_str());
            res.push(TextLine { text: head, bold: true });
            res.push(TextLine { text: hit.entry.text.clone(), bold: false });
            if hit.entry.tags.len() != 0 {
                let mut tags = "tags: ".to_owned();
                tags.append(join(&hit.entry.tags, ", ").as_str());
                res.push(TextLine { text: tags, bold: false });
            }
            res.push(
                TextLine {
                    text: "(Backspace (when input empty) clears detail)".to_owned(),
                    bold: false,
                },
            );
        },
        None => {
            let mut input = "> ".to_owned();
            input.append(app.search_input.as_str());
            res.push(TextLine { text: input, bold: true });
            res.push(
                TextLine {
                    text:
                        "Press Enter (when input present) to run search. Tab -> RESULTS to open selected result with Enter".to_owned(),
                    bold: false,
                },
            );
            res.push(TextLine { text: "".to_owned(), bold: false });
        },
    }
    proof { assert(line_views(res@) =~= search_lines(app@)); }
    res
}

fn write_result_rows(app: &AppState) -> (res: Vec<Row>)
    ensures
        row_views(res@) == result_rows(app@),
{
    if app.search_selected_detail.is_some() {
        return plain_row("(detail open)");
    }
    if app.search_results.len() == 0 {
        return plain_row("(no results)");
    }
    let mut res: Vec<Row> = Vec::new();
    let focused = app.focus == Focus::Search || app.focus == Focus::Results;
    let mut i: usize = 0;
    while i < app.search_results.len()
        invariant
            i <= app.search_results@.len(),
            focused == (app.focus == Focus::Search || app.focus == Focus::Results),
            res@.len() == i,
            forall|k: int|
                0 <= k < i ==> (#[trigger] res@[k])@ == (RowView {
                    text: hit_line(app@.search_results[k]),
                    dim: false,
                    highlighted: focused && k == app.search_scroll,
                }),
        decreases app.search_results@.len() - i,
    {
        res.push(
            Row {
                text: write_hit_line(&app.search_results[i]),
                dim: false,
                highlighted: focused && i == app.search_scroll,
            },
        );
        i = i + 1;
    }
    proof { assert(row_views(res@) =~= result_rows(app@)); }
    res
}

fn write_journal_rows(app: &AppState, now: &Moment) -> (res: Vec<Row>)
    requires
        app.wf(),
        now.wf(),
    ensures
        row_views(res@) == journal_rows(app@, *now),
{
    let key = now.key();
    let ghost list = entries_of(app@.journal, date_key(*now));
    match app.data.journal.entries(key.as_str()) {
        None => plain_row("(no entries today)"),
        Some(entries) => {
            if entries.len() == 0 {
                return plain_row("(no entries today)");
            }
            let mut res: Vec<Row> = Vec::new();
            let mut left: usize = entries.len();
            while left > 0
                invariant
                    left <= entries@.len(),
                    list == entry_views(entries@),
                    res@.len() == entries@.len() - left,
                    forall|k: int|
                        0 <= k < res@.len() ==> (#[trigger] res@[k])@ == plain(
                            list[list.len() - 1 - k].time + " "@ + list[list.len() - 1 - k].text,
                        ),
                decreases left,
            {
                left = left - 1;
                let mut text = entries[left].time.clone();
                text.append(" ");
                text.append(entries[left].text.as_str());
                res.push(Row { text, dim: false, highlighted: false });
            }
            proof { assert(row_views(res@) =~= journal_rows(app@, *now)); }
            res
        },
    }
}

fn write_popup_rows(items: &Vec<Hit>, selected: Option<usize>) -> (res: Vec<Row>)
    ensures
        row_views(res@) == popup_rows(hit_views(items@), selected),
{
    if items.len() == 0 {
        return plain_row("(no items)");
    }
    let ghost hits = hit_views(items@);
    let mut res: Vec<Row> = Vec::new();
    let mut i: usize = 0;
    while i < items.len()
        invariant
            i <= items@.len(),
            hits == hit_views(items@),
            res@.len() == i,
            forall|k: int|
                0 <= k < i ==> (#[trigger] res@[k])@ == (RowView {
                    text: hit_line(hits[k]),
                    dim: false,
                    highlighted: selected matches Some(row) && k == row,
                }),
        decreases items@.len() - i,
    {
        let highlighted = match selected {
            Some(row) => row == i,
            None => false,
        };
        res.push(Row { text: write_hit_line(&items[i]), dim: false, highlighted });
        i = i + 1;
    }
    proof { assert(row_views(res@) =~= popup_rows(hits, selected)); }
    res
}

/// Writes an entry in full.
pub fn write_full_text(entry: &JournalEntry) -> (res: String)
    ensures
        res@ == full_text(entry@),
{
    let mut res = entry.time.clone();
    res.append(" ");
    res.append(entry.text.as_str());
    res.append("\n\n");
    if entry.tags.len() != 0 {
        res.append("Tags: ");
        res.append(join(&entry.tags, ", ").as_str());
        res.append("\n");
    }
    proof { assert(res@ =~= full_text(entry@)); }
    res
}

/// Lets every list select its cursor's row.
fn draw_lists(app: &mut AppState, now: &Moment)
    requires
        old(app).wf(),
        now.wf(),
    ensures
        final(app).wf(),
        final(app)@ == old(app)@.lists_drawn(*now),
{
    if app.data.tasks.len() != 0 {
        app.tasks_state.select(Some(app.tasks_scroll));
    } else {
        app.tasks_state.select(None);
    }
    if app.search_results.len() != 0 {
        app.search_state.select(Some(app.search_scroll));
    } else {
        app.search_state.select(None);
    }
    let key = now.key();
    let today: usize = match app.data.journal.entries(key.as_str()) {
        Some(entries) => entries.len(),
        None => 0,
    };
    if today == 0 {
        app.journal_state.select(None);
    } else {
        if app.journal_scroll >= today {
            app.journal_scroll = today - 1;
        }
        app.journal_state.select(Some(app.journal_scroll));
    }
    proof { assert(app@ =~= old(app)@.lists_drawn(*now)); }
}

fn draw_popup(app: &mut AppState) -> (res: Popup)
    requires
        old(app).wf(),
    ensures
        final(app).wf(),
        final(app)@ == (AppView {
            selection_state: old(app)@.selection_state.selecting(popup_selected(old(app)@)),
            ..old(app)@
        }),
        res@ == popup_view(old(app)@),
{
    let items = write_popup_rows(&app.selection_items, app.selection_state.selected);
    let n: usize = app.selection_items.len();
    if n == 0 {
        app.selection_state.select(None);
    } else if app.selection_state.selected.is_none() {
        let row: usize = match app.selection_source {
            Some(SelectionSource::Search) => if app.search_scroll < n {
                app.search_scroll
            } else {
                n - 1
            },
            Some(SelectionSource::Journal) => if app.journal_scroll < n {
                app.journal_scroll
            } else {
                n - 1
            },
            None => 0,
        };
        app.selection_state.select(Some(row));
    }
    proof {
        assert(app@ =~= AppView {
            selection_state: old(app)@.selection_state.selecting(popup_selected(old(app)@)),
            ..old(app)@
        });
    }
    let full_text = match app.selection_state.selected {
        Some(row) => write_full_text(&app.selection_items[row].entry),
        None => "(no item selected)".to_owned(),
    };
    Popup { items, full_text }
}

/// Draws the screen at `now`: brings the lists up to date and writes their texts.
pub fn ui_at(app: &mut AppState, now: &Moment) -> (res: Screen)
    requires
        old(app).wf(),
        now.wf(),
    ensures
        final(app).wf(),
        final(app)@ == old(app)@.drawn(*now),
        res@ == screen_of(old(app)@, *now),
{
    let header = write_header(app.location.as_str(), now);
    let tasks_title = write_tasks_title(app.tasks_scroll, app.data.tasks.len());
    let tasks = write_task_rows(app, now);
    let search_title = write_search_title(app.search_results.len());
    let search_lines = write_search_lines(app);
    let results = write_result_rows(app);
    let journal = write_journal_rows(app, now);
    draw_lists(app, now);
    let popup = if app.show_selection {
        Some(draw_popup(app))
    } else {
        None
    };
    let res = Screen {
        header,
        tasks_title,
        tasks,
        search_title,
        search_lines,
        results,
        journal,
        popup,
    };
    proof { assert(res@ =~= screen_of(old(app)@, *now)); }
    res
}

/// A state and a picture after the screen was drawn at some moment.
pub open spec fn draw_step(
    before: AppView,
    after: AppView,
    screen: ScreenView,
    now: Moment,
) -> bool {
    now.wf() && after == before.drawn(now) && screen == screen_of(before, now)
}

/// Draws the screen now.
pub fn ui(app: &mut AppState) -> (res: Screen)
    requires
        old(app).wf(),
    ensures
        final(app).wf(),
        exists|now: Moment| #[trigger] draw_step(old(app)@, final(app)@, res@, now),
{
    let now = local_now().local;
    let res = ui_at(app, &now);
    proof { assert(draw_step(old(app)@, app@, res@, now)); }
    res
}

/// A part of the terminal, in cells.
#[derive(Clone, Copy, Debug, PartialEq, Eq, Structural)]
pub struct Rect {
    pub x: u16,
    pub y: u16,
    pub width: u16,
    pub height: u16,
}

/// The popup covers all that lies below the header.
pub fn popup_rect(width: u16, height: u16, header_height: u16) -> (res: Rect)
    ensures
        res.x == 0,
        res.y == header_height,
        res.width == width,
        res.height == if height < header_height {
            0
        } else {
            height - header_height
        },
{
    Rect { x: 0, y: header_height, width, height: height.saturating_sub(header_height) }
}

/// What lies within the border of a part.
pub fn within_border(outer: Rect) -> (res: Rect)
    requires
        outer.x < u16::MAX,
        outer.y < u16::MAX,
    ensures
        res.x == outer.x + 1,
        res.y == outer.y + 1,
        res.width == if outer.width < 2 {
            0
        } else {
            outer.width - 2
        },
        res.height == if outer.height < 2 {
            0
        } else {
            outer.height - 2
        },
{
    Rect {
        x: outer.x + 1,
        y: outer.y + 1,
        width: outer.width.saturating_sub(2),
        height: outer.height.saturating_sub(2),
    }
}

} // verus!
