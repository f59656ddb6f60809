//! What stands on the screen, row by row, and that drawing changes nothing that is kept.
use crate::calendar::{date_key, long_date, stamp_date, Moment};
use crate::journal::{entries_of, EntryView};
use crate::laws::words::{
    is_blank, is_digits, law_decimal_reads_back, law_trim_takes_white_space_only, number_of,
};
use crate::screen::{full_text, screen_of, RowView};
use crate::search::HitView;
use crate::state::{AppView, Focus, SelectionSource};
use crate::text::{decimal, joined, trimmed};
use vstd::prelude::*;

verus! {

/// The header names the location, or says that there is none, and the date in words without
/// white space around it.
pub proof fn law_header_says_where_and_when(app: AppView, now: Moment) -> (parts: (
    Seq<char>,
    Seq<char>,
    Seq<char>,
))
    ensures
        long_date(now) == parts.0 + parts.1 + parts.2,
        is_blank(parts.0),
        is_blank(parts.2),
        app.location.len() > 0 ==> screen_of(app, now).header == "Working from "@ + app.location
            + " on "@ + parts.1,
        app.location.len() == 0 ==> screen_of(app, now).header == "Working from "@ + "Unknown"@
            + " on "@ + parts.1,
{
    let (a, b) = law_trim_takes_white_space_only(long_date(now));
    (a, trimmed(long_date(now)), b)
}

/// The title over the tasks counts the row of the cursor from 1, and all tasks.
pub proof fn law_title_counts_the_tasks(app: AppView, now: Moment) -> (numbers: (
    Seq<char>,
    Seq<char>,
))
    requires
        app.tasks_scroll < usize::MAX,
    ensures
        screen_of(app, now).tasks_title == "TASKS ("@ + numbers.0 + "/"@ + numbers.1 + ")"@,
        is_digits(numbers.0) && numbers.0.len() > 0 && numbers.0[0] != '0',
        is_digits(numbers.1) && numbers.1.len() > 0 && numbers.1[0] != '0',
        number_of(numbers.0) == app.tasks_scroll + 1,
        number_of(numbers.1) == if app.tasks.len() == 0 {
            1
        } else {
            app.tasks.len() as int
        },
{
    let row = (app.tasks_scroll + 1) as nat;
    let rows = if app.tasks.len() == 0 {
        1
    } else {
        app.tasks.len()
    };
    law_decimal_reads_back(row);
    law_decimal_reads_back(rows);
    (decimal(row), decimal(rows))
}

/// The title over the search counts the results.
pub proof fn law_title_counts_the_results(app: AppView, now: Moment) -> (number: Seq<char>)
    ensures
        screen_of(app, now).search_title == "SEARCH (results: "@ + number + ")"@,
        is_digits(number) && number.len() > 0,
        number_of(number) == app.search_results.len(),
        app.search_results.len() > 0 ==> number[0] != '0',
{
    law_decimal_reads_back(app.search_results.len());
    decimal(app.search_results.len())
}

/// A row that is not marked in any way.
pub open spec fn is_unmarked(row: RowView) -> bool {
    !row.dim && !row.highlighted
}

/// Every task has its row, in the order of the list, with its whole text; what was done today
/// is ticked off and dim, and the row of the cursor is marked while the tasks are in focus.
pub proof fn law_every_task_has_its_row(app: AppView, now: Moment, i: int)
    requires
        0 <= i < app.tasks.len(),
    ensures
        ({
            let rows = screen_of(app, now).tasks;
            let task = app.tasks[i];
            let done = task.completed_at matches Some(stamp) && stamp_date(stamp) == Some(
                (now.year, now.month, now.day),
            );
            &&& rows.len() == app.tasks.len()
            &&& done ==> rows[i].text == "✓ "@ + task.text && rows[i].dim
            &&& !done ==> rows[i].text == task.text && !rows[i].dim
            &&& rows[i].highlighted <==> i == app.tasks_scroll && app.focus == Focus::Tasks
        }),
{
}

/// Empty lists say so in one row.
pub proof fn law_empty_lists_say_so(app: AppView, now: Moment)
    ensures
        ({
            let screen = screen_of(app, now);
            &&& app.tasks.len() == 0 ==> screen.tasks.len() == 1 && screen.tasks[0].text
                == "(no tasks)"@ && is_unmarked(screen.tasks[0])
            &&& app.search_results.len() == 0 && app.search_selected_detail is None
                ==> screen.results.len() == 1 && screen.results[0].text == "(no results)"@
                && is_unmarked(screen.results[0])
            &&& app.search_selected_detail is Some ==> screen.results.len() == 1
                && screen.results[0].text == "(detail open)"@ && is_unmarked(screen.results[0])
            &&& entries_of(app.journal, date_key(now)).len() == 0 ==> screen.journal.len() == 1
                && screen.journal[0].text == "(no entries today)"@ && is_unmarked(
                screen.journal[0],
            )
        }),
{
}

/// The search lines: a line that is bold, or not, with its text.
pub proof fn law_search_lines_show_the_input(app: AppView, now: Moment)
    requires
        app.search_selected_detail is None,
    ensures
        ({
            let lines = screen_of(app, now).search_lines;
            &&& lines.len() == 3
            &&& lines[0].text == "> "@ + app.search_input && lines[0].bold
            &&& lines[1].text
                == "Press Enter (when input present) to run search. Tab -> RESULTS to open selected result with Enter"@
            &&& lines[2].text == ""@
            &&& !lines[1].bold && !lines[2].bold
        }),
{
}

/// A detail is shown whole: its date and time, its text, its tags where it has any, and how to
/// close it.
pub proof fn law_search_lines_show_the_detail(app: AppView, hit: HitView, now: Moment)
    requires
        app.search_selected_detail == Some(hit),
    ensures
        ({
            let lines = screen_of(app, now).search_lines;
            let n: int = if hit.entry.tags.len() == 0 {
                3
            } else {
                4
            };
            &&& lines.len() == n
            &&& lines[0].text == hit.date + " "@ + hit.entry.time && lines[0].bold
            &&& lines[1].text == hit.entry.text && !lines[1].bold
            &&& n == 4 ==> lines[2].text == "tags: "@ + joined(hit.entry.tags, ", "@)
                && !lines[2].bold
            &&& lines[n - 1].text == "(Backspace (when input empty) clears detail)"@
                && !lines[n - 1].bold
        }),
{
}

/// Every result has its row, in order, with its date, its time and its whole text; the row of
/// the cursor is marked while the search or its results are in focus.
pub proof fn law_every_result_has_its_row(app: AppView, now: Moment, i: int)
    requires
        app.search_selected_detail is None,
        0 <= i < app.search_results.len(),
    ensures
        ({
            let rows = screen_of(app, now).results;
            let hit = app.search_results[i];
            &&& rows.len() == app.search_results.len()
            &&& rows[i].text == hit.date + " "@ + hit.entry.time + " — "@ + hit.entry.text
            &&& !rows[i].dim
            &&& rows[i].highlighted <==> i == app.search_scroll && (app.focus == Focus::Search
                || app.focus == Focus::Results)
        }),
{
}

/// The rows of the journal, read backwards, are the entries of the day in the order in which
/// they were written, one row for each, with its time and its whole text.
pub proof fn law_journal_is_shown_backwards(app: AppView, now: Moment, i: int)
    requires
        0 <= i < entries_of(app.journal, date_key(now)).len(),
    ensures
        ({
            let rows = screen_of(app, now).journal;
            let entries = entries_of(app.journal, date_key(now));
            &&& rows.len() == entries.len()
            &&& rows.reverse()[i].text == entries[i].time + " "@ + entries[i].text
            &&& is_unmarked(rows.reverse()[i])
        }),
{
}

/// Of any two entries of the day the one that was written later stands in the row further up,
/// and writing one more puts it on top of the rows that were there.
pub proof fn law_later_entries_stand_higher(
    app: AppView,
    more: AppView,
    entry: EntryView,
    now: Moment,
)
    requires
        entries_of(app.journal, date_key(now)).len() > 0,
        entries_of(more.journal, date_key(now)) == entries_of(app.journal, date_key(now)).push(
            entry,
        ),
    ensures
        ({
            let rows = screen_of(app, now).journal;
            let grown = screen_of(more, now).journal;
            &&& grown.len() == rows.len() + 1
            &&& grown[0].text == entry.time + " "@ + entry.text
            &&& grown.skip(1) == rows
        }),
{
    let rows = screen_of(app, now).journal;
    let grown = screen_of(more, now).journal;
    assert(grown.skip(1) =~= rows);
}

/// An entry in full has its time, its whole text and all its tags.
pub proof fn law_full_text_is_whole(entry: EntryView)
    ensures
        entry.tags.len() == 0 ==> full_text(entry) == entry.time + " "@ + entry.text + "\n\n"@,
        entry.tags.len() > 0 ==> full_text(entry) == entry.time + " "@ + entry.text + "\n\n"@ + (
        "Tags: "@ + joined(entry.tags, ", "@) + "\n"@),
{
    if entry.tags.len() == 0 {
        assert(full_text(entry) =~= entry.time + " "@ + entry.text + "\n\n"@);
    }
}

/// The popup is on the screen where it is open. Every item has its row, in order, and the
/// selected one, or else the one under the cursor of its list, is shown in full.
#[verifier::rlimit(30)]
pub proof fn law_popup_shows_every_item(app: AppView, now: Moment, i: int)
    requires
        app.wf(),
        app.show_selection,
        0 <= i < app.selection_items.len() <= usize::MAX,
    ensures
        screen_of(app, now).popup matches Some(popup) && {
            let hit = app.selection_items[i];
            let after = app.drawn(now);
            &&& popup.items.len() == app.selection_items.len()
            &&& popup.items[i].text == hit.date + " "@ + hit.entry.time + " — "@ + hit.entry.text
            &&& !popup.items[i].dim
            &&& popup.items[i].highlighted <==> app.selection_state.selected == Some(i as usize)
            &&& after.selection_state.selected matches Some(row) && {
                &&& row < app.selection_items.len()
                &&& popup.full_text == full_text(app.selection_items[row as int].entry)
                &&& app.selection_state.selected matches Some(chosen) ==> row == chosen
                &&& app.selection_state.selected is None ==> match app.selection_source {
                    Some(SelectionSource::Search) => row == app.search_scroll || (
                    app.search_scroll >= app.selection_items.len() && row
                        == app.selection_items.len() - 1),
                    Some(SelectionSource::Journal) => row == after.journal_scroll || (
                    after.journal_scroll >= app.selection_items.len() && row
                        == app.selection_items.len() - 1),
                    None => row == 0,
                }
            }
        },
{
}

/// A popup without items says so, and a closed popup is not on the screen.
pub proof fn law_empty_popup_says_so(app: AppView, now: Moment)
    ensures
        !app.show_selection ==> screen_of(app, now).popup is None,
        app.show_selection && app.selection_items.len() == 0 ==> (screen_of(app, now).popup matches
            Some(popup) && {
            &&& popup.items.len() == 1
            &&& popup.items[0].text == "(no items)"@ && is_unmarked(popup.items[0])
            &&& popup.full_text == "(no item selected)"@
            &&& app.drawn(now).selection_state.selected is None
        }),
{
}

/// Drawing lets every list select the row of its cursor, brings the cursor of the journal back
/// to a row that there is, and changes nothing else.
#[verifier::rlimit(30)]
pub proof fn law_drawing_moves_cursors_only(app: AppView, now: Moment)
    requires
        entries_of(app.journal, date_key(now)).len() <= usize::MAX,
    ensures
        ({
            let after = app.drawn(now);
            let today = entries_of(app.journal, date_key(now)).len();
            &&& after.tasks_state.selected == if app.tasks.len() == 0 {
                None
            } else {
                Some(app.tasks_scroll)
            }
            &&& after.search_state.selected == if app.search_results.len() == 0 {
                None
            } else {
                Some(app.search_scroll)
            }
            &&& after.journal_state.selected == if today == 0 {
                None
            } else {
                Some(after.journal_scroll)
            }
            &&& today == 0 || app.journal_scroll < today ==> after.journal_scroll
                == app.journal_scroll
            &&& today > 0 && app.journal_scroll >= today ==> after.journal_scroll == today - 1
            &&& !app.show_selection ==> after.selection_state == app.selection_state
            &&& after == AppView {
                tasks_state: after.tasks_state,
                search_state: after.search_state,
                journal_scroll: after.journal_scroll,
                journal_state: after.journal_state,
                selection_state: after.selection_state,
                ..app
            }
        }),
{
}

/// Drawing keeps the view of every list that has something selected, and takes the others back
/// to the top.
pub proof fn law_drawing_keeps_the_view(app: AppView, now: Moment)
    ensures
        ({
            let after = app.drawn(now);
            let today = entries_of(app.journal, date_key(now)).len();
            &&& after.tasks_state.offset == if app.tasks.len() == 0 {
                0
            } else {
                app.tasks_state.offset
            }
            &&& after.search_state.offset == if app.search_results.len() == 0 {
                0
            } else {
                app.search_state.offset
            }
            &&& after.journal_state.offset == if today == 0 {
                0
            } else {
                app.journal_state.offset
            }
            &&& app.show_selection ==> after.selection_state.offset
                == if app.selection_items.len() == 0 {
                0
            } else {
                app.selection_state.offset
            }
        }),
{
}

} // verus!
