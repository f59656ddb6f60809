//! Nothing is left out of what the contracts speak of: every field, and every item of a list.
use crate::journal::{Day, Journal, JournalEntry, Task};
use crate::screen::{Popup, Row, Screen, TextLine};
use crate::search::Hit;
use crate::state::AppState;
use crate::storage::{RepoPath, RepoPathView};
use crate::text::texts;
use vstd::prelude::*;

verus! {

/// A list of strings is seen whole.
pub proof fn law_texts_are_whole(list: Seq<String>)
    ensures
        texts(list).len() == list.len(),
        forall|i: int| 0 <= i < list.len() ==> #[trigger] texts(list)[i] == list[i]@,
{
}

/// A journal entry is seen whole.
pub proof fn law_entry_is_seen_whole(entry: JournalEntry)
    ensures
        entry@.time == entry.time@,
        entry@.text == entry.text@,
        entry@.tags.len() == entry.tags@.len(),
        forall|i: int| 0 <= i < entry.tags@.len() ==> #[trigger] entry@.tags[i] == entry.tags@[i]@,
{
}

/// A task is seen whole.
pub proof fn law_task_is_seen_whole(task: Task)
    ensures
        task@.id == task.id,
        task@.text == task.text@,
        task@.created_at == task.created_at@,
        task@.completed_at is Some <==> task.completed_at is Some,
        task.completed_at matches Some(stamp) ==> task@.completed_at == Some(stamp@),
        task@.tags.len() == task.tags@.len(),
        forall|i: int| 0 <= i < task.tags@.len() ==> #[trigger] task@.tags[i] == task.tags@[i]@,
{
}

/// A day and a journal are seen whole.
pub proof fn law_journal_is_seen_whole(day: Day, journal: Journal)
    ensures
        day@.key == day.key@,
        day@.entries.len() == day.entries@.len(),
        forall|i: int|
            0 <= i < day.entries@.len() ==> #[trigger] day@.entries[i] == day.entries@[i]@,
        journal@.len() == journal.days@.len(),
        forall|i: int| 0 <= i < journal.days@.len() ==> #[trigger] journal@[i] == journal.days@[i]@,
{
}

/// A result is seen whole.
pub proof fn law_result_is_seen_whole(hit: Hit)
    ensures
        hit@.date == hit.date@,
        hit@.entry == hit.entry@,
{
}

/// The notebook is seen whole.
pub proof fn law_notebook_is_seen_whole(app: AppState)
    ensures
        app@.journal == app.data.journal@,
        app@.tasks.len() == app.data.tasks@.len(),
        forall|i: int|
            0 <= i < app.data.tasks@.len() ==> #[trigger] app@.tasks[i] == app.data.tasks@[i]@,
        app@.focus == app.focus,
        app@.entry_buffer == app.entry_buffer@,
        app@.entry_scroll == app.entry_scroll,
        app@.journal_scroll == app.journal_scroll,
        app@.tasks_scroll == app.tasks_scroll,
        app@.search_input == app.search_input@,
        app@.search_results.len() == app.search_results@.len(),
        forall|i: int|
            0 <= i < app.search_results@.len() ==> #[trigger] app@.search_results[i]
                == app.search_results@[i]@,
        app@.search_scroll == app.search_scroll,
        app@.search_selected_detail is Some <==> app.search_selected_detail is Some,
        app.search_selected_detail matches Some(hit) ==> app@.search_selected_detail == Some(hit@),
        app@.next_task_id == app.next_task_id,
        app@.location == app.location@,
        app@.tasks_state == app.tasks_state,
        app@.search_state == app.search_state,
        app@.journal_state == app.journal_state,
        app@.show_selection == app.show_selection,
        app@.selection_source == app.selection_source,
        app@.selection_items.len() == app.selection_items@.len(),
        forall|i: int|
            0 <= i < app.selection_items@.len() ==> #[trigger] app@.selection_items[i]
                == app.selection_items@[i]@,
        app@.selection_state == app.selection_state,
{
}

/// Rows, lines and the popup are seen whole.
pub proof fn law_rows_are_seen_whole(row: Row, line: TextLine, popup: Popup)
    ensures
        row@.text == row.text@ && row@.dim == row.dim && row@.highlighted == row.highlighted,
        line@.text == line.text@ && line@.bold == line.bold,
        popup@.full_text == popup.full_text@,
        popup@.items.len() == popup.items@.len(),
        forall|i: int|
            0 <= i < popup.items@.len() ==> #[trigger] popup@.items[i] == popup.items@[i]@,
{
}

/// The screen is seen whole.
pub proof fn law_screen_is_seen_whole(screen: Screen)
    ensures
        screen@.header == screen.header@,
        screen@.tasks_title == screen.tasks_title@,
        screen@.search_title == screen.search_title@,
        screen@.tasks.len() == screen.tasks@.len(),
        forall|i: int|
            0 <= i < screen.tasks@.len() ==> #[trigger] screen@.tasks[i] == screen.tasks@[i]@,
        screen@.search_lines.len() == screen.search_lines@.len(),
        forall|i: int|
            0 <= i < screen.search_lines@.len() ==> #[trigger] screen@.search_lines[i]
                == screen.search_lines@[i]@,
        screen@.results.len() == screen.results@.len(),
        forall|i: int|
            0 <= i < screen.results@.len() ==> #[trigger] screen@.results[i] == screen.results@[i]@,
        screen@.journal.len() == screen.journal@.len(),
        forall|i: int|
            0 <= i < screen.journal@.len() ==> #[trigger] screen@.journal[i] == screen.journal@[i]@,
        screen@.popup is Some <==> screen.popup is Some,
        screen.popup matches Some(popup) ==> screen@.popup == Some(popup@),
{
}

/// A place is seen whole.
pub proof fn law_place_is_seen_whole(place: RepoPath)
    ensures
        match place {
            RepoPath::CurrentDir => place@ == RepoPathView::CurrentDir,
            RepoPath::Home(home) => place@ == RepoPathView::Home(home@),
            RepoPath::UnderHome { home, rest } => place@ == (RepoPathView::UnderHome {
                home: home@,
                rest: rest@,
            }),
            RepoPath::UnderRoot(path) => place@ == RepoPathView::UnderRoot(path@),
        },
{
}

} // verus!
