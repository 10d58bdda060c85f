//! What one frame shows, as plain values: the highlighted slot of the tab
//! bar, the input line, and the rows of the active list from the first
//! visible one on. Turning these into widgets is the caller's part.

use crate::document::{Document, DocumentView};
use crate::if_else;
use crate::session::{list_length, Session, SessionView, Tab};
use vstd::prelude::*;

verus! {

/// The mark in front of a row.
#[derive(Clone, Copy, Debug, PartialEq, Eq)]
pub enum Mark {
    /// A filled circle: a completed task.
    Filled,
    /// An empty circle: a task that is not done.
    Hollow,
    /// No mark: a note.
    Blank,
}

/// One row of the list as a mathematical value.
pub struct RowView {
    pub mark: Mark,
    pub line: Seq<char>,
    pub highlighted: bool,
}

/// One row of the list: its mark, its text, and whether the cursor is on it.
#[derive(Clone, Debug, PartialEq, Eq)]
pub struct Row {
    pub mark: Mark,
    pub line: String,
    pub highlighted: bool,
}

impl View for Row {
    type V = RowView;

    open spec fn view(&self) -> RowView {
        RowView { mark: self.mark, line: self.line@, highlighted: self.highlighted }
    }
}

/// The views of a list of rows, in order.
pub open spec fn row_views(rows: Seq<Row>) -> Seq<RowView> {
    Seq::new(rows.len(), |i: int| rows[i]@)
}

/// The rows of headroom that are kept below the cursor.
pub const HEADROOM: u16 = 3;

/// The first row that is drawn: the cursor's position less the height that
/// is left after the headroom, and never less than zero.
pub open spec fn first_visible(position: int, height: int) -> int {
    if position > height - HEADROOM {
        position - (height - HEADROOM)
    } else {
        0
    }
}

/// The row that stands for the entry at `index` of the list that `tab`
/// shows.
pub open spec fn row_at(document: DocumentView, tab: Tab, position: int, index: int) -> RowView {
    match tab {
        Tab::Tasks => RowView {
            mark: if document.tasks[index].completed {
                Mark::Filled
            } else {
                Mark::Hollow
            },
            line: document.tasks[index].task,
            highlighted: index == position,
        },
        Tab::Remember => RowView {
            mark: Mark::Blank,
            line: document.remember_items[index],
            highlighted: index == position,
        },
    }
}

/// The rows of a frame: one for each entry of the active list from the
/// first visible one to the end of the list.
pub open spec fn rows_of(document: DocumentView, tab: Tab, position: int, height: int) -> Seq<
    RowView,
> {
    let first = first_visible(position, height);
    let length = list_length(document, tab);
    if first >= length {
        Seq::empty()
    } else {
        Seq::new((length - first) as nat, |k: int| row_at(document, tab, position, first + k))
    }
}

impl Mark {
    /// The text that is drawn for the mark.
    pub fn glyph(self) -> (text: &'static str)
        ensures
            text@ == (match self {
                Mark::Filled => " \u{2B24}"@,
                Mark::Hollow => " \u{25EF}"@,
                Mark::Blank => ""@,
            }),
    {
        match self {
            Mark::Filled => " \u{2B24}",
            Mark::Hollow => " \u{25EF}",
            Mark::Blank => "",
        }
    }
}

/// The text that is drawn between a row's mark and its line.
pub fn separator() -> (text: &'static str)
    ensures
        text@ == " - "@,
{
    " - "
}

/// The row for the entry at `index` of the active list.
fn render_row(pydo: &Document, selected: Tab, position: usize, index: usize) -> (row: Row)
    requires
        index < list_length(pydo@, selected),
    ensures
        row@ == row_at(pydo@, selected, position as int, index as int),
{
    match selected {
        Tab::Tasks => {
            let task = &pydo.tasks[index];
            Row {
                mark: if_else(task.completed, Mark::Filled, Mark::Hollow),
                line: task.task.clone(),
                highlighted: position == index,
            }
        },
        Tab::Remember => Row {
            mark: Mark::Blank,
            line: pydo.remember_items[index].item.clone(),
            highlighted: position == index,
        },
    }
}

/// The index of the first row that is drawn, or `None` where it lies past
/// anything a list can hold.
fn first_row(position: usize, height: u16) -> (first: Option<usize>)
    ensures
        match first {
            Some(row) => row == first_visible(position as int, height as int),
            None => first_visible(position as int, height as int) > usize::MAX,
        },
{
    if height >= HEADROOM {
        let room: usize = (height - HEADROOM) as usize;
        if position > room {
            Some(position - room)
        } else {
            Some(0)
        }
    } else {
        let lack: usize = (HEADROOM - height) as usize;
        position.checked_add(lack)
    }
}

/// The rows of the list that `selected` shows, for a display area of the
/// given height with the cursor at `position`. Drawing starts at the first
/// visible row and stops at the end of the list; the cursor itself is not
/// moved.
pub fn render_pydo(pydo: &Document, selected: Tab, position: usize, height: u16) -> (rows: Vec<
    Row,
>)
    ensures
        row_views(rows@) == rows_of(pydo@, selected, position as int, height as int),
        rows@.len() == rows_of(pydo@, selected, position as int, height as int).len(),
{
    let mut todos: Vec<Row> = Vec::new();
    let length = crate::session::active_length(selected, pydo);
    let first = match first_row(position, height) {
        Some(row) => row,
        None => {
            assert(row_views(todos@) =~= Seq::empty());
            return todos;
        },
    };
    if first >= length {
        assert(row_views(todos@) =~= Seq::empty());
        return todos;
    }
    let ghost target = rows_of(pydo@, selected, position as int, height as int);
    let mut i: usize = first;
    while i < length
        invariant
            first <= i <= length,
            length == list_length(pydo@, selected),
            first == first_visible(position as int, height as int),
            target == rows_of(pydo@, selected, position as int, height as int),
            row_views(todos@) =~= target.take(i - first),
        decreases length - i,
    {
        let ghost drawn = row_views(todos@);
        let row = render_row(pydo, selected, position, i);
        todos.push(row);
        i = i + 1;
        assert(row_views(todos@) =~= drawn.push(row@));
    }
    assert(target.take(i - first) =~= target);
    todos
}

/// The labels of the control bar.
pub fn menu_titles() -> (titles: Vec<&'static str>)
    ensures
        titles@.len() == 4,
        titles@[0]@ == "Todo"@,
        titles@[1]@ == "Remember"@,
        titles@[2]@ == "Add"@,
        titles@[3]@ == "Quit"@,
{
    let mut titles: Vec<&'static str> = Vec::new();
    titles.push("Todo");
    titles.push("Remember");
    titles.push("Add");
    titles.push("Quit");
    titles
}

/// Splits a label of the control bar into its hotkey, the first character,
/// and the rest. An empty label has neither.
pub fn split_title<'a>(title: &'a str) -> (parts: (&'a str, &'a str))
    ensures
        parts.0@ + parts.1@ == title@,
        parts.0@.len() == (if title@.len() == 0 {
            0int
        } else {
            1int
        }),
{
    let length = title.unicode_len();
    let cut: usize = if_else(length == 0, 0, 1);
    let parts = (title.substring_char(0, cut), title.substring_char(cut, length));
    assert(parts.0@ + parts.1@ =~= title@);
    parts
}

/// The slot of the control bar that is highlighted: the third one while a
/// text is being entered, else the one of the active tab.
pub open spec fn highlighted_slot(session: SessionView) -> int {
    if session.is_writing {
        2
    } else {
        match session.selected {
            Tab::Tasks => 0,
            Tab::Remember => 1,
        }
    }
}

/// The lines of the input box: a placeholder while browsing; while a text
/// is being entered, the text so far and an empty line after it.
pub open spec fn input_lines(session: SessionView) -> Seq<Seq<char>> {
    if session.is_writing {
        seq![session.text, ""@]
    } else {
        seq!["Enter text..."@]
    }
}

/// The views of a list of texts, in order.
pub open spec fn line_views(lines: Seq<String>) -> Seq<Seq<char>> {
    Seq::new(lines.len(), |i: int| lines[i]@)
}

impl Session {
    /// The slot of the control bar to highlight.
    pub fn select_this(&self) -> (slot: usize)
        ensures
            slot == highlighted_slot(self@),
    {
        let tab: usize = match self.selected {
            Tab::Tasks => 0,
            Tab::Remember => 1,
        };
        if_else(self.is_writing, 2, tab)
    }

    /// The lines of the input box.
    pub fn info_menu(&self) -> (lines: Vec<String>)
        ensures
            line_views(lines@) == input_lines(self@),
    {
        let mut lines: Vec<String> = Vec::new();
        if self.is_writing {
            lines.push(self.text.clone());
            lines.push("".to_owned());
        } else {
            lines.push("Enter text...".to_owned());
        }
        assert(line_views(lines@) =~= input_lines(self@));
        lines
    }
}

/// The cursor's row is drawn, and drawn once: with a display of at least
/// the headroom's height and the cursor on an entry of the list, exactly one
/// row is highlighted, and no more than the height less the headroom rows
/// stand above it.
pub proof fn lemma_cursor_row_is_shown(
    document: DocumentView,
    tab: Tab,
    position: int,
    height: int,
)
    requires
        0 <= position < list_length(document, tab),
        height >= HEADROOM,
    ensures
        ({
            let rows = rows_of(document, tab, position, height);
            let above = position - first_visible(position, height);
            &&& 0 <= above <= height - HEADROOM
            &&& above < rows.len()
            &&& forall|k: int| 0 <= k < rows.len() ==> ((#[trigger] rows[k]).highlighted <==> k == above)
        }),
{
}

/// Drawing stops at the end of the list: the rows are as many as the
/// entries from the first visible one on, and none where that one lies past
/// the end.
pub proof fn lemma_rows_end_with_list(document: DocumentView, tab: Tab, position: int, height: int)
    requires
        0 <= position,
        0 <= height,
    ensures
        ({
            let rows = rows_of(document, tab, position, height);
            let first = first_visible(position, height);
            let length = list_length(document, tab);
            rows.len() == (if first >= length {
                0
            } else {
                length - first
            })
        }),
{
}

} // verus!
