//! The interactive session as a state machine: from the session's state, one
//! event and the document of the current frame to the next state and the
//! action to perform. Drawing, waiting for events and touching the file are
//! the caller's part.

use crate::command::{Command, CommandView};
use crate::document::{lemma_agreeing_counts_suffice, Document, DocumentView};
use vstd::prelude::*;

verus! {

/// Which of the two lists is shown.
#[derive(Clone, Copy, Debug, PartialEq, Eq)]
pub enum Tab {
    Tasks,
    Remember,
}

/// A key press, as far as the session tells keys apart.
#[derive(Clone, Copy, Debug, PartialEq, Eq)]
pub enum Key {
    Char(char),
    Backspace,
    Enter,
    Esc,
    Up,
    Down,
    Other,
}

/// One message to the session: a key press, or the periodic heartbeat.
#[derive(Clone, Copy, Debug, PartialEq, Eq)]
pub enum Event {
    Input(Key),
    Tick,
}

/// What the caller has to do after a step.
#[derive(Clone, Debug, PartialEq, Eq)]
pub enum Action {
    /// Nothing but the next frame.
    Continue,
    /// Leave the loop.
    Quit,
    /// Hand this command to the state store.
    Run(Command),
}

/// An action as a mathematical value.
pub enum ActionView {
    Continue,
    Quit,
    Run(CommandView),
}

impl View for Action {
    type V = ActionView;

    open spec fn view(&self) -> ActionView {
        match self {
            Action::Continue => ActionView::Continue,
            Action::Quit => ActionView::Quit,
            Action::Run(command) => ActionView::Run(command@),
        }
    }
}

/// The length of the list that a tab shows.
pub open spec fn list_length(document: DocumentView, tab: Tab) -> int {
    match tab {
        Tab::Tasks => document.tasks.len() as int,
        Tab::Remember => document.remember_items.len() as int,
    }
}

/// The cursor one row up: from the first row it wraps to the last, and on
/// an empty list it stays at zero.
pub open spec fn cursor_up(position: int, length: int) -> int {
    if position > 0 {
        position - 1
    } else if length > 0 {
        length - 1
    } else {
        0
    }
}

/// The cursor one row down: where that reaches the length of the list it
/// wraps to zero.
pub open spec fn cursor_down(position: int, length: int) -> int {
    if position + 1 == length {
        0
    } else {
        position + 1
    }
}

/// The number of entries in the list that `selected` shows.
pub fn active_length(selected: Tab, pydo: &Document) -> (length: usize)
    ensures
        length == list_length(pydo@, selected),
{
    match selected {
        Tab::Tasks => pydo.tasks.len(),
        Tab::Remember => pydo.remember_items.len(),
    }
}

/// Moves the cursor up by one row in the list that `selected` shows.
pub fn up(position: usize, selected: Tab, pydo: &Document) -> (moved: usize)
    ensures
        moved == cursor_up(position as int, list_length(pydo@, selected)),
{
    let length = active_length(selected, pydo);
    if position > 0 {
        position - 1
    } else if length > 0 {
        length - 1
    } else {
        0
    }
}

/// Moves the cursor down by one row in the list that `selected` shows.
pub fn down(position: usize, selected: Tab, pydo: &Document) -> (moved: usize)
    requires
        position < usize::MAX,
    ensures
        moved == cursor_down(position as int, list_length(pydo@, selected)),
{
    let p = position + 1;
    if p == active_length(selected, pydo) {
        0
    } else {
        p
    }
}

/// What the session keeps between frames, as a mathematical value.
pub struct SessionView {
    pub selected: Tab,
    pub position: usize,
    pub is_writing: bool,
    pub text: Seq<char>,
}

/// What the session keeps between frames: the tab, the cursor, and while a
/// text is being entered, the text so far. The document is not among it: it
/// is loaded anew for every frame.
#[derive(Clone, Debug, PartialEq, Eq)]
pub struct Session {
    pub selected: Tab,
    pub position: usize,
    pub is_writing: bool,
    pub text: String,
}

impl View for Session {
    type V = SessionView;

    open spec fn view(&self) -> SessionView {
        SessionView {
            selected: self.selected,
            position: self.position,
            is_writing: self.is_writing,
            text: self.text@,
        }
    }
}

impl SessionView {
    /// The session at its start: browsing the tasks, cursor on the first
    /// row, nothing typed.
    pub open spec fn start() -> SessionView {
        SessionView { selected: Tab::Tasks, position: 0, is_writing: false, text: Seq::empty() }
    }

    /// The command that removes the entry under the cursor.
    pub open spec fn removal(self) -> CommandView {
        match self.selected {
            Tab::Tasks => CommandView::Remove(self.position),
            Tab::Remember => CommandView::RemoveRemember(self.position),
        }
    }

    /// The command that stores the text typed so far into the list of the
    /// tab that was active when the entry began.
    pub open spec fn commit(self) -> CommandView {
        match self.selected {
            Tab::Tasks => CommandView::Add(self.text),
            Tab::Remember => CommandView::Remember(self.text),
        }
    }

    /// Back to browsing with the cursor on the first row and nothing typed.
    pub open spec fn leave_entry(self) -> SessionView {
        SessionView { position: 0, is_writing: false, text: Seq::empty(), ..self }
    }

    /// A key press while browsing.
    pub open spec fn browse(self, key: Key, document: DocumentView) -> (SessionView, ActionView) {
        let length = list_length(document, self.selected);
        match key {
            Key::Char(c) => if c == 'q' {
                (self, ActionView::Quit)
            } else if c == 't' {
                (SessionView { selected: Tab::Tasks, position: 0, ..self }, ActionView::Continue)
            } else if c == 'r' {
                (SessionView { selected: Tab::Remember, position: 0, ..self }, ActionView::Continue)
            } else if c == 'a' {
                (SessionView { is_writing: true, ..self }, ActionView::Continue)
            } else if c == 'c' {
                (
                    SessionView { position: 0, ..self },
                    if self.selected == Tab::Tasks {
                        ActionView::Run(CommandView::RemoveCompleted)
                    } else {
                        ActionView::Continue
                    },
                )
            } else {
                (self, ActionView::Continue)
            },
            Key::Enter => if self.selected == Tab::Tasks && self.position < length {
                (self, ActionView::Run(CommandView::Complete(self.position)))
            } else {
                (self, ActionView::Continue)
            },
            Key::Backspace => if self.position < length {
                (
                    SessionView {
                        position: cursor_up(self.position as int, length - 1) as usize,
                        ..self
                    },
                    ActionView::Run(self.removal()),
                )
            } else {
                (
                    SessionView {
                        position: cursor_up(self.position as int, length) as usize,
                        ..self
                    },
                    ActionView::Continue,
                )
            },
            Key::Up => (
                SessionView { position: cursor_up(self.position as int, length) as usize, ..self },
                ActionView::Continue,
            ),
            Key::Down => (
                SessionView {
                    position: cursor_down(self.position as int, length) as usize,
                    ..self
                },
                ActionView::Continue,
            ),
            _ => (self, ActionView::Continue),
        }
    }

    /// A key press while a text is being entered.
    pub open spec fn write(self, key: Key) -> (SessionView, ActionView) {
        match key {
            Key::Char(c) => (SessionView { text: self.text.push(c), ..self }, ActionView::Continue),
            Key::Backspace => (
                SessionView {
                    text: if self.text.len() > 0 {
                        self.text.drop_last()
                    } else {
                        self.text
                    },
                    ..self
                },
                ActionView::Continue,
            ),
            Key::Esc => (self.leave_entry(), ActionView::Continue),
            Key::Enter => (self.leave_entry(), ActionView::Run(self.commit())),
            _ => (self, ActionView::Continue),
        }
    }

    /// Whether the session can take the event: all but one case can. The
    /// cursor cannot go down from the largest position that it can hold.
    pub open spec fn can_step(self, event: Event) -> bool {
        !self.is_writing && event == Event::Input(Key::Down) ==> self.position < usize::MAX
    }

    /// One step of the session. A heartbeat changes nothing; a key press is
    /// read according to the mode.
    pub open spec fn step(self, event: Event, document: DocumentView) -> (SessionView, ActionView) {
        match event {
            Event::Tick => (self, ActionView::Continue),
            Event::Input(key) => if self.is_writing {
                self.write(key)
            } else {
                self.browse(key, document)
            },
        }
    }
}

impl Session {
    /// The session at its start.
    pub fn new() -> (session: Session)
        ensures
            session@ == SessionView::start(),
    {
        Session { selected: Tab::Tasks, position: 0, is_writing: false, text: String::new() }
    }

    /// Takes the typed text out of the session and returns to browsing.
    fn take_text(&mut self) -> (text: String)
        ensures
            text@ == old(self)@.text,
            final(self)@ == old(self)@.leave_entry(),
    {
        let mut text = String::new();
        core::mem::swap(&mut self.text, &mut text);
        self.position = 0;
        self.is_writing = false;
        text
    }

    /// A key press while a text is being entered.
    fn write(&mut self, key: Key) -> (action: Action)
        ensures
            (final(self)@, action@) == old(self)@.write(key),
    {
        match key {
            Key::Char(c) => {
                self.text.push(c);
                Action::Continue
            },
            Key::Backspace => {
                self.text.pop();
                Action::Continue
            },
            Key::Esc => {
                self.take_text();
                Action::Continue
            },
            Key::Enter => {
                let selected = self.selected;
                let text = self.take_text();
                match selected {
                    Tab::Tasks => Action::Run(Command::Add(text)),
                    Tab::Remember => Action::Run(Command::Remember(text)),
                }
            },
            _ => Action::Continue,
        }
    }

    /// A key press while browsing.
    fn browse(&mut self, key: Key, pydo: &Document) -> (action: Action)
        requires
            key == Key::Down ==> old(self).position < usize::MAX,
        ensures
            (final(self)@, action@) == old(self)@.browse(key, pydo@),
    {
        let length = active_length(self.selected, pydo);
        match key {
            Key::Char(c) => {
                if c == 'q' {
                    Action::Quit
                } else if c == 't' {
                    self.selected = Tab::Tasks;
                    self.position = 0;
                    Action::Continue
                } else if c == 'r' {
                    self.selected = Tab::Remember;
                    self.position = 0;
                    Action::Continue
                } else if c == 'a' {
                    self.is_writing = true;
                    Action::Continue
                } else if c == 'c' {
                    self.position = 0;
                    match self.selected {
                        Tab::Tasks => Action::Run(Command::RemoveCompleted),
                        Tab::Remember => Action::Continue,
                    }
                } else {
                    Action::Continue
                }
            },
            Key::Enter => {
                match self.selected {
                    Tab::Tasks => if self.position < length {
                        Action::Run(Command::Complete(self.position))
                    } else {
                        Action::Continue
                    },
                    Tab::Remember => Action::Continue,
                }
            },
            Key::Backspace => {
                let position = self.position;
                if position < length {
                    self.position = if position > 0 {
                        position - 1
                    } else if length > 1 {
                        length - 2
                    } else {
                        0
                    };
                    match self.selected {
                        Tab::Tasks => Action::Run(Command::Remove(position)),
                        Tab::Remember => Action::Run(Command::RemoveRemember(position)),
                    }
                } else {
                    self.position = up(position, self.selected, pydo);
                    Action::Continue
                }
            },
            Key::Up => {
                self.position = up(self.position, self.selected, pydo);
                Action::Continue
            },
            Key::Down => {
                self.position = down(self.position, self.selected, pydo);
                Action::Continue
            },
            _ => Action::Continue,
        }
    }

    /// Whether the session can take the event.
    pub fn can_step(&self, event: Event) -> (can: bool)
        ensures
            can == self@.can_step(event),
    {
        match event {
            Event::Input(Key::Down) => self.is_writing || self.position < usize::MAX,
            _ => true,
        }
    }

    /// Reacts to one event against the document of the current frame, and
    /// says what the caller has to do.
    pub fn step(&mut self, event: Event, pydo: &Document) -> (action: Action)
        requires
            old(self)@.can_step(event),
        ensures
            (final(self)@, action@) == old(self)@.step(event, pydo@),
    {
        match event {
            Event::Tick => Action::Continue,
            Event::Input(key) => if self.is_writing {
                self.write(key)
            } else {
                self.browse(key, pydo)
            },
        }
    }
}

impl SessionView {
    /// While browsing, nothing is typed.
    pub open spec fn tidy(self) -> bool {
        !self.is_writing ==> self.text.len() == 0
    }
}

/// The cursor wraps in both directions: up from the first row leads to the
/// last, down from the last row leads to the first.
pub proof fn lemma_cursor_wraps(length: int)
    requires
        length > 0,
    ensures
        cursor_up(0, length) == length - 1,
        cursor_down(length - 1, length) == 0,
{
}

/// On a cursor that stands on an entry of the list, up and down undo each
/// other, and neither leaves the list.
pub proof fn lemma_up_undoes_down(position: int, length: int)
    requires
        0 <= position < length,
    ensures
        0 <= cursor_up(position, length) < length,
        0 <= cursor_down(position, length) < length,
        cursor_up(cursor_down(position, length), length) == position,
        cursor_down(cursor_up(position, length), length) == position,
{
}

/// Deleting the entry under the cursor hands the store the removal of that
/// entry and leaves the cursor on an entry of the list as it is after the
/// removal, or on zero where that list is empty.
pub proof fn lemma_delete_keeps_cursor_in_list(session: SessionView, document: DocumentView)
    requires
        !session.is_writing,
        session.position < list_length(document, session.selected),
    ensures
        ({
            let (next, action) = session.step(Event::Input(Key::Backspace), document);
            let shorter = list_length(session.removal().result(document), session.selected);
            &&& action == ActionView::Run(session.removal())
            &&& shorter == list_length(document, session.selected) - 1
            &&& next.position < shorter || (shorter == 0 && next.position == 0)
        }),
{
}

/// No step leaves typed text behind: a session in which nothing is typed
/// while browsing stays so.
pub proof fn lemma_step_keeps_tidy(session: SessionView, event: Event, document: DocumentView)
    requires
        session.tidy(),
    ensures
        session.step(event, document).0.tidy(),
{
}

/// The tab cannot change while a text is being entered, so the text is
/// stored into the list of the tab that was active when the entry began.
pub proof fn lemma_entry_keeps_tab(session: SessionView, event: Event, document: DocumentView)
    requires
        session.is_writing,
    ensures
        session.step(event, document).0.selected == session.selected,
        session.step(event, document).1 is Run ==> session.step(event, document).1
            == ActionView::Run(session.commit()),
{
}

/// The session only ever asks the store for a change that applies: a
/// command that it hands over names an entry that the document of the frame
/// holds.
pub proof fn lemma_actions_apply(session: SessionView, event: Event, document: DocumentView)
    ensures
        match session.step(event, document).1 {
            ActionView::Run(command) => command.applies(document),
            _ => true,
        },
{
}

/// Over a document whose counters agree with its tasks and are not at
/// their largest value, the store refuses nothing that the session asks
/// for.
pub proof fn lemma_actions_within_limits(
    session: SessionView,
    event: Event,
    document: DocumentView,
)
    requires
        document.counts_agree(),
        document.completed_tasks < u64::MAX,
        document.unfinished_tasks < u64::MAX,
    ensures
        match session.step(event, document).1 {
            ActionView::Run(command) => command.within_limits(document),
            _ => true,
        },
{
    if document.has_task(session.position as int) {
        lemma_agreeing_counts_suffice(document, session.position as int);
    }
}

} // verus!
