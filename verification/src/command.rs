//! The command surface of the state store: the verbs, their arguments, and
//! what each does to a document.

use crate::document::{Document, DocumentView};
use crate::text::{is_digit, is_word};
use vstd::prelude::*;
use vstd::std_specs::iter::IteratorSpec;

verus! {

/// The number that a decimal digit stands for.
pub open spec fn digit_value(c: char) -> nat {
    (c as u32 - '0' as u32) as nat
}

/// Whether a text is made of decimal digits only.
pub open spec fn all_digits(text: Seq<char>) -> bool {
    forall|i: int| 0 <= i < text.len() ==> is_digit(#[trigger] text[i])
}

/// The number that a text of decimal digits denotes; leading zeros count
/// for nothing, and the empty text denotes zero.
pub open spec fn decimal(text: Seq<char>) -> nat
    decreases text.len(),
{
    if text.len() == 0 {
        0
    } else {
        10 * decimal(text.drop_last()) + digit_value(text.last())
    }
}

/// The index that an argument names: a text of one or more decimal digits
/// whose number fits the machine's index type. Anything else names none.
pub open spec fn index_of(text: Seq<char>) -> Option<usize> {
    if text.len() > 0 && all_digits(text) && decimal(text) <= usize::MAX {
        Some(decimal(text) as usize)
    } else {
        None
    }
}

/// A longer text of digits never denotes less than one of its prefixes.
pub proof fn lemma_decimal_prefix(text: Seq<char>, length: int)
    requires
        0 <= length <= text.len(),
    ensures
        decimal(text.take(length)) <= decimal(text),
    decreases text.len(),
{
    if length == text.len() {
        assert(text.take(length) =~= text);
    } else {
        assert(text.drop_last().take(length) =~= text.take(length));
        lemma_decimal_prefix(text.drop_last(), length);
    }
}

/// Reads an index from an argument, in one pass over its characters.
pub fn parse_index(text: &str) -> (index: Option<usize>)
    ensures
        index == index_of(text@),
{
    broadcast use vstd::string::group_string_axioms;

    let mut characters = text.chars();
    let mut value: usize = 0;
    let ghost mut read: int = 0;
    let mut any = false;
    loop
        invariant
            0 <= read <= text@.len(),
            any == (read > 0),
            characters.remaining() == text@.skip(read),
            all_digits(text@.take(read)),
            value == decimal(text@.take(read)),
        decreases text@.len() - read,
    {
        match characters.next() {
            None => {
                assert(text@.take(read) =~= text@);
                return if any {
                    Some(value)
                } else {
                    None
                };
            },
            Some(c) => {
                proof {
                    assert(c == text@[read]);
                    assert(text@.take(read + 1).drop_last() =~= text@.take(read));
                    assert(text@.take(read + 1).last() == c);
                    lemma_decimal_prefix(text@, read + 1);
                    assert(text@.skip(read).drop_first() =~= text@.skip(read + 1));
                }
                if !(c >= '0' && c <= '9') {
                    assert(!is_digit(text@[read]));
                    return None;
                }
                let digit: usize = (c as u32 - '0' as u32) as usize;
                let next = match value.checked_mul(10) {
                    Some(tenfold) => tenfold.checked_add(digit),
                    None => None,
                };
                match next {
                    Some(sum) => {
                        value = sum;
                    },
                    None => {
                        return None;
                    },
                }
                any = true;
                proof {
                    read = read + 1;
                }
            },
        }
    }
}

/// One operation of the state store.
#[derive(Clone, Debug, PartialEq, Eq)]
pub enum Command {
    /// Make sure that the document exists; change nothing in one that does.
    Ensure,
    /// Append a task with this text.
    Add(String),
    /// Delete the task at this index.
    Remove(usize),
    /// Delete every completed task.
    RemoveCompleted,
    /// Flip the completion flag of the task at this index.
    Complete(usize),
    /// Append a note with this text.
    Remember(String),
    /// Delete the note at this index.
    RemoveRemember(usize),
    /// Replace the document by the canonical empty one.
    Reset,
    /// An unknown verb, a missing argument or a malformed index: nothing
    /// is done.
    Ignored,
}

/// A command as a mathematical value.
pub enum CommandView {
    Ensure,
    Add(Seq<char>),
    Remove(usize),
    RemoveCompleted,
    Complete(usize),
    Remember(Seq<char>),
    RemoveRemember(usize),
    Reset,
    Ignored,
}

impl View for Command {
    type V = CommandView;

    open spec fn view(&self) -> CommandView {
        match self {
            Command::Ensure => CommandView::Ensure,
            Command::Add(text) => CommandView::Add(text@),
            Command::Remove(index) => CommandView::Remove(*index),
            Command::RemoveCompleted => CommandView::RemoveCompleted,
            Command::Complete(index) => CommandView::Complete(*index),
            Command::Remember(text) => CommandView::Remember(text@),
            Command::RemoveRemember(index) => CommandView::RemoveRemember(*index),
            Command::Reset => CommandView::Reset,
            Command::Ignored => CommandView::Ignored,
        }
    }
}

/// The verbs, each under its long and its short name.
pub open spec fn is_add(verb: Seq<char>) -> bool {
    verb == "add"@ || verb == "a"@
}

pub open spec fn is_remove(verb: Seq<char>) -> bool {
    verb == "remove"@ || verb == "rm"@
}

pub open spec fn is_complete(verb: Seq<char>) -> bool {
    verb == "complete"@ || verb == "c"@
}

pub open spec fn is_remember(verb: Seq<char>) -> bool {
    verb == "remember"@ || verb == "r"@
}

pub open spec fn is_remove_remember(verb: Seq<char>) -> bool {
    verb == "remove-remember"@ || verb == "rr"@
}

pub open spec fn is_reset(verb: Seq<char>) -> bool {
    verb == "reset"@ || verb == "rs"@
}

/// The command that a verb and its argument denote.
pub open spec fn command_with(verb: Seq<char>, argument: Seq<char>) -> CommandView {
    if is_add(verb) {
        CommandView::Add(argument)
    } else if is_remove(verb) {
        if argument == "all"@ {
            CommandView::RemoveCompleted
        } else {
            match index_of(argument) {
                Some(index) => CommandView::Remove(index),
                None => CommandView::Ignored,
            }
        }
    } else if is_complete(verb) {
        match index_of(argument) {
            Some(index) => CommandView::Complete(index),
            None => CommandView::Ignored,
        }
    } else if is_remember(verb) {
        CommandView::Remember(argument)
    } else if is_remove_remember(verb) {
        match index_of(argument) {
            Some(index) => CommandView::RemoveRemember(index),
            None => CommandView::Ignored,
        }
    } else {
        CommandView::Ignored
    }
}

/// The command that an argument list denotes. The first argument is the
/// program's name, the second the verb, the third the verb's argument;
/// what follows is not read. Without a verb the call only makes sure that
/// the document exists.
pub open spec fn command_of(arguments: Seq<Seq<char>>) -> CommandView {
    if arguments.len() < 2 {
        CommandView::Ensure
    } else if is_reset(arguments[1]) {
        CommandView::Reset
    } else if arguments.len() < 3 {
        CommandView::Ignored
    } else {
        command_with(arguments[1], arguments[2])
    }
}

/// The views of an argument list.
pub open spec fn argument_views(arguments: Seq<String>) -> Seq<Seq<char>> {
    Seq::new(arguments.len(), |i: int| arguments[i]@)
}

impl Command {
    /// Reads a command from an argument list.
    pub fn parse(arguments: &Vec<String>) -> (command: Command)
        ensures
            command@ == command_of(argument_views(arguments@)),
    {
        if arguments.len() < 2 {
            return Command::Ensure;
        }
        let verb = arguments[1].as_str();
        if is_word(verb, "reset") || is_word(verb, "rs") {
            return Command::Reset;
        }
        if arguments.len() < 3 {
            return Command::Ignored;
        }
        let argument = arguments[2].as_str();
        if is_word(verb, "add") || is_word(verb, "a") {
            Command::Add(argument.to_owned())
        } else if is_word(verb, "remove") || is_word(verb, "rm") {
            if is_word(argument, "all") {
                Command::RemoveCompleted
            } else {
                match parse_index(argument) {
                    Some(index) => Command::Remove(index),
                    None => Command::Ignored,
                }
            }
        } else if is_word(verb, "complete") || is_word(verb, "c") {
            match parse_index(argument) {
                Some(index) => Command::Complete(index),
                None => Command::Ignored,
            }
        } else if is_word(verb, "remember") || is_word(verb, "r") {
            Command::Remember(argument.to_owned())
        } else if is_word(verb, "remove-remember") || is_word(verb, "rr") {
            match parse_index(argument) {
                Some(index) => Command::RemoveRemember(index),
                None => Command::Ignored,
            }
        } else {
            Command::Ignored
        }
    }
}

impl CommandView {
    /// Whether the command changes this document: a text is always added,
    /// an index must name an entry, and the two housekeeping commands
    /// always apply.
    pub open spec fn applies(self, document: DocumentView) -> bool {
        match self {
            CommandView::Ensure => false,
            CommandView::Add(_) => true,
            CommandView::Remove(index) => document.has_task(index as int),
            CommandView::RemoveCompleted => true,
            CommandView::Complete(index) => document.has_task(index as int),
            CommandView::Remember(_) => true,
            CommandView::RemoveRemember(index) => document.has_item(index as int),
            CommandView::Reset => true,
            CommandView::Ignored => false,
        }
    }

    /// The document after the command.
    pub open spec fn result(self, document: DocumentView) -> DocumentView {
        match self {
            CommandView::Ensure => document,
            CommandView::Add(text) => document.add(text),
            CommandView::Remove(index) => document.remove(index as int),
            CommandView::RemoveCompleted => document.remove_completed(),
            CommandView::Complete(index) => document.complete(index as int),
            CommandView::Remember(text) => document.remember(text),
            CommandView::RemoveRemember(index) => document.remove_remember(index as int),
            CommandView::Reset => DocumentView::template(),
            CommandView::Ignored => document,
        }
    }

    /// Whether the counter that the command moves stays within what a
    /// counter can hold: it is never pushed below zero nor past the largest
    /// value.
    pub open spec fn within_limits(self, document: DocumentView) -> bool {
        match self {
            CommandView::Add(_) => document.unfinished_tasks < u64::MAX,
            CommandView::Remove(index) => document.has_task(index as int)
                && !document.tasks[index as int].completed ==> document.unfinished_tasks > 0,
            CommandView::Complete(index) => document.has_task(index as int) ==> (if document.tasks[index as int].completed {
                document.completed_tasks > 0 && document.unfinished_tasks < u64::MAX
            } else {
                document.completed_tasks < u64::MAX && document.unfinished_tasks > 0
            }),
            _ => true,
        }
    }
}

/// A command would push a counter below zero or past its largest value.
#[derive(Clone, Copy, Debug, PartialEq, Eq)]
pub struct CounterLimit;

impl Document {
    /// Whether the task at `index` can be removed without pushing the count
    /// of unfinished tasks below zero.
    fn can_remove(&self, index: usize) -> (fine: bool)
        ensures
            fine == CommandView::Remove(index).within_limits(self@),
    {
        if index < self.tasks.len() {
            self.tasks[index].completed || self.unfinished_tasks > 0
        } else {
            true
        }
    }

    /// Whether the task at `index` can be toggled without pushing either
    /// count out of range.
    fn can_complete(&self, index: usize) -> (fine: bool)
        ensures
            fine == CommandView::Complete(index).within_limits(self@),
    {
        if index < self.tasks.len() {
            if self.tasks[index].completed {
                self.completed_tasks > 0 && self.unfinished_tasks < u64::MAX
            } else {
                self.completed_tasks < u64::MAX && self.unfinished_tasks > 0
            }
        } else {
            true
        }
    }

    /// Applies a command to the document. The result says whether the
    /// command changed anything: an index that names no entry, a call
    /// without a verb and an ignored command change nothing. A command that
    /// would push a counter out of range is refused, and the document stays
    /// as it was.
    pub fn apply(&mut self, command: Command) -> (outcome: Result<bool, CounterLimit>)
        ensures
            match outcome {
                Ok(applied) => {
                    &&& command@.within_limits(old(self)@)
                    &&& applied == command@.applies(old(self)@)
                    &&& final(self)@ == command@.result(old(self)@)
                    &&& !applied ==> *final(self) == *old(self)
                },
                Err(_) => !command@.within_limits(old(self)@) && *final(self) == *old(self),
            },
    {
        match command {
            Command::Ensure => Ok(false),
            Command::Ignored => Ok(false),
            Command::Add(text) => {
                if self.unfinished_tasks == u64::MAX {
                    return Err(CounterLimit);
                }
                self.add(text);
                Ok(true)
            },
            Command::Remove(index) => {
                if !self.can_remove(index) {
                    return Err(CounterLimit);
                }
                let applied = index < self.tasks.len();
                self.remove(index);
                Ok(applied)
            },
            Command::RemoveCompleted => {
                self.remove_completed();
                Ok(true)
            },
            Command::Complete(index) => {
                if !self.can_complete(index) {
                    return Err(CounterLimit);
                }
                let applied = index < self.tasks.len();
                self.complete(index);
                Ok(applied)
            },
            Command::Remember(text) => {
                self.remember(text);
                Ok(true)
            },
            Command::RemoveRemember(index) => {
                let applied = index < self.remember_items.len();
                self.remove_remember(index);
                Ok(applied)
            },
            Command::Reset => {
                self.reset();
                Ok(true)
            },
        }
    }
}

} // verus!
