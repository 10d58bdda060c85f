//! The state store as a function from what is on disk and a command to what
//! has to be written. Reading and writing the file is the caller's part.

use crate::codec::{decoded, encoded, lemma_empty_object_is_template, DecodeError};
use crate::command::{Command, CommandView};
use crate::document::{Document, DocumentView};
use json::JsonValue;
use vstd::prelude::*;

verus! {

/// Why the store refuses a command.
#[derive(Clone, Copy, Debug, PartialEq, Eq)]
pub enum StoreError {
    /// The text on disk is not read as a document, for this reason.
    Unreadable(DecodeError),
    /// The command would push a counter below zero or past its largest
    /// value.
    CounterLimit,
}

/// The document that a command works on: the canonical empty one where no
/// file exists, else what the file's text reads as.
pub open spec fn stored(existing: Option<Seq<char>>) -> Result<DocumentView, DecodeError> {
    match existing {
        None => Ok(DocumentView::template()),
        Some(text) => decoded(text),
    }
}

/// What the store does with a command: `Ok(Some(text))` where the file is
/// to be rewritten with `text`, `Ok(None)` where it is left alone.
///
/// A call without a verb creates a missing file and leaves an existing one
/// alone, unread. A reset writes the canonical empty document whatever is on
/// disk. An ignored command does nothing. Every other command needs the
/// document: it fails where the text is not read as one or a counter would
/// leave its range, writes nothing where its index names no entry, and
/// otherwise writes the changed document.
pub open spec fn outcome(existing: Option<Seq<char>>, command: CommandView) -> Result<
    Option<Seq<char>>,
    StoreError,
> {
    match command {
        CommandView::Ignored => Ok(None),
        CommandView::Ensure => match existing {
            Some(_) => Ok(None),
            None => Ok(Some(encoded(DocumentView::template()))),
        },
        CommandView::Reset => Ok(Some(encoded(DocumentView::template()))),
        _ => match stored(existing) {
            Err(error) => Err(StoreError::Unreadable(error)),
            Ok(document) => if !command.within_limits(document) {
                Err(StoreError::CounterLimit)
            } else if !command.applies(document) {
                Ok(None)
            } else {
                Ok(Some(encoded(command.result(document))))
            },
        },
    }
}

/// The characters of a text that may be absent.
pub open spec fn text_view(text: Option<&str>) -> Option<Seq<char>> {
    match text {
        Some(characters) => Some(characters@),
        None => None,
    }
}

/// What a result of the store says, with the text as its characters.
pub open spec fn written(result: Result<Option<String>, StoreError>) -> Result<
    Option<Seq<char>>,
    StoreError,
> {
    match result {
        Ok(Some(text)) => Ok(Some(text@)),
        Ok(None) => Ok(None),
        Err(error) => Err(error),
    }
}

/// Runs one command against the text on disk (`None` where there is no
/// file) and says what to write.
pub fn execute(existing: Option<&str>, command: Command) -> (result: Result<
    Option<String>,
    StoreError,
>)
    ensures
        written(result) == outcome(text_view(existing), command@),
{
    match command {
        Command::Ignored => Ok(None),
        Command::Ensure => match existing {
            Some(_) => Ok(None),
            None => Ok(Some(Document::template().encode())),
        },
        Command::Reset => Ok(Some(Document::template().encode())),
        command => {
            let mut document = match existing {
                None => Document::template(),
                Some(text) => match Document::decode(text) {
                    Ok(document) => document,
                    Err(error) => {
                        return Err(StoreError::Unreadable(error));
                    },
                },
            };
            match document.apply(command) {
                Err(_) => Err(StoreError::CounterLimit),
                Ok(false) => Ok(None),
                Ok(true) => Ok(Some(document.encode())),
            }
        },
    }
}

/// Loads the document for one frame from the text on disk. With a file the
/// result is what its text reads as, and `true`, or the reason for which
/// the text is not read. Without a file the result is what an empty JSON
/// object reads as, the canonical empty document, and `false`.
pub fn try_get_pydo(contents: Option<&str>) -> (loaded: Result<(Document, bool), DecodeError>)
    ensures
        match contents {
            Some(text) => match loaded {
                Ok((document, found)) => found && decoded(text@) == Ok::<
                    DocumentView,
                    DecodeError,
                >(document@),
                Err(error) => decoded(text@) == Err::<DocumentView, DecodeError>(error),
            },
            None => match loaded {
                Ok((document, found)) => !found && document@ == DocumentView::template(),
                Err(_) => false,
            },
        },
{
    match contents {
        Some(text) => match Document::decode(text) {
            Ok(document) => Ok((document, true)),
            Err(error) => Err(error),
        },
        None => {
            proof {
                lemma_empty_object_is_template();
            }
            Ok((Document::from_json(&JsonValue::new_object()), false))
        },
    }
}

/// An index that names no entry leaves the file untouched: nothing is
/// written for it, whatever the readable document on disk holds.
pub proof fn lemma_out_of_range_writes_nothing(
    existing: Option<Seq<char>>,
    command: CommandView,
)
    requires
        stored(existing) is Ok,
        match command {
            CommandView::Remove(index) => !stored(existing)->Ok_0.has_task(index as int),
            CommandView::Complete(index) => !stored(existing)->Ok_0.has_task(index as int),
            CommandView::RemoveRemember(index) => !stored(existing)->Ok_0.has_item(index as int),
            _ => false,
        },
    ensures
        outcome(existing, command) == Ok::<Option<Seq<char>>, StoreError>(None),
        command.result(stored(existing)->Ok_0) == stored(existing)->Ok_0,
{
}

} // verus!
