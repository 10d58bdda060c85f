//! A personal task tracker: a to-do document with its mutations, the command
//! surface that drives them, and the decisions of an interactive terminal
//! session over that document.
//!
//! - [`document`]: the document, its mutations, and the laws they obey.
//! - [`command`]: the verbs of the command surface and what they do.
//! - [`codec`]: the document as JSON, written and read through the `json`
//!   crate.
//! - [`store`]: from the text on disk and a command to the text to write.
//! - [`session`]: the interactive session as a state machine.
//! - [`render`]: what a frame shows, as plain values.
//! - [`ticker`]: the timing of the heartbeat.
//! - [`wire`]: what is taken on trust about the `json` crate.
//! - [`text`]: what is taken on trust about the standard library's strings,
//!   and the tests on a text's characters that guard the parser.
//!
//! The library does no input or output: files, the terminal and the clock
//! are the caller's.

use vstd::prelude::*;

pub mod codec;
pub mod command;
pub mod document;
pub mod render;
pub mod session;
pub mod store;
pub mod text;
pub mod ticker;
pub mod wire;

verus! {

/// Chooses between two values: `a` when `condition` holds, `b` otherwise.
pub fn if_else<T>(condition: bool, a: T, b: T) -> (chosen: T)
    ensures
        chosen == (if condition { a } else { b }),
{
    if condition {
        return a;
    }
    b
}

} // verus!
