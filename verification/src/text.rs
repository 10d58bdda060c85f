//! Texts: what this library takes on trust about the standard library's
//! strings, where the verifier's own library says nothing of a function, and
//! two tests on the characters of a text.

use vstd::prelude::*;
use vstd::std_specs::iter::IteratorSpec;

verus! {

/// `str`'s equality: two string slices are equal exactly when they hold the
/// same characters.
pub assume_specification[ <str as PartialEq>::eq ](left: &str, right: &str) -> (same: bool)
    ensures
        same == (left@ == right@),
;

/// `String::push`: the character is appended at the end.
pub assume_specification[ String::push ](text: &mut String, c: char)
    ensures
        final(text)@ == old(text)@.push(c),
;

/// `String::pop`: the last character is removed and returned; an empty
/// string stays empty and gives `None`.
pub assume_specification[ String::pop ](text: &mut String) -> (removed: Option<char>)
    ensures
        match removed {
            Some(c) => old(text)@.len() > 0 && c == old(text)@.last() && final(text)@ == old(
                text,
            )@.drop_last(),
            None => old(text)@.len() == 0 && final(text)@ == old(text)@,
        },
;

/// Whether a text is a given word.
pub fn is_word(text: &str, word: &str) -> (same: bool)
    ensures
        same == (text@ == word@),
{
    text.eq(word)
}

/// Whether a character is one of the ten decimal digits.
pub open spec fn is_digit(c: char) -> bool {
    '0' <= c && c <= '9'
}

/// Whether `length` decimal digits stand in the text from `start` on.
pub open spec fn digits_at(text: Seq<char>, start: int, length: int) -> bool {
    &&& 0 <= start
    &&& start + length <= text.len()
    &&& forall|k: int| start <= k < start + length ==> is_digit(#[trigger] text[k])
}

/// Whether no full stop in the text is followed directly by more than
/// `limit` decimal digits.
pub open spec fn fractions_within(text: Seq<char>, limit: int) -> bool {
    forall|dot: int|
        0 <= dot < text.len() && #[trigger] text[dot] == '.' ==> !digits_at(
            text,
            dot + 1,
            limit + 1,
        )
}

/// Whether the digits after the full stop at `dot` end within `limit`
/// digits: one of the `limit + 1` characters after it is no digit.
pub open spec fn fraction_ends(text: Seq<char>, dot: int, limit: int) -> bool {
    exists|k: int| dot < k <= dot + limit + 1 && k < text.len() && !is_digit(#[trigger] text[k])
}

/// Tests, in one pass over the characters, that no full stop in the text is
/// followed directly by more than `limit` decimal digits.
pub fn fractions_fit(text: &str, limit: usize) -> (fit: bool)
    ensures
        fit == fractions_within(text@, limit as int),
{
    broadcast use vstd::string::group_string_axioms;

    let mut characters = text.chars();
    let ghost mut read: int = 0;
    // The last character read that is no digit: where it stands, whether it
    // is a full stop, and how many digits have followed it.
    let ghost mut stop: int = -1;
    let mut after_dot = false;
    let mut run: usize = 0;
    loop
        invariant
            0 <= read <= text@.len(),
            characters.remaining() == text@.skip(read),
            -1 <= stop < read,
            stop >= 0 ==> !is_digit(text@[stop]),
            after_dot == (stop >= 0 && text@[stop] == '.'),
            forall|k: int| stop < k < read ==> is_digit(#[trigger] text@[k]),
            after_dot ==> run == read - stop - 1 && run <= limit,
            forall|dot: int|
                0 <= dot < read && #[trigger] text@[dot] == '.' && dot != stop ==> fraction_ends(
                    text@,
                    dot,
                    limit as int,
                ),
        decreases text@.len() - read,
    {
        match characters.next() {
            None => {
                assert forall|dot: int|
                    0 <= dot < text@.len() && #[trigger] text@[dot] == '.' implies !digits_at(
                    text@,
                    dot + 1,
                    limit + 1,
                ) by {
                    if dot != stop {
                        let k = choose|k: int|
                            dot < k <= dot + limit + 1 && k < text@.len() && !is_digit(
                                #[trigger] text@[k],
                            );
                        assert(!is_digit(text@[k]));
                    }
                }
                return true;
            },
            Some(c) => {
                proof {
                    assert(c == text@[read]);
                    assert(text@.skip(read).drop_first() =~= text@.skip(read + 1));
                }
                if c >= '0' && c <= '9' {
                    if after_dot {
                        if run >= limit {
                            assert(digits_at(text@, stop + 1, limit + 1));
                            return false;
                        }
                        run = run + 1;
                    }
                } else {
                    proof {
                        if after_dot {
                            assert(!is_digit(text@[read]));
                            assert(fraction_ends(text@, stop, limit as int));
                        }
                        stop = read;
                    }
                    after_dot = c == '.';
                    run = 0;
                }
                proof {
                    read = read + 1;
                }
            },
        }
    }
}

} // verus!
