//! Pseudonyms: each distinct value of a column gets an identifier from a
//! counter, and keeps it.

use vstd::prelude::*;
use vstd::string::{StrSliceExecFns, StringExecFns};
use crate::maps::{text_entries, text_map_get, text_map_insert, text_map_new, TextMap};
use crate::text::{curly_format, curly_formatted, decimal_digits, decimal_text, same_text};

verus! {

/// Why a pseudonym could not be given.
#[derive(Clone, Copy, Debug, PartialEq, Eq, Structural)]
pub enum PseudoError {
    /// The format has no `{}`, or the formatter rejects it.
    InvalidFormat,
    /// The counter has passed the largest number; the last identifier that
    /// was given came from `last_valid`.
    Overflow { last_valid: u64 },
}

/// Whether the format holds `{}`.
pub open spec fn has_placeholder(format: Seq<char>) -> bool {
    exists|i: int| 0 <= i < format.len() - 1 && #[trigger] format[i] == '{' && format[i + 1] == '}'
}

/// Whether the format can be used: it is `{}` alone, or it holds `{}` and
/// the formatter takes it.
pub open spec fn format_usable(format: Seq<char>) -> bool {
    format == "{}"@ || (has_placeholder(format) && curly_formatted(format, 0) is Some)
}

/// The identifier that a number gets under a format, where the formatter gives one.
pub open spec fn identifier_of(format: Seq<char>, number: u64) -> Option<Seq<char>> {
    if format == "{}"@ {
        Some(decimal_digits(number as nat))
    } else {
        curly_formatted(format, number)
    }
}

/// Looks for `{}` in the format.
pub fn holds_placeholder(format: &str) -> (r: bool)
    ensures
        r == has_placeholder(format@),
{
    let len = format.unicode_len();
    if len < 2 {
        return false;
    }
    let mut i: usize = 0;
    while i < len - 1
        invariant
            len == format@.len(),
            len >= 2,
            forall|j: int| 0 <= j < i && j < len - 1 ==> !(#[trigger] format@[j] == '{' && format@[j + 1] == '}'),
        decreases len - i,
    {
        if format.get_char(i) == '{' && format.get_char(i + 1) == '}' {
            return true;
        }
        i += 1;
    }
    false
}

/// The pseudonyms given so far, and the counter that gives the next.
pub struct Pseudonymizer {
    pub next: u64,
    pub increment: u64,
    pub format: String,
    pub assigned: TextMap,
}

/// What a value gets, and the counter afterwards.
pub open spec fn assignment(
    assigned: Map<Seq<char>, Seq<char>>,
    next: u64,
    increment: u64,
    format: Seq<char>,
    value: Seq<char>,
) -> (Result<Seq<char>, PseudoError>, Map<Seq<char>, Seq<char>>, u64) {
    if assigned.contains_key(value) {
        (Ok(assigned[value]), assigned, next)
    } else {
        match identifier_of(format, next) {
            None => (Err(PseudoError::InvalidFormat), assigned, next),
            Some(identifier) => if next + increment > u64::MAX {
                (
                    Err(PseudoError::Overflow { last_valid: next }),
                    assigned.insert(value, identifier),
                    ((next + increment) - u64::MAX - 1) as u64,
                )
            } else {
                (Ok(identifier), assigned.insert(value, identifier), (next + increment) as u64)
            },
        }
    }
}

impl Pseudonymizer {
    /// Starts a run, or rejects a format that cannot be used.
    pub fn new(start: u64, increment: u64, format: &str) -> (r: Result<Pseudonymizer, PseudoError>)
        ensures
            r is Ok <==> format_usable(format@),
            r matches Ok(p) ==> p.next == start && p.increment == increment && p.format@ == format@ && text_entries(
                p.assigned,
            ) == (Map::<Seq<char>, Seq<char>>::empty()),
            r matches Err(e) ==> e == PseudoError::InvalidFormat,
    {
        if !same_text(format, "{}") {
            if !holds_placeholder(format) || curly_format(format, 0).is_none() {
                return Err(PseudoError::InvalidFormat);
            }
        }
        Ok(Pseudonymizer { next: start, increment, format: String::from_str(format), assigned: text_map_new() })
    }

    /// Gives the pseudonym of a value: the one it has, or the next from the counter.
    pub fn assign(&mut self, value: &str) -> (r: Result<String, PseudoError>)
        ensures
            final(self).increment == old(self).increment,
            final(self).format@ == old(self).format@,
            (match r {
                Ok(identifier) => Ok::<Seq<char>, PseudoError>(identifier@),
                Err(e) => Err::<Seq<char>, PseudoError>(e),
            }, text_entries(final(self).assigned), final(self).next) == assignment(
                text_entries(old(self).assigned),
                old(self).next,
                old(self).increment,
                old(self).format@,
                value@,
            ),
    {
        match text_map_get(&self.assigned, value) {
            Some(identifier) => {
                return Ok(identifier.clone());
            },
            None => {},
        }
        let current = self.next;
        let identifier = if same_text(self.format.as_str(), "{}") {
            decimal_text(current)
        } else {
            match curly_format(self.format.as_str(), current) {
                Some(text) => text,
                None => {
                    return Err(PseudoError::InvalidFormat);
                },
            }
        };
        text_map_insert(&mut self.assigned, String::from_str(value), identifier.clone());
        match current.checked_add(self.increment) {
            Some(next) => {
                self.next = next;
                Ok(identifier)
            },
            None => {
                self.next = current.wrapping_add(self.increment);
                Err(PseudoError::Overflow { last_valid: current })
            },
        }
    }
}

} // verus!
