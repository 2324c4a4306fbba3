//! The capsule record, its mathematical view, and input validation.

use vstd::prelude::*;

verus! {

/// Which input of a request failed validation.
#[derive(Clone, Copy, Debug, PartialEq, Eq, Structural)]
pub enum InvalidField {
    Owner,
    Message,
    UnlockTime,
}

/// Everything a store operation can answer instead of succeeding.
#[derive(Clone, Copy, Debug, PartialEq, Eq, Structural)]
pub enum CapsuleError {
    InvalidInput(InvalidField),
    NotFound,
    StillLocked,
    Unauthorized,
}

/// A stored record: who wrote it, what it says, and when it opens.
#[derive(Debug)]
pub struct Capsule {
    pub owner: String,
    pub message: String,
    pub unlock_time: u64,
}

/// The mathematical image of a capsule, with both strings as character
/// sequences.
#[verifier::ext_equal]
pub ghost struct CapsuleView {
    pub owner: Seq<char>,
    pub message: Seq<char>,
    pub unlock_time: u64,
}

impl View for Capsule {
    type V = CapsuleView;

    open spec fn view(&self) -> CapsuleView {
        CapsuleView { owner: self.owner@, message: self.message@, unlock_time: self.unlock_time }
    }
}

/// The characters that trimming removes from either end of a field.
pub open spec fn is_space(c: char) -> bool {
    c == ' ' || c == '\t' || c == '\n' || c == '\r' || c == '\u{b}' || c == '\u{c}'
}

/// A string is blank when trimming whitespace leaves nothing of it.
pub open spec fn is_blank(s: Seq<char>) -> bool {
    forall|i: int| 0 <= i < s.len() ==> is_space(s[i])
}

/// Decides blankness character by character.
pub fn is_blank_str(s: &String) -> (b: bool)
    ensures
        b == is_blank(s@),
{
    let text: &str = s.as_str();
    let n = text.unicode_len();
    let mut i: usize = 0;
    while i < n
        invariant
            i <= n,
            n == text@.len(),
            text@ == s@,
            forall|k: int| 0 <= k < i ==> is_space(s@[k]),
        decreases n - i,
    {
        let c = text.get_char(i);
        if !(c == ' ' || c == '\t' || c == '\n' || c == '\r' || c == '\u{b}' || c == '\u{c}') {
            assert(!is_space(s@[i as int]));
            return false;
        }
        i = i + 1;
    }
    true
}

} // verus!
