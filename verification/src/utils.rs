//! Character-offset text operations on `String`.

use vstd::prelude::*;
use vstd::string::*;

verus! {

/// `x` held to the interval from `lo` to `hi`.
pub open spec fn clamp(x: int, lo: int, hi: int) -> int {
    if x < lo {
        lo
    } else if x > hi {
        hi
    } else {
        x
    }
}

/// `text` without the characters at the offsets `i` with `start <= i < stop`.
/// Bounds outside the text are clamped to it; an empty or inverted range
/// removes nothing.
pub open spec fn without_range(text: Seq<char>, start: int, stop: int) -> Seq<char> {
    let a = clamp(start, 0, text.len() as int);
    let b = clamp(stop, a, text.len() as int);
    text.subrange(0, a) + text.subrange(b, text.len() as int)
}

/// `text` with `piece` spliced in before the character at offset `at`.
pub open spec fn with_inserted(text: Seq<char>, at: int, piece: Seq<char>) -> Seq<char>
    recommends
        0 <= at <= text.len(),
{
    text.subrange(0, at) + piece + text.subrange(at, text.len() as int)
}

/// Removal of a range of characters that yields a new value.
pub trait RemoveRange: Sized {
    fn to_remove_range(&mut self, start: usize, stop: usize) -> Self;
}

impl RemoveRange for String {
    /// Returns the text without the characters at offsets `start..stop`
    /// (counted in characters, clamped to the text) and leaves `self` as it was.
    fn to_remove_range(&mut self, start: usize, stop: usize) -> (rslt: Self)
        ensures
            rslt@ == without_range(old(self)@, start as int, stop as int),
            final(self)@ == old(self)@,
    {
        let len: usize = self.as_str().unicode_len();
        let a: usize = if start < len { start } else { len };
        let b: usize = if stop < a { a } else if stop > len { len } else { stop };
        let head = self.as_str().substring_char(0, a);
        let tail = self.as_str().substring_char(b, len);
        let mut rslt = String::from_str(head);
        rslt.append(tail);
        rslt
    }
}

/// Splices `piece` into `text` before the character at offset `at`.
pub fn insert_at(text: &String, at: usize, piece: &str) -> (rslt: String)
    requires
        at <= text@.len(),
    ensures
        rslt@ == with_inserted(text@, at as int, piece@),
{
    let len: usize = text.as_str().unicode_len();
    let head = text.as_str().substring_char(0, at);
    let tail = text.as_str().substring_char(at, len);
    let mut rslt = String::from_str(head);
    rslt.append(piece);
    rslt.append(tail);
    rslt
}

} // verus!
