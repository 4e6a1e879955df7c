//! Text for display in a row.

use crate::text::{from_chars, replace_char, replaced, to_chars, trim, trimmed};
use vstd::prelude::*;

verus! {

/// `s` on one line: trimmed, and with each line feed and tab replaced by a
/// space.
pub open spec fn flattened(s: Seq<char>) -> Seq<char> {
    replace_char(replace_char(trim(s), '\n', ' '), '\t', ' ')
}

/// `s` on one line and cut to `max` characters: where it is longer, its
/// first `max` characters followed by three dots.
pub open spec fn truncated(s: Seq<char>, max: int) -> Seq<char> {
    let t = flattened(s);
    if t.len() > max {
        t.take(max) + seq!['.', '.', '.']
    } else {
        t
    }
}

/// Prepares a text for display: trims it, puts it on one line, and cuts
/// it to `max` characters, with three dots behind where something was cut.
pub fn char_truncate(s: &str, max: usize) -> (r: String)
    ensures
        r@ == truncated(s@, max as int),
{
    let chars = to_chars(s);
    let t = replaced(&replaced(&trimmed(&chars), '\n', ' '), '\t', ' ');
    if t.len() > max {
        let mut out: Vec<char> = Vec::new();
        let mut i: usize = 0;
        while i < max
            invariant
                i <= max < t.len(),
                out@ == t@.take(i as int),
            decreases max - i,
        {
            out.push(t[i]);
            i += 1;
        }
        out.push('.');
        out.push('.');
        out.push('.');
        assert(out@ == t@.take(max as int) + seq!['.', '.', '.']);
        from_chars(&out)
    } else {
        from_chars(&t)
    }
}

} // verus!
