//! Character sequences: the model that every contract in this crate speaks
//! of, and the executable helpers that work on `Vec<char>`.

use vstd::prelude::*;

verus! {

/// What `str::to_lowercase` returns for a string with these characters.
pub uninterp spec fn lowercase_of(s: Seq<char>) -> Seq<char>;

/// What `str::to_uppercase` returns for a string with these characters.
pub uninterp spec fn uppercase_of(s: Seq<char>) -> Seq<char>;

/// Calls `str::to_lowercase`. The result is the lowercase form of `s` as the
/// standard library's Unicode tables define it; nothing more is claimed.
#[verifier::external_body]
pub(crate) fn str_to_lowercase(s: &str) -> (r: String)
    ensures
        r@ == lowercase_of(s@),
{
    s.to_lowercase()
}

/// Calls `str::to_uppercase`. The result is the uppercase form of `s` as the
/// standard library's Unicode tables define it; nothing more is claimed.
#[verifier::external_body]
pub(crate) fn str_to_uppercase(s: &str) -> (r: String)
    ensures
        r@ == uppercase_of(s@),
{
    s.to_uppercase()
}

/// `String::push` appends one character to the end of the string.
pub assume_specification[ String::push ](s: &mut String, ch: char)
    ensures
        final(s)@ == old(s)@.push(ch),
;

/// The characters of `s`, in order.
pub fn to_chars(s: &str) -> (r: Vec<char>)
    ensures
        r@ == s@,
{
    let mut out: Vec<char> = Vec::new();
    for c in it: s.chars()
        invariant
            out@ == s@.take(it.index() as int),
            it.seq() == s@,
    {
        out.push(c);
    }
    out
}

/// A string made of the characters of `v`, in order.
pub fn from_chars(v: &Vec<char>) -> (r: String)
    ensures
        r@ == v@,
{
    let mut out = String::new();
    let mut i: usize = 0;
    while i < v.len()
        invariant
            i <= v.len(),
            out@ == v@.take(i as int),
        decreases v.len() - i,
    {
        out.push(v[i]);
        i += 1;
    }
    out
}

/// The lowercase form of `s`, as characters.
pub fn lowered(s: &str) -> (r: Vec<char>)
    ensures
        r@ == lowercase_of(s@),
{
    let l = str_to_lowercase(s);
    to_chars(l.as_str())
}

/// The lowercase form of the characters `v`.
pub fn lowered_chars(v: &Vec<char>) -> (r: Vec<char>)
    ensures
        r@ == lowercase_of(v@),
{
    let s = from_chars(v);
    lowered(s.as_str())
}

/// The uppercase form of the characters `v`.
pub fn uppered_chars(v: &Vec<char>) -> (r: Vec<char>)
    ensures
        r@ == uppercase_of(v@),
{
    let s = from_chars(v);
    let u = str_to_uppercase(s.as_str());
    to_chars(u.as_str())
}

/// The characters `s[from..to]` as a vector of their own.
pub(crate) fn slice_of(s: &Vec<char>, from: usize, to: usize) -> (r: Vec<char>)
    requires
        from <= to <= s.len(),
    ensures
        r@ == s@.subrange(from as int, to as int),
{
    let mut out: Vec<char> = Vec::new();
    let mut i: usize = from;
    while i < to
        invariant
            from <= i <= to <= s.len(),
            out@ == s@.subrange(from as int, i as int),
        decreases to - i,
    {
        out.push(s[i]);
        i += 1;
    }
    out
}

/// Whether the two vectors hold the same characters.
pub fn same_chars(a: &Vec<char>, b: &Vec<char>) -> (r: bool)
    ensures
        r == (a@ == b@),
{
    if a.len() != b.len() {
        return false;
    }
    let mut i: usize = 0;
    while i < a.len()
        invariant
            i <= a.len(),
            a.len() == b.len(),
            a@.take(i as int) == b@.take(i as int),
        decreases a.len() - i,
    {
        if a[i] != b[i] {
            return false;
        }
        assert(a@.take(i + 1) == a@.take(i as int).push(a@[i as int]));
        assert(b@.take(i + 1) == b@.take(i as int).push(b@[i as int]));
        i += 1;
    }
    assert(a@.take(a.len() as int) == a@);
    assert(b@.take(b.len() as int) == b@);
    true
}

/// Whether `s` holds exactly the characters of the string `lit`.
pub fn is_text(s: &Vec<char>, lit: &str) -> (r: bool)
    ensures
        r == (s@ == lit@),
{
    let l = to_chars(lit);
    same_chars(s, &l)
}

/// The characters that count as white space: Unicode's `White_Space`
/// property, which is what `char::is_whitespace` tests.
pub open spec fn is_whitespace(c: char) -> bool {
    ||| c == ' '
    ||| '\u{9}' <= c <= '\u{d}'
    ||| c == '\u{85}'
    ||| c == '\u{a0}'
    ||| c == '\u{1680}'
    ||| '\u{2000}' <= c <= '\u{200a}'
    ||| c == '\u{2028}'
    ||| c == '\u{2029}'
    ||| c == '\u{202f}'
    ||| c == '\u{205f}'
    ||| c == '\u{3000}'
}

/// Whether `c` is white space.
pub fn whitespace(c: char) -> (r: bool)
    ensures
        r == is_whitespace(c),
{
    c == ' ' || (c >= '\u{9}' && c <= '\u{d}') || c == '\u{85}' || c == '\u{a0}' || c
        == '\u{1680}' || (c >= '\u{2000}' && c <= '\u{200a}') || c == '\u{2028}' || c
        == '\u{2029}' || c == '\u{202f}' || c == '\u{205f}' || c == '\u{3000}'
}

/// The ASCII characters with a visible glyph: `!` to `~`.
pub open spec fn is_ascii_graphic(c: char) -> bool {
    '!' <= c <= '~'
}

/// Whether `c` is an ASCII character with a visible glyph.
pub fn ascii_graphic(c: char) -> (r: bool)
    ensures
        r == is_ascii_graphic(c),
{
    c >= '!' && c <= '~'
}

/// The decimal digits `0` to `9`.
pub open spec fn is_ascii_digit(c: char) -> bool {
    '0' <= c <= '9'
}

/// Whether `c` is a decimal digit.
pub fn ascii_digit(c: char) -> (r: bool)
    ensures
        r == is_ascii_digit(c),
{
    c >= '0' && c <= '9'
}

/// `s` without its leading white space.
pub open spec fn trim_start(s: Seq<char>) -> Seq<char>
    decreases s.len(),
{
    if s.len() > 0 && is_whitespace(s[0]) {
        trim_start(s.drop_first())
    } else {
        s
    }
}

/// `s` without its trailing white space.
pub open spec fn trim_end(s: Seq<char>) -> Seq<char>
    decreases s.len(),
{
    if s.len() > 0 && is_whitespace(s.last()) {
        trim_end(s.drop_last())
    } else {
        s
    }
}

/// `s` without leading and trailing white space.
pub open spec fn trim(s: Seq<char>) -> Seq<char> {
    trim_end(trim_start(s))
}

/// Skipping `n` white-space characters at the front leaves `trim_start`
/// unchanged.
pub proof fn lemma_trim_start_skip(s: Seq<char>, n: int)
    requires
        0 <= n <= s.len(),
        forall|k: int| 0 <= k < n ==> is_whitespace(#[trigger] s[k]),
    ensures
        trim_start(s) == trim_start(s.skip(n)),
    decreases n,
{
    if n == 0 {
        assert(s.skip(0) == s);
    } else {
        assert(s.drop_first().skip(n - 1) == s.skip(n));
        lemma_trim_start_skip(s.drop_first(), n - 1);
    }
}

/// Dropping white-space characters at the back, down to length `n`, leaves
/// `trim_end` unchanged.
pub proof fn lemma_trim_end_take(s: Seq<char>, n: int)
    requires
        0 <= n <= s.len(),
        forall|k: int| n <= k < s.len() ==> is_whitespace(#[trigger] s[k]),
    ensures
        trim_end(s) == trim_end(s.take(n)),
    decreases s.len() - n,
{
    if n == s.len() {
        assert(s.take(n) == s);
    } else {
        assert(s.drop_last().take(n) == s.take(n));
        lemma_trim_end_take(s.drop_last(), n);
    }
}

/// The index of the first character of `s` that is not white space, or the
/// length of `s` where there is none.
pub(crate) fn skip_whitespace(s: &Vec<char>, from: usize) -> (r: usize)
    requires
        from <= s.len(),
    ensures
        from <= r <= s.len(),
        forall|k: int| from <= k < r ==> is_whitespace(#[trigger] s@[k]),
        r < s.len() ==> !is_whitespace(s@[r as int]),
{
    let mut i: usize = from;
    while i < s.len() && whitespace(s[i])
        invariant
            from <= i <= s.len(),
            forall|k: int| from <= k < i ==> is_whitespace(#[trigger] s@[k]),
        decreases s.len() - i,
    {
        i += 1;
    }
    i
}

/// `s` without leading and trailing white space.
pub fn trimmed(s: &Vec<char>) -> (r: Vec<char>)
    ensures
        r@ == trim(s@),
{
    let start = skip_whitespace(s, 0);
    let mut end: usize = s.len();
    while end > start && whitespace(s[end - 1])
        invariant
            start <= end <= s.len(),
            forall|k: int| end <= k < s.len() ==> is_whitespace(#[trigger] s@[k]),
        decreases end,
    {
        end -= 1;
    }
    proof {
        let a = s@.skip(start as int);
        lemma_trim_start_skip(s@, start as int);
        // `a` starts with a character that is not white space, or is empty
        assert(trim_start(a) == a);
        let n = end - start;
        assert forall|k: int| n <= k < a.len() implies is_whitespace(#[trigger] a[k]) by {
            assert(a[k] == s@[k + start]);
        }
        lemma_trim_end_take(a, n as int);
        assert(a.take(n as int) == s@.subrange(start as int, end as int));
        let b = a.take(n as int);
        if b.len() > 0 {
            assert(b.last() == s@[end - 1]);
        }
        assert(trim_end(b) == b);
    }
    slice_of(s, start, end)
}

/// The number of characters at the front of `s` that are not white space.
pub open spec fn word_len(s: Seq<char>) -> nat
    decreases s.len(),
{
    if s.len() > 0 && !is_whitespace(s[0]) {
        1 + word_len(s.drop_first())
    } else {
        0
    }
}

/// The words of `s`: its maximal runs of characters that are not white
/// space, in order. This is what `str::split_whitespace` yields.
pub open spec fn split_whitespace(s: Seq<char>) -> Seq<Seq<char>>
    decreases s.len(),
    via split_whitespace_decreases
{
    let t = trim_start(s);
    if t.len() == 0 {
        Seq::empty()
    } else {
        let n = word_len(t) as int;
        seq![t.take(n)] + split_whitespace(t.skip(n))
    }
}

#[via_fn]
proof fn split_whitespace_decreases(s: Seq<char>) {
    let t = trim_start(s);
    if t.len() != 0 {
        lemma_trim_start_len(s);
        lemma_word_len_bounds(t);
    }
}

/// The leading word is no longer than the text, and not empty where the
/// text starts with a character that is not white space.
pub proof fn lemma_word_len_bounds(s: Seq<char>)
    ensures
        word_len(s) <= s.len(),
        s.len() > 0 && !is_whitespace(s[0]) ==> word_len(s) >= 1,
    decreases s.len(),
{
    if s.len() > 0 && !is_whitespace(s[0]) {
        lemma_word_len_bounds(s.drop_first());
    }
}

/// `trim_start` only shortens.
pub proof fn lemma_trim_start_len(s: Seq<char>)
    ensures
        trim_start(s).len() <= s.len(),
        trim_start(s).len() > 0 ==> !is_whitespace(trim_start(s)[0]),
    decreases s.len(),
{
    if s.len() > 0 && is_whitespace(s[0]) {
        lemma_trim_start_len(s.drop_first());
    }
}

/// A run of `n` characters that are not white space, followed by white
/// space or the end, is the leading word.
pub proof fn lemma_word_len(s: Seq<char>, n: int)
    requires
        0 <= n <= s.len(),
        forall|k: int| 0 <= k < n ==> !is_whitespace(#[trigger] s[k]),
        n < s.len() ==> is_whitespace(s[n]),
    ensures
        word_len(s) == n,
    decreases n,
{
    if n > 0 {
        lemma_word_len(s.drop_first(), n - 1);
    }
}

/// The view of each vector of `v`.
pub open spec fn views(v: Seq<Vec<char>>) -> Seq<Seq<char>> {
    v.map_values(|w: Vec<char>| w@)
}

/// The words of `s`.
pub fn words(s: &Vec<char>) -> (r: Vec<Vec<char>>)
    ensures
        views(r@) == split_whitespace(s@),
{
    let mut out: Vec<Vec<char>> = Vec::new();
    let mut i: usize = 0;
    proof {
        assert(s@.skip(0) == s@);
        assert(views(out@) + split_whitespace(s@) == split_whitespace(s@));
    }
    loop
        invariant_except_break
            i <= s.len(),
            views(out@) + split_whitespace(s@.skip(i as int)) == split_whitespace(s@),
        ensures
            views(out@) == split_whitespace(s@),
        decreases s.len() - i,
    {
        let start = skip_whitespace(s, i);
        proof {
            let rest = s@.skip(i as int);
            lemma_trim_start_len(rest);
            assert forall|k: int| 0 <= k < start - i implies is_whitespace(#[trigger] rest[k]) by {
                assert(rest[k] == s@[k + i]);
            }
            lemma_trim_start_skip(rest, start - i);
            assert(rest.skip(start - i) == s@.skip(start as int));
            let t = s@.skip(start as int);
            assert(trim_start(t) == t);
            assert(trim_start(rest) == t);
        }
        if start >= s.len() {
            proof {
                assert(s@.skip(start as int).len() == 0);
                assert(split_whitespace(s@.skip(i as int)) == Seq::<Seq<char>>::empty());
                assert(views(out@) + Seq::<Seq<char>>::empty() == views(out@));
            }
            break;
        }
        let mut end: usize = start + 1;
        while end < s.len() && !whitespace(s[end])
            invariant
                start < end <= s.len(),
                forall|k: int| start <= k < end ==> !is_whitespace(#[trigger] s@[k]),
            decreases s.len() - end,
        {
            end += 1;
        }
        let word = slice_of(s, start, end);
        proof {
            let rest = s@.skip(i as int);
            let t = s@.skip(start as int);
            let n = end - start;
            assert forall|k: int| 0 <= k < n implies !is_whitespace(#[trigger] t[k]) by {
                assert(t[k] == s@[k + start]);
            }
            lemma_word_len(t, n as int);
            assert(t.take(n as int) == word@);
            assert(t.skip(n as int) == s@.skip(end as int));
            assert(split_whitespace(rest) == seq![word@] + split_whitespace(s@.skip(end as int)));
            assert(views(out@.push(word)) == views(out@).push(word@));
            assert(views(out@).push(word@) + split_whitespace(s@.skip(end as int)) == views(out@)
                + (seq![word@] + split_whitespace(s@.skip(end as int))));
        }
        out.push(word);
        i = end;
    }
    out
}

/// The index of the first `c` in `s`, or the length of `s` where there is
/// none.
pub open spec fn first_index(s: Seq<char>, c: char) -> int
    decreases s.len(),
{
    if s.len() == 0 || s[0] == c {
        0
    } else {
        1 + first_index(s.drop_first(), c)
    }
}

/// `first_index` is the least index that holds `c`.
pub proof fn lemma_first_index(s: Seq<char>, c: char)
    ensures
        0 <= first_index(s, c) <= s.len(),
        forall|k: int| 0 <= k < first_index(s, c) ==> #[trigger] s[k] != c,
        first_index(s, c) < s.len() ==> s[first_index(s, c)] == c,
    decreases s.len(),
{
    if s.len() == 0 || s[0] == c {
    } else {
        let t = s.drop_first();
        lemma_first_index(t, c);
        assert forall|k: int| 0 <= k < first_index(s, c) implies #[trigger] s[k] != c by {
            if k > 0 {
                assert(s[k] == t[k - 1]);
            }
        }
    }
}

/// An index with no `c` before it, which holds `c` or is the end, is the
/// first index of `c`.
pub proof fn lemma_first_index_is(s: Seq<char>, c: char, n: int)
    requires
        0 <= n <= s.len(),
        forall|k: int| 0 <= k < n ==> #[trigger] s[k] != c,
        n < s.len() ==> s[n] == c,
    ensures
        first_index(s, c) == n,
{
    lemma_first_index(s, c);
    let f = first_index(s, c);
    if f < n {
        assert(s[f] != c);
    }
    if n < f {
        assert(s[n] != c);
    }
}

/// The index of the first `c` in `s` at or after `from`, or the length of
/// `s`.
pub(crate) fn find_char(s: &Vec<char>, from: usize, c: char) -> (r: usize)
    requires
        from <= s.len(),
    ensures
        from <= r <= s.len(),
        r - from == first_index(s@.skip(from as int), c),
        forall|k: int| from <= k < r ==> #[trigger] s@[k] != c,
        r < s.len() ==> s@[r as int] == c,
{
    let mut i: usize = from;
    while i < s.len() && s[i] != c
        invariant
            from <= i <= s.len(),
            forall|k: int| from <= k < i ==> #[trigger] s@[k] != c,
        decreases s.len() - i,
    {
        i += 1;
    }
    proof {
        let t = s@.skip(from as int);
        assert forall|k: int| 0 <= k < i - from implies #[trigger] t[k] != c by {
            assert(t[k] == s@[k + from]);
        }
        lemma_first_index_is(t, c, i - from);
    }
    i
}

/// The pieces of `s` between occurrences of `c`, in order: what
/// `str::split` yields for a character pattern. There is always at least
/// one piece, and a piece may be empty.
pub open spec fn split_char(s: Seq<char>, c: char) -> Seq<Seq<char>>
    decreases s.len(),
    via split_char_decreases
{
    let n = first_index(s, c);
    if n >= s.len() {
        seq![s]
    } else {
        seq![s.take(n)] + split_char(s.skip(n + 1), c)
    }
}

#[via_fn]
proof fn split_char_decreases(s: Seq<char>, c: char) {
    lemma_first_index(s, c);
}

/// The pieces of `s` between occurrences of `c`.
pub fn split_on(s: &Vec<char>, c: char) -> (r: Vec<Vec<char>>)
    ensures
        views(r@) == split_char(s@, c),
        r.len() >= 1,
{
    let mut out: Vec<Vec<char>> = Vec::new();
    let mut i: usize = 0;
    proof {
        assert(s@.skip(0) == s@);
        assert(views(out@) + split_char(s@, c) == split_char(s@, c));
    }
    loop
        invariant_except_break
            i <= s.len(),
            views(out@) + split_char(s@.skip(i as int), c) == split_char(s@, c),
        ensures
            views(out@) == split_char(s@, c),
            out.len() >= 1,
        decreases s.len() - i,
    {
        let j = find_char(s, i, c);
        let piece = slice_of(s, i, j);
        proof {
            let rest = s@.skip(i as int);
            assert(rest.take(j - i) == piece@);
            assert(views(out@.push(piece)) == views(out@).push(piece@));
            if j < s.len() {
                assert(rest.skip(j - i + 1) == s@.skip(j + 1));
                assert(views(out@).push(piece@) + split_char(s@.skip(j + 1), c) == views(out@) + (
                seq![piece@] + split_char(s@.skip(j + 1), c)));
            } else {
                assert(rest.take(j - i) == rest);
                assert(views(out@).push(piece@) == views(out@) + seq![rest]);
            }
        }
        out.push(piece);
        if j >= s.len() {
            break;
        }
        i = j + 1;
    }
    out
}

/// Whether `t` begins with the characters of `q`.
pub fn starts_with(t: &Vec<char>, q: &Vec<char>) -> (r: bool)
    ensures
        r == q@.is_prefix_of(t@),
{
    if q.len() > t.len() {
        return false;
    }
    let mut i: usize = 0;
    while i < q.len()
        invariant
            i <= q.len() <= t.len(),
            forall|k: int| 0 <= k < i ==> q@[k] == t@[k],
        decreases q.len() - i,
    {
        if q[i] != t[i] {
            return false;
        }
        i += 1;
    }
    true
}

/// Whether `q` stands in `t` at index `k`.
pub open spec fn occurs_at(t: Seq<char>, q: Seq<char>, k: int) -> bool {
    &&& 0 <= k
    &&& k + q.len() <= t.len()
    &&& t.subrange(k, k + q.len()) == q
}

/// Whether `q` stands somewhere in `t` as a contiguous run: what
/// `str::contains` tests for a string pattern.
pub open spec fn contains(t: Seq<char>, q: Seq<char>) -> bool {
    exists|k: int| occurs_at(t, q, k)
}

/// Whether `q` stands in `t` at index `k`.
pub(crate) fn matches_at(t: &Vec<char>, q: &Vec<char>, k: usize) -> (r: bool)
    requires
        k + q.len() <= t.len(),
    ensures
        r == occurs_at(t@, q@, k as int),
{
    let mut i: usize = 0;
    while i < q.len()
        invariant
            i <= q.len(),
            k + q.len() <= t.len(),
            forall|j: int| 0 <= j < i ==> q@[j] == t@[k + j],
        decreases q.len() - i,
    {
        if q[i] != t[k + i] {
            proof {
                let sub = t@.subrange(k as int, k + q.len());
                assert(sub[i as int] == t@[k + i]);
            }
            return false;
        }
        i += 1;
    }
    assert(t@.subrange(k as int, k + q.len()) == q@);
    true
}

/// Whether `q` stands somewhere in `t` as a contiguous run.
pub fn has_substring(t: &Vec<char>, q: &Vec<char>) -> (r: bool)
    ensures
        r == contains(t@, q@),
{
    if q.len() > t.len() {
        return false;
    }
    if q.len() == 0 {
        assert(t@.subrange(0, 0) == q@);
        assert(occurs_at(t@, q@, 0));
        return true;
    }
    let last: usize = t.len() - q.len();
    let mut k: usize = 0;
    while k <= last
        invariant
            k <= last + 1,
            last == t.len() - q.len(),
            q.len() > 0,
            forall|j: int| 0 <= j < k ==> !occurs_at(t@, q@, j),
        decreases last + 1 - k,
    {
        if matches_at(t, q, k) {
            return true;
        }
        k += 1;
    }
    false
}

/// `s` with every `from` replaced by `to`.
pub open spec fn replace_char(s: Seq<char>, from: char, to: char) -> Seq<char> {
    s.map_values(
        |c: char|
            if c == from {
                to
            } else {
                c
            },
    )
}

/// `s` with every `from` replaced by `to`.
pub fn replaced(s: &Vec<char>, from: char, to: char) -> (r: Vec<char>)
    ensures
        r@ == replace_char(s@, from, to),
{
    let mut out: Vec<char> = Vec::new();
    let mut i: usize = 0;
    while i < s.len()
        invariant
            i <= s.len(),
            out@ == replace_char(s@, from, to).take(i as int),
        decreases s.len() - i,
    {
        let c = s[i];
        out.push(
            if c == from {
                to
            } else {
                c
            },
        );
        assert(out@ == replace_char(s@, from, to).take(i + 1));
        i += 1;
    }
    assert(replace_char(s@, from, to).take(s.len() as int) == replace_char(s@, from, to));
    out
}

/// `s` without every leading repetition of `p`: what
/// `str::trim_start_matches` gives for a string pattern that is not empty.
pub open spec fn trim_start_matches(s: Seq<char>, p: Seq<char>) -> Seq<char>
    decreases s.len(),
{
    if p.len() > 0 && p.is_prefix_of(s) {
        trim_start_matches(s.skip(p.len() as int), p)
    } else {
        s
    }
}

/// `s` without every trailing repetition of `p`: what
/// `str::trim_end_matches` gives for a string pattern that is not empty.
pub open spec fn trim_end_matches(s: Seq<char>, p: Seq<char>) -> Seq<char>
    decreases s.len(),
{
    if p.len() > 0 && p.is_suffix_of(s) {
        trim_end_matches(s.take(s.len() - p.len()), p)
    } else {
        s
    }
}

/// `s` without every leading repetition of `head` and then without every
/// trailing repetition of `tail`.
pub fn strip_matches(s: &Vec<char>, head: &Vec<char>, tail: &Vec<char>) -> (r: Vec<char>)
    ensures
        r@ == trim_end_matches(trim_start_matches(s@, head@), tail@),
{
    let mut start: usize = 0;
    proof {
        assert(s@.skip(0) == s@);
    }
    while head.len() > 0 && head.len() <= s.len() - start && matches_at(s, head, start)
        invariant
            start <= s.len(),
            trim_start_matches(s@, head@) == trim_start_matches(s@.skip(start as int), head@),
        decreases s.len() - start,
    {
        proof {
            let rest = s@.skip(start as int);
            assert(rest.subrange(0, head.len() as int) == s@.subrange(
                start as int,
                start + head.len(),
            ));
            assert(head@.is_prefix_of(rest));
            assert(rest.skip(head.len() as int) == s@.skip(start + head.len()));
        }
        start += head.len();
    }
    proof {
        let rest = s@.skip(start as int);
        if head@.is_prefix_of(rest) {
            assert(rest.subrange(0, head.len() as int) == s@.subrange(
                start as int,
                start + head.len(),
            ));
            assert(occurs_at(s@, head@, start as int));
        }
        assert(trim_start_matches(rest, head@) == rest);
    }
    let ghost body = s@.skip(start as int);
    let mut end: usize = s.len();
    proof {
        assert(body.take(end - start) == body);
    }
    while tail.len() > 0 && tail.len() <= end - start && matches_at(s, tail, end - tail.len())
        invariant
            start <= end <= s.len(),
            body == s@.skip(start as int),
            trim_end_matches(body, tail@) == trim_end_matches(body.take(end - start), tail@),
        decreases end,
    {
        proof {
            let cur = body.take(end - start);
            assert(cur.skip(cur.len() - tail.len()) == s@.subrange(end - tail.len(), end as int));
            assert(tail@.is_suffix_of(cur));
            assert(cur.take(cur.len() - tail.len()) == body.take(end - tail.len() - start));
        }
        end -= tail.len();
    }
    proof {
        let cur = body.take(end - start);
        if tail@.is_suffix_of(cur) {
            assert(cur.skip(cur.len() - tail.len()) == s@.subrange(end - tail.len(), end as int));
            assert(occurs_at(s@, tail@, end - tail.len()));
        }
        assert(trim_end_matches(cur, tail@) == cur);
        assert(cur == s@.subrange(start as int, end as int));
    }
    slice_of(s, start, end)
}

/// Whether `s` holds decimal digits only.
pub open spec fn all_digits(s: Seq<char>) -> bool {
    forall|i: int| 0 <= i < s.len() ==> is_ascii_digit(#[trigger] s[i])
}

/// The number that the decimal digits `s` write.
pub open spec fn digits_value(s: Seq<char>) -> int
    decreases s.len(),
{
    if s.len() == 0 {
        0
    } else {
        digits_value(s.drop_last()) * 10 + (s.last() as int - '0' as int)
    }
}

/// The integer that `s` writes in decimal: digits, with `+` or `-` before
/// them where `signed` holds and with `+` only where it does not. At least
/// one digit is needed, and nothing else may stand in `s`.
pub open spec fn decimal(s: Seq<char>, signed: bool) -> Option<int> {
    if s.len() > 0 && (s[0] == '+' || (signed && s[0] == '-')) {
        let d = s.drop_first();
        if d.len() > 0 && all_digits(d) {
            Some(
                if s[0] == '-' {
                    -digits_value(d)
                } else {
                    digits_value(d)
                },
            )
        } else {
            None
        }
    } else if s.len() > 0 && all_digits(s) {
        Some(digits_value(s))
    } else {
        None
    }
}

/// The `i32` that `s` writes in decimal: what `str::parse::<i32>` accepts,
/// and its value.
pub open spec fn decimal_i32(s: Seq<char>) -> Option<int> {
    match decimal(s, true) {
        Some(v) => if i32::MIN <= v <= i32::MAX {
            Some(v)
        } else {
            None
        },
        None => None,
    }
}

/// The `usize` that `s` writes in decimal: what `str::parse::<usize>`
/// accepts, and its value.
pub open spec fn decimal_usize(s: Seq<char>) -> Option<int> {
    match decimal(s, false) {
        Some(v) => if v <= usize::MAX {
            Some(v)
        } else {
            None
        },
        None => None,
    }
}

/// The digits of `s` from `from` on, read as a number and held at `cap`;
/// `None` where there is none or something else stands among them.
fn read_digits(s: &Vec<char>, from: usize, cap: u128) -> (r: Option<u128>)
    requires
        from <= s.len(),
        cap <= 0xffff_ffff_ffff_ffff_ffff,
    ensures
        r is Some <==> from < s.len() && all_digits(s@.skip(from as int)),
        r matches Some(v) ==> v == if digits_value(s@.skip(from as int)) < cap {
            digits_value(s@.skip(from as int))
        } else {
            cap as int
        },
{
    if from >= s.len() {
        return None;
    }
    let ghost d = s@.skip(from as int);
    let mut value: u128 = 0;
    let mut i: usize = from;
    proof {
        assert(d.take(0).len() == 0);
    }
    while i < s.len()
        invariant
            from <= i <= s.len(),
            d == s@.skip(from as int),
            cap <= 0xffff_ffff_ffff_ffff_ffff,
            all_digits(d.take(i - from)),
            0 <= digits_value(d.take(i - from)),
            value == if digits_value(d.take(i - from)) < cap {
                digits_value(d.take(i - from))
            } else {
                cap as int
            },
        decreases s.len() - i,
    {
        let c = s[i];
        if !ascii_digit(c) {
            proof {
                assert(d[i - from] == c);
            }
            return None;
        }
        proof {
            let before = d.take(i - from);
            let after = d.take(i - from + 1);
            assert(after.drop_last() == before);
            assert(after.last() == c);
            assert forall|k: int| 0 <= k < after.len() implies is_ascii_digit(
                #[trigger] after[k],
            ) by {
                if k < before.len() {
                    assert(after[k] == before[k]);
                }
            }
        }
        let digit: u128 = (c as u32 - '0' as u32) as u128;
        let next: u128 = value * 10 + digit;
        value = if next < cap {
            next
        } else {
            cap
        };
        i += 1;
    }
    assert(d.take(s.len() - from) == d);
    Some(value)
}

/// Reads `s` as an `i32` in decimal, as `str::parse::<i32>` does.
pub fn parse_i32(s: &Vec<char>) -> (r: Option<i32>)
    ensures
        match r {
            Some(v) => decimal_i32(s@) == Some(v as int),
            None => decimal_i32(s@) is None,
        },
{
    if s.len() == 0 {
        return None;
    }
    let signed = s[0] == '+' || s[0] == '-';
    let negative = s[0] == '-';
    let from: usize = if signed {
        1
    } else {
        0
    };
    proof {
        assert(s@.skip(1) == s@.drop_first());
        assert(s@.skip(0) == s@);
    }
    match read_digits(s, from, 0x1_0000_0000) {
        Some(v) => {
            if negative {
                if v <= 0x8000_0000 {
                    Some((-(v as i64)) as i32)
                } else {
                    None
                }
            } else {
                if v <= 0x7fff_ffff {
                    Some(v as i32)
                } else {
                    None
                }
            }
        },
        None => None,
    }
}

/// Reads `s` as a `usize` in decimal, as `str::parse::<usize>` does.
pub fn parse_usize(s: &Vec<char>) -> (r: Option<usize>)
    ensures
        match r {
            Some(v) => decimal_usize(s@) == Some(v as int),
            None => decimal_usize(s@) is None,
        },
{
    if s.len() == 0 {
        return None;
    }
    let from: usize = if s[0] == '+' {
        1
    } else {
        0
    };
    proof {
        assert(s@.skip(1) == s@.drop_first());
        assert(s@.skip(0) == s@);
    }
    match read_digits(s, from, 0x1_0000_0000_0000_0000) {
        Some(v) => {
            if v <= usize::MAX as u128 {
                Some(v as usize)
            } else {
                None
            }
        },
        None => None,
    }
}

/// The character of a digit value below ten.
pub open spec fn digit_char(d: int) -> char {
    ((48 + d) as u8) as char
}

/// The decimal digits of `n`, without leading zeros; `0` for zero.
pub open spec fn digits_of(n: nat) -> Seq<char>
    decreases n,
{
    if n < 10 {
        seq![digit_char(n as int)]
    } else {
        digits_of(n / 10).push(digit_char((n % 10) as int))
    }
}

/// The decimal digits of `n` are digits, and they write `n`.
pub proof fn lemma_digits_round_trip(n: nat)
    ensures
        digits_of(n).len() > 0,
        all_digits(digits_of(n)),
        digits_value(digits_of(n)) == n,
    decreases n,
{
    if n < 10 {
        let s = digits_of(n);
        assert(s.drop_last().len() == 0);
        assert(digits_value(s.drop_last()) == 0);
        assert(s.last() == digit_char(n as int));
    } else {
        lemma_digits_round_trip(n / 10);
        let front = digits_of(n / 10);
        let s = digits_of(n);
        assert(s.drop_last() == front);
        assert(s.last() == digit_char((n % 10) as int));
        assert forall|i: int| 0 <= i < s.len() implies is_ascii_digit(#[trigger] s[i]) by {
            if i < front.len() {
                assert(s[i] == front[i]);
            }
        }
    }
}

/// The decimal digits of `n`.
pub fn decimal_digits(n: u64) -> (r: Vec<char>)
    ensures
        r@ == digits_of(n as nat),
    decreases n,
{
    if n < 10 {
        let mut out: Vec<char> = Vec::new();
        let d: u8 = 48 + n as u8;
        out.push(d as char);
        out
    } else {
        let mut out = decimal_digits(n / 10);
        let d: u8 = 48 + (n % 10) as u8;
        out.push(d as char);
        out
    }
}

/// Appends the characters of `more` to `out`.
pub fn append_chars(out: &mut Vec<char>, more: &Vec<char>)
    ensures
        final(out)@ == old(out)@ + more@,
{
    let ghost head = out@;
    let mut i: usize = 0;
    assert(more@.take(0) == Seq::<char>::empty());
    while i < more.len()
        invariant
            i <= more.len(),
            out@ == head + more@.take(i as int),
        decreases more.len() - i,
    {
        out.push(more[i]);
        assert(head + more@.take(i + 1) == (head + more@.take(i as int)).push(more@[i as int]));
        i += 1;
    }
    assert(more@.take(more.len() as int) == more@);
}

/// `s` without a carriage return at its end.
pub open spec fn strip_cr(s: Seq<char>) -> Seq<char> {
    if s.len() > 0 && s.last() == '\r' {
        s.drop_last()
    } else {
        s
    }
}

/// The lines of `s`: what `str::lines` yields. A line ends at a line feed;
/// a carriage return just before the line feed goes with it. What follows
/// the last line feed is a line of its own unless it is empty.
pub open spec fn lines(s: Seq<char>) -> Seq<Seq<char>>
    decreases s.len(),
    via lines_decreases
{
    if s.len() == 0 {
        Seq::empty()
    } else {
        let n = first_index(s, '\n');
        if n >= s.len() {
            seq![s]
        } else {
            seq![strip_cr(s.take(n))] + lines(s.skip(n + 1))
        }
    }
}

#[via_fn]
proof fn lines_decreases(s: Seq<char>) {
    lemma_first_index(s, '\n');
}

/// The lines of `s`.
pub fn text_lines(s: &Vec<char>) -> (r: Vec<Vec<char>>)
    ensures
        views(r@) == lines(s@),
{
    let mut out: Vec<Vec<char>> = Vec::new();
    let mut i: usize = 0;
    proof {
        assert(s@.skip(0) == s@);
        assert(views(out@) + lines(s@) == lines(s@));
    }
    while i < s.len()
        invariant
            i <= s.len(),
            views(out@) + lines(s@.skip(i as int)) == lines(s@),
        decreases s.len() - i,
    {
        let j = find_char(s, i, '\n');
        let ghost rest = s@.skip(i as int);
        if j < s.len() {
            let end: usize = if j > i && s[j - 1] == '\r' {
                j - 1
            } else {
                j
            };
            let line = slice_of(s, i, end);
            proof {
                let whole = rest.take(j - i);
                assert(whole == s@.subrange(i as int, j as int));
                if whole.len() > 0 {
                    assert(whole.last() == s@[j - 1]);
                }
                assert(strip_cr(whole) == line@);
                assert(rest.skip(j - i + 1) == s@.skip(j + 1));
                assert(views(out@.push(line)) == views(out@).push(line@));
                assert(views(out@).push(line@) + lines(s@.skip(j + 1)) == views(out@) + (
                seq![line@] + lines(s@.skip(j + 1))));
            }
            out.push(line);
            i = j + 1;
        } else {
            let line = slice_of(s, i, j);
            proof {
                assert(line@ == rest);
                assert(views(out@.push(line)) == views(out@).push(line@));
                assert(views(out@).push(line@) == views(out@) + seq![rest]);
                assert(s@.skip(j as int).len() == 0);
                assert(views(out@).push(line@) + lines(s@.skip(j as int)) == views(out@).push(
                    line@,
                ));
            }
            out.push(line);
            i = j;
        }
    }
    proof {
        assert(s@.skip(i as int).len() == 0);
        assert(views(out@) + Seq::<Seq<char>>::empty() == views(out@));
    }
    out
}

/// `s` without the occurrences of `pat`, found from left to right and
/// not overlapping: what `str::replace` gives with an empty replacement.
pub open spec fn remove_all(s: Seq<char>, pat: Seq<char>) -> Seq<char>
    decreases s.len(),
{
    if s.len() == 0 || pat.len() == 0 {
        s
    } else if pat.is_prefix_of(s) {
        remove_all(s.skip(pat.len() as int), pat)
    } else {
        seq![s[0]] + remove_all(s.drop_first(), pat)
    }
}

/// `s` without the occurrences of `pat`.
pub fn removed(s: &Vec<char>, pat: &Vec<char>) -> (r: Vec<char>)
    ensures
        r@ == remove_all(s@, pat@),
{
    if pat.len() == 0 {
        return s.clone();
    }
    let mut out: Vec<char> = Vec::new();
    let mut i: usize = 0;
    proof {
        assert(s@.skip(0) == s@);
        assert(out@ + remove_all(s@, pat@) == remove_all(s@, pat@));
    }
    while i < s.len()
        invariant
            i <= s.len(),
            pat.len() > 0,
            out@ + remove_all(s@.skip(i as int), pat@) == remove_all(s@, pat@),
        decreases s.len() - i,
    {
        let ghost rest = s@.skip(i as int);
        if pat.len() <= s.len() - i && matches_at(s, pat, i) {
            proof {
                assert(rest.subrange(0, pat.len() as int) == s@.subrange(
                    i as int,
                    i + pat.len(),
                ));
                assert(pat@.is_prefix_of(rest));
                assert(rest.skip(pat.len() as int) == s@.skip(i + pat.len()));
            }
            i += pat.len();
        } else {
            proof {
                if pat@.is_prefix_of(rest) {
                    assert(rest.subrange(0, pat.len() as int) == s@.subrange(
                        i as int,
                        i + pat.len(),
                    ));
                    assert(occurs_at(s@, pat@, i as int));
                }
                assert(rest.drop_first() == s@.skip(i + 1));
                assert(out@.push(s@[i as int]) + remove_all(s@.skip(i + 1), pat@) == out@ + (
                seq![rest[0]] + remove_all(rest.drop_first(), pat@)));
            }
            out.push(s[i]);
            i += 1;
        }
    }
    proof {
        assert(s@.skip(i as int).len() == 0);
        assert(out@ + Seq::<char>::empty() == out@);
    }
    out
}

/// Whether `a` comes before `b` or equals it in the order of strings:
/// character by character, a proper prefix first.
pub open spec fn lex_le(a: Seq<char>, b: Seq<char>) -> bool
    decreases a.len(),
{
    if a.len() == 0 {
        true
    } else if b.len() == 0 {
        false
    } else if a[0] != b[0] {
        a[0] < b[0]
    } else {
        lex_le(a.drop_first(), b.drop_first())
    }
}

/// Of two strings one comes before the other, or they are equal.
pub proof fn lemma_lex_total(a: Seq<char>, b: Seq<char>)
    ensures
        lex_le(a, b) || lex_le(b, a),
    decreases a.len(),
{
    if a.len() > 0 && b.len() > 0 && a[0] == b[0] {
        lemma_lex_total(a.drop_first(), b.drop_first());
    }
}

/// The order of strings is transitive.
pub proof fn lemma_lex_transitive(a: Seq<char>, b: Seq<char>, c: Seq<char>)
    requires
        lex_le(a, b),
        lex_le(b, c),
    ensures
        lex_le(a, c),
    decreases a.len(),
{
    if a.len() > 0 && b.len() > 0 && c.len() > 0 && a[0] == b[0] && b[0] == c[0] {
        lemma_lex_transitive(a.drop_first(), b.drop_first(), c.drop_first());
    }
}

/// Whether `a` comes before `b` or equals it in the order of strings.
pub fn string_le(a: &Vec<char>, b: &Vec<char>) -> (r: bool)
    ensures
        r == lex_le(a@, b@),
{
    let mut i: usize = 0;
    proof {
        assert(a@.skip(0) == a@);
        assert(b@.skip(0) == b@);
    }
    while i < a.len() && i < b.len()
        invariant
            i <= a.len(),
            i <= b.len(),
            lex_le(a@, b@) == lex_le(a@.skip(i as int), b@.skip(i as int)),
        decreases a.len() - i,
    {
        proof {
            assert(a@.skip(i as int).drop_first() == a@.skip(i + 1));
            assert(b@.skip(i as int).drop_first() == b@.skip(i + 1));
        }
        if a[i] != b[i] {
            return a[i] < b[i];
        }
        i += 1;
    }
    i >= a.len()
}

} // verus!
