//! The fuzzy filter of the launcher: how well a query matches a text, and
//! the ranked list of the applications that match.

use crate::launcher::desktop::{DesktopEntry, Frequency};
use crate::text::{
    contains, has_substring, lowercase_of, occurs_at, same_chars, starts_with, str_to_lowercase,
    to_chars,
};
use vstd::prelude::*;
use vstd::utf8::encode_utf8;

verus! {

/// The score of a text that equals the query.
pub const SCORE_EXACT: i32 = 1000;

/// The score of a text that holds the query as a contiguous run.
pub const SCORE_CONTAINS: i32 = 200;

/// How many rows of the filtered list are shown.
pub const MAX_VISIBLE: usize = 50;

/// The state of the walk along the text `t` after its first `k`
/// characters: how many characters of the query `q` are consumed, the
/// length of the current run of consecutive matches, and the score so far.
/// A text character that is the next query character extends the run and
/// adds ten times the run's new length; any other text character resets the
/// run.
pub open spec fn walk(q: Seq<char>, t: Seq<char>, k: int) -> (int, int, int)
    decreases k,
{
    if k <= 0 {
        (0, 0, 0)
    } else {
        let (consumed, run, score) = walk(q, t, k - 1);
        if consumed < q.len() && q[consumed] == t[k - 1] {
            (consumed + 1, run + 1, score + 10 * (run + 1))
        } else {
            (consumed, 0, score)
        }
    }
}

/// The score of `q` as a subsequence of `t`: that of the walk along the
/// whole text where it consumes the whole query, else none.
pub open spec fn subsequence_score(q: Seq<char>, t: Seq<char>) -> Option<int> {
    let (consumed, run, score) = walk(q, t, t.len() as int);
    if consumed >= q.len() {
        Some(score)
    } else {
        None
    }
}

/// The score of the folded query `q` against the folded text `t`: 1000
/// where they are equal; 600 less the query's length in bytes where the
/// text starts with the query; 200 where the text holds the query; else the
/// subsequence score.
pub open spec fn field_score(q: Seq<char>, t: Seq<char>) -> Option<int> {
    if t == q {
        Some(SCORE_EXACT as int)
    } else if q.is_prefix_of(t) {
        Some(600 - encode_utf8(q).len())
    } else if contains(t, q) {
        Some(SCORE_CONTAINS as int)
    } else {
        subsequence_score(q, t)
    }
}

/// `v` brought into the range of `i32`.
pub open spec fn saturate(v: int) -> int {
    if v > i32::MAX {
        i32::MAX as int
    } else if v < i32::MIN {
        i32::MIN as int
    } else {
        v
    }
}

/// `saturate` under an `Option`.
pub open spec fn saturated(v: Option<int>) -> Option<int> {
    match v {
        Some(s) => Some(saturate(s)),
        None => None,
    }
}

/// An optional `i32` as an optional integer.
pub open spec fn as_int(v: Option<i32>) -> Option<int> {
    match v {
        Some(s) => Some(s as int),
        None => None,
    }
}

/// The score of a query against a text: 0 for the empty query, else the
/// score of the lowercase query against the lowercase text, held within the
/// range of `i32`.
pub open spec fn fuzzy_score(query: Seq<char>, text: Seq<char>) -> Option<int> {
    if query.len() == 0 {
        Some(0)
    } else {
        saturated(field_score(lowercase_of(query), lowercase_of(text)))
    }
}

/// The walk never consumes more than the query or the text has, and its
/// score is bounded by the run.
pub proof fn lemma_walk_bounds(q: Seq<char>, t: Seq<char>, k: int)
    requires
        0 <= k,
    ensures
        0 <= walk(q, t, k).0 <= q.len(),
        walk(q, t, k).0 <= k,
        0 <= walk(q, t, k).1 <= walk(q, t, k).0,
        0 <= walk(q, t, k).2,
        walk(q, t, k).2 <= 5 * walk(q, t, k).0 * (walk(q, t, k).0 + 1),
    decreases k,
{
    if k > 0 {
        lemma_walk_bounds(q, t, k - 1);
        let (c, r, s) = walk(q, t, k - 1);
        if c < q.len() && q[c] == t[k - 1] {
            assert(s + 10 * (r + 1) <= 5 * (c + 1) * (c + 2)) by (nonlinear_arith)
                requires
                    0 <= r <= c,
                    s <= 5 * c * (c + 1),
            ;
        }
    }
}

/// A subsequence score is at most `5 * n * (n + 1)` for a query of `n`
/// characters: what one unbroken run of `n` matches gives.
pub proof fn lemma_subsequence_score_bound(q: Seq<char>, t: Seq<char>)
    requires
        subsequence_score(q, t) is Some,
    ensures
        0 <= subsequence_score(q, t).unwrap() <= 5 * q.len() * (q.len() + 1),
{
    lemma_walk_bounds(q, t, t.len() as int);
    let c = walk(q, t, t.len() as int).0;
    assert(c == q.len());
}

fn subsequence_match(q: &Vec<char>, t: &Vec<char>) -> (r: Option<i32>)
    ensures
        as_int(r) == saturated(subsequence_score(q@, t@)),
{
    let cap: u64 = 0x7fff_ffff;
    let mut consumed: usize = 0;
    let mut run: usize = 0;
    let mut score: u64 = 0;
    let mut k: usize = 0;
    while k < t.len()
        invariant
            k <= t.len(),
            cap == i32::MAX,
            consumed == walk(q@, t@, k as int).0,
            run == walk(q@, t@, k as int).1,
            score == saturate(walk(q@, t@, k as int).2),
            consumed <= q.len(),
            run <= k,
        decreases t.len() - k,
    {
        proof {
            lemma_walk_bounds(q@, t@, k as int);
            lemma_walk_bounds(q@, t@, k + 1);
        }
        if consumed < q.len() && q[consumed] == t[k] {
            consumed += 1;
            run += 1;
            let sum: u128 = score as u128 + 10 * (run as u128);
            score = if sum > cap as u128 {
                cap
            } else {
                sum as u64
            };
        } else {
            run = 0;
        }
        k += 1;
    }
    proof {
        lemma_walk_bounds(q@, t@, k as int);
    }
    if consumed >= q.len() {
        Some(score as i32)
    } else {
        None
    }
}

/// Scores a query against a text, both already folded to lower case.
pub fn field_match(q: &str, t: &str) -> (r: Option<i32>)
    ensures
        as_int(r) == saturated(field_score(q@, t@)),
{
    let qc = to_chars(q);
    let tc = to_chars(t);
    if same_chars(&tc, &qc) {
        return Some(SCORE_EXACT);
    }
    if starts_with(&tc, &qc) {
        let n: usize = q.as_bytes().len();
        let v: i128 = 600 - n as i128;
        return Some(
            if v < -0x8000_0000 {
                -0x8000_0000
            } else {
                v as i32
            },
        );
    }
    if has_substring(&tc, &qc) {
        return Some(SCORE_CONTAINS);
    }
    subsequence_match(&qc, &tc)
}

/// Scores `query` against `text`, ignoring case. The empty query scores 0
/// against every text. `None` means that the text does not match.
pub fn fuzzy_match(query: &str, text: &str) -> (r: Option<i32>)
    ensures
        as_int(r) == fuzzy_score(query@, text@),
{
    if query.is_empty() {
        return Some(0);
    }
    let q = str_to_lowercase(query);
    let t = str_to_lowercase(text);
    field_match(q.as_str(), t.as_str())
}

/// For one text, an exact match scores at least as much as a prefix
/// match, a prefix match of at most 400 bytes at least as much as a
/// contained query, and a contained query at least as much as a query that
/// matches as a subsequence only and scores no more than 200 there.
///
/// `exact` equals the text; `prefix` is a proper prefix of it; `inner`
/// stands in it, but not at its start; `scattered` is only a subsequence of
/// it.
pub proof fn lemma_score_order(
    t: Seq<char>,
    exact: Seq<char>,
    prefix: Seq<char>,
    inner: Seq<char>,
    scattered: Seq<char>,
)
    requires
        exact == t,
        prefix != t && prefix.is_prefix_of(t),
        inner != t && !inner.is_prefix_of(t) && contains(t, inner),
        scattered != t && !scattered.is_prefix_of(t) && !contains(t, scattered),
        subsequence_score(scattered, t) is Some,
        encode_utf8(prefix).len() <= 400,
        subsequence_score(scattered, t).unwrap() <= SCORE_CONTAINS,
    ensures
        field_score(exact, t) is Some,
        field_score(prefix, t) is Some,
        field_score(inner, t) is Some,
        field_score(scattered, t) is Some,
        field_score(exact, t).unwrap() >= field_score(prefix, t).unwrap(),
        field_score(prefix, t).unwrap() >= field_score(inner, t).unwrap(),
        field_score(inner, t).unwrap() >= field_score(scattered, t).unwrap(),
{
}

/// An exact match scores at least as much as any prefix match of the same
/// text, with no condition on the query.
pub proof fn lemma_exact_beats_prefix(t: Seq<char>, prefix: Seq<char>)
    requires
        prefix.is_prefix_of(t),
    ensures
        field_score(t, t) == Some(SCORE_EXACT as int),
        field_score(prefix, t) is Some,
        field_score(t, t).unwrap() >= field_score(prefix, t).unwrap(),
{
}

/// A prefix match of at most 400 bytes scores at least as much as a query
/// that the text holds elsewhere. A longer prefix scores less than 200.
pub proof fn lemma_prefix_beats_contains(t: Seq<char>, prefix: Seq<char>, inner: Seq<char>)
    requires
        prefix != t && prefix.is_prefix_of(t),
        inner != t && !inner.is_prefix_of(t) && contains(t, inner),
    ensures
        field_score(prefix, t) == Some(600 - encode_utf8(prefix).len()),
        field_score(inner, t) == Some(SCORE_CONTAINS as int),
        encode_utf8(prefix).len() <= 400 <==> field_score(prefix, t).unwrap() >= field_score(
            inner,
            t,
        ).unwrap(),
{
}

/// A query that the text holds scores at least as much as a query that
/// matches as a subsequence only, exactly where the latter scores no more
/// than 200.
pub proof fn lemma_contains_beats_subsequence(t: Seq<char>, inner: Seq<char>, scattered: Seq<char>)
    requires
        inner != t && !inner.is_prefix_of(t) && contains(t, inner),
        scattered != t && !scattered.is_prefix_of(t) && !contains(t, scattered),
        subsequence_score(scattered, t) is Some,
    ensures
        field_score(scattered, t) == subsequence_score(scattered, t),
        subsequence_score(scattered, t).unwrap() <= SCORE_CONTAINS <==> field_score(inner, t).unwrap()
            >= field_score(scattered, t).unwrap(),
{
}

/// The run that holds the last query character consumed among the first
/// `k` text characters: its length, and the place in the text where it
/// ends.
pub open spec fn last_run(q: Seq<char>, t: Seq<char>, k: int) -> (int, int)
    decreases k,
{
    if k <= 0 {
        (0, 0)
    } else {
        let (consumed, run, score) = walk(q, t, k - 1);
        let (len, end) = last_run(q, t, k - 1);
        if consumed < q.len() && q[consumed] == t[k - 1] {
            (
                if run == 0 {
                    1
                } else {
                    len + 1
                },
                k,
            )
        } else {
            (len, end)
        }
    }
}

/// The last run stands in the text as it stands in the query, and the
/// score is the smaller the more evenly the consumed characters are split
/// between that run and what came before it.
pub proof fn lemma_last_run(q: Seq<char>, t: Seq<char>, k: int)
    requires
        0 <= k <= t.len(),
    ensures
        ({
            let (consumed, run, score) = walk(q, t, k);
            let (len, end) = last_run(q, t, k);
            &&& 0 <= run <= len <= consumed <= q.len()
            &&& consumed > 0 ==> len >= 1
            &&& run > 0 ==> run == len && end == k
            &&& len <= end <= k
            &&& t.subrange(end - len, end) == q.subrange(consumed - len, consumed)
            &&& score <= 5 * consumed * (consumed + 1) - 10 * len * (consumed - len)
        }),
    decreases k,
{
    lemma_walk_bounds(q, t, k);
    if k > 0 {
        lemma_last_run(q, t, k - 1);
        lemma_walk_bounds(q, t, k - 1);
        let (c, run, score) = walk(q, t, k - 1);
        let (len, end) = last_run(q, t, k - 1);
        if c < q.len() && q[c] == t[k - 1] {
            if run == 0 {
                assert(t.subrange(k - 1, k) =~= q.subrange(c, c + 1));
                assert(score + 10 <= 5 * (c + 1) * (c + 2) - 10 * c) by (nonlinear_arith)
                    requires
                        score <= 5 * c * (c + 1) - 10 * len * (c - len),
                        0 <= len <= c,
                ;
            } else {
                assert(t.subrange(k - 1 - len, k) =~= t.subrange(end - len, end).push(t[k - 1]));
                assert(q.subrange(c - len, c + 1) =~= q.subrange(c - len, c).push(q[c]));
                assert(score + 10 * (len + 1) <= 5 * (c + 1) * (c + 2) - 10 * (len + 1) * (c
                    - len)) by (nonlinear_arith)
                    requires
                        score <= 5 * c * (c + 1) - 10 * len * (c - len),
                        0 <= len <= c,
                ;
            }
        }
    }
}

/// A query of `n` characters that matches as a subsequence only scores at
/// most `5 * n * (n + 1) - 10 * (n - 1)`: its characters stand in two runs
/// at least, and the best split is one character apart from the rest.
pub proof fn lemma_scattered_score_bound(q: Seq<char>, t: Seq<char>)
    requires
        !contains(t, q),
        subsequence_score(q, t) is Some,
    ensures
        q.len() >= 2,
        subsequence_score(q, t).unwrap() <= 5 * q.len() * (q.len() + 1) - 10 * (q.len() - 1),
{
    let k = t.len() as int;
    let n = q.len() as int;
    lemma_walk_bounds(q, t, k);
    lemma_last_run(q, t, k);
    let (consumed, run, score) = walk(q, t, k);
    let (len, end) = last_run(q, t, k);
    assert(consumed == n);
    if n == 0 {
        assert(t.subrange(0, 0) =~= q);
        assert(occurs_at(t, q, 0));
    }
    if len == n {
        assert(q.subrange(0, n) =~= q);
        assert(occurs_at(t, q, end - n));
    }
    assert(1 <= len <= n - 1);
    let split = len * (n - len);
    let whole = 5 * n * (n + 1);
    assert(score <= 5 * consumed * (consumed + 1) - 10 * len * (consumed - len));
    assert(score <= whole - 10 * split) by (nonlinear_arith)
        requires
            score <= 5 * consumed * (consumed + 1) - 10 * len * (consumed - len),
            consumed == n,
            whole == 5 * n * (n + 1),
            split == len * (n - len),
    ;
    assert(split >= n - 1) by (nonlinear_arith)
        requires
            1 <= len <= n - 1,
            split == len * (n - len),
    ;
    assert(whole == 5 * q.len() * (q.len() + 1)) by (nonlinear_arith)
        requires
            whole == 5 * n * (n + 1),
            n == q.len(),
    ;
}

/// A query of at most six characters that matches as a subsequence only
/// scores no more than a query that the text holds. Seven characters can
/// score more: six in a run and one apart give 220.
pub proof fn lemma_short_subsequence_below_contains(t: Seq<char>, q: Seq<char>)
    requires
        q.len() <= 6,
        !contains(t, q),
        subsequence_score(q, t) is Some,
    ensures
        subsequence_score(q, t).unwrap() <= SCORE_CONTAINS,
{
    lemma_scattered_score_bound(q, t);
    let n = q.len() as int;
    assert(5 * n * (n + 1) - 10 * (n - 1) <= 160) by (nonlinear_arith)
        requires
            2 <= n <= 6,
    ;
}

/// For queries of at most six characters the four kinds of match are in
/// order for every text: exact, then prefix, then contained, then scattered.
pub proof fn lemma_score_order_for_short_queries(
    t: Seq<char>,
    prefix: Seq<char>,
    inner: Seq<char>,
    scattered: Seq<char>,
)
    requires
        prefix != t && prefix.is_prefix_of(t),
        inner != t && !inner.is_prefix_of(t) && contains(t, inner),
        scattered != t && !scattered.is_prefix_of(t) && !contains(t, scattered),
        subsequence_score(scattered, t) is Some,
        encode_utf8(prefix).len() <= 400,
        scattered.len() <= 6,
    ensures
        field_score(t, t).unwrap() >= field_score(prefix, t).unwrap(),
        field_score(prefix, t).unwrap() >= field_score(inner, t).unwrap(),
        field_score(inner, t).unwrap() >= field_score(scattered, t).unwrap(),
{
    lemma_short_subsequence_below_contains(t, scattered);
    lemma_score_order(t, t, prefix, inner, scattered);
}

/// A query of at most 20 000 characters has its exact score: holding the
/// score within `i32` changes nothing there, provided that it is at most
/// `i32::MAX` bytes long.
pub proof fn lemma_score_exact_for_short_queries(q: Seq<char>, t: Seq<char>)
    requires
        q.len() <= 20_000,
        encode_utf8(q).len() <= 0x7fff_ffff,
    ensures
        saturated(field_score(q, t)) == field_score(q, t),
{
    if field_score(q, t) is Some && subsequence_score(q, t) is Some {
        lemma_subsequence_score_bound(q, t);
        let n = q.len() as int;
        assert(5 * n * (n + 1) <= 2_000_100_000) by (nonlinear_arith)
            requires
                0 <= n <= 20_000,
        ;
    }
}

/// Half of a score, rounded towards zero.
pub open spec fn halved(s: int) -> int {
    if s >= 0 {
        s / 2
    } else {
        -((-s) / 2)
    }
}

/// The better of two optional scores; a score is better than none.
pub open spec fn best_of(a: Option<int>, b: Option<int>) -> Option<int> {
    match (a, b) {
        (Some(x), Some(y)) => if x >= y {
            Some(x)
        } else {
            Some(y)
        },
        (Some(x), None) => Some(x),
        (None, Some(y)) => Some(y),
        (None, None) => None,
    }
}

/// The key by which an application is ranked for a query: the better of
/// the score of its name and half the score of its description, plus 50 for
/// each launch counted. `None` where neither field matches.
pub open spec fn rank_key(
    query: Seq<char>,
    name: Seq<char>,
    description: Seq<char>,
    launches: nat,
) -> Option<int> {
    let by_name = fuzzy_score(query, name);
    let by_description = match fuzzy_score(query, description) {
        Some(s) => Some(halved(s)),
        None => None,
    };
    match best_of(by_name, by_description) {
        Some(s) => Some(s + 50 * launches),
        None => None,
    }
}

/// The rank key of each of `entries` for `query`.
pub open spec fn rank_keys(entries: Seq<DesktopEntry>, query: Seq<char>, freq: Frequency) -> Seq<
    Option<int>,
> {
    Seq::new(
        entries.len(),
        |i: int|
            rank_key(
                query,
                entries[i].name@,
                entries[i].description@,
                freq.count_of(entries[i].name@),
            ),
    )
}

/// How many of the candidates at the front of `order` have a key of at
/// least `k`: the place where a candidate with the key `k` goes, behind all
/// that rank as high.
pub open spec fn insertion_point(order: Seq<int>, keys: Seq<Option<int>>, k: int) -> int
    decreases order.len(),
{
    if order.len() > 0 && keys[order[0]] is Some && keys[order[0]].unwrap() >= k {
        1 + insertion_point(order.drop_first(), keys, k)
    } else {
        0
    }
}

/// The ranking of the first `n` candidates: the indices of those with a
/// key, by descending key, candidates with equal keys in the order in which
/// they were given. Built by placing each candidate in turn behind all that
/// rank as high.
pub open spec fn ranked_prefix(keys: Seq<Option<int>>, n: int) -> Seq<int>
    decreases n,
{
    if n <= 0 {
        Seq::empty()
    } else {
        let rest = ranked_prefix(keys, n - 1);
        match keys[n - 1] {
            None => rest,
            Some(k) => rest.insert(insertion_point(rest, keys, k), n - 1),
        }
    }
}

/// The ranking of all candidates.
pub open spec fn ranking(keys: Seq<Option<int>>) -> Seq<int> {
    ranked_prefix(keys, keys.len() as int)
}

/// Whether candidate `x` ranks before candidate `y`: by the greater key,
/// and with equal keys by the smaller index.
pub open spec fn precedes(keys: Seq<Option<int>>, x: int, y: int) -> bool {
    ||| keys[x].unwrap() > keys[y].unwrap()
    ||| keys[x].unwrap() == keys[y].unwrap() && x < y
}

/// Whether `order` ranks the first `n` candidates: it holds exactly the
/// indices below `n` that have a key, and of two places the earlier one
/// holds the candidate that ranks before the other.
pub open spec fn is_stable_ranking(keys: Seq<Option<int>>, n: int, order: Seq<int>) -> bool {
    &&& forall|j: int|
        0 <= j < order.len() ==> 0 <= #[trigger] order[j] < n && keys[order[j]] is Some
    &&& forall|i: int| 0 <= i < n && (#[trigger] keys[i]) is Some ==> order.contains(i)
    &&& forall|a: int, b: int|
        0 <= a < b < order.len() ==> #[trigger] precedes(keys, order[a], order[b])
}

/// What `insertion_point` returns: every candidate before it has a key of
/// at least `k`, and the candidate at it, if there is one, has not.
pub proof fn lemma_insertion_point(order: Seq<int>, keys: Seq<Option<int>>, k: int)
    ensures
        0 <= insertion_point(order, keys, k) <= order.len(),
        forall|j: int|
            0 <= j < insertion_point(order, keys, k) ==> keys[#[trigger] order[j]] is Some
                && keys[order[j]].unwrap() >= k,
        insertion_point(order, keys, k) < order.len() ==> !(keys[order[insertion_point(
            order,
            keys,
            k,
        )]] is Some && keys[order[insertion_point(order, keys, k)]].unwrap() >= k),
    decreases order.len(),
{
    if order.len() > 0 && keys[order[0]] is Some && keys[order[0]].unwrap() >= k {
        let t = order.drop_first();
        lemma_insertion_point(t, keys, k);
        assert forall|j: int| 0 <= j < insertion_point(order, keys, k) implies keys[
        #[trigger] order[j]] is Some && keys[order[j]].unwrap() >= k by {
            if j > 0 {
                assert(order[j] == t[j - 1]);
            }
        }
    }
}

/// A place with only keys of at least `k` before it, and a smaller key or
/// the end at it, is the insertion point.
pub proof fn lemma_insertion_point_is(order: Seq<int>, keys: Seq<Option<int>>, k: int, p: int)
    requires
        0 <= p <= order.len(),
        forall|j: int|
            0 <= j < p ==> keys[#[trigger] order[j]] is Some && keys[order[j]].unwrap() >= k,
        p < order.len() ==> !(keys[order[p]] is Some && keys[order[p]].unwrap() >= k),
    ensures
        insertion_point(order, keys, k) == p,
{
    lemma_insertion_point(order, keys, k);
    let ip = insertion_point(order, keys, k);
    if ip < p {
        assert(keys[order[ip]] is Some && keys[order[ip]].unwrap() >= k);
    }
    if p < ip {
        assert(keys[order[p]] is Some && keys[order[p]].unwrap() >= k);
    }
}

/// Placing candidate `n - 1` at its insertion point in a ranking of the
/// candidates before it gives a ranking of the first `n` candidates.
pub proof fn lemma_insert_keeps_ranking(keys: Seq<Option<int>>, n: int, rest: Seq<int>, k: int)
    requires
        0 < n <= keys.len(),
        keys[n - 1] == Some(k),
        is_stable_ranking(keys, n - 1, rest),
    ensures
        is_stable_ranking(keys, n, rest.insert(insertion_point(rest, keys, k), n - 1)),
{
    let p = insertion_point(rest, keys, k);
    lemma_insertion_point(rest, keys, k);
    let order = rest.insert(p, n - 1);
    assert forall|j: int| 0 <= j < order.len() implies 0 <= #[trigger] order[j] < n
        && keys[order[j]] is Some by {
        if j < p {
            assert(order[j] == rest[j]);
        } else if j > p {
            assert(order[j] == rest[j - 1]);
        }
    }
    assert forall|i: int| 0 <= i < n && (#[trigger] keys[i]) is Some implies order.contains(
        i,
    ) by {
        if i == n - 1 {
            assert(order[p] == i);
        } else {
            assert(rest.contains(i));
            let j = choose|j: int| 0 <= j < rest.len() && rest[j] == i;
            if j < p {
                assert(order[j] == i);
            } else {
                assert(order[j + 1] == i);
            }
        }
    }
    assert forall|a: int, b: int| 0 <= a < b < order.len() implies #[trigger] precedes(
        keys,
        order[a],
        order[b],
    ) by {
        if b < p {
            assert(precedes(keys, rest[a], rest[b]));
        } else if b == p {
            assert(order[a] == rest[a]);
            assert(0 <= rest[a] < n - 1);
        } else if a == p {
            assert(order[b] == rest[b - 1]);
            if p < b - 1 {
                assert(precedes(keys, rest[p], rest[b - 1]));
            }
        } else if a < p {
            assert(precedes(keys, rest[a], rest[b - 1]));
        } else {
            assert(precedes(keys, rest[a - 1], rest[b - 1]));
        }
    }
}

/// The ranking is by descending key, keeps candidates with equal keys in
/// the order given, and holds each candidate that has a key exactly
/// once and no other.
pub proof fn lemma_ranked_prefix(keys: Seq<Option<int>>, n: int)
    requires
        0 <= n <= keys.len(),
    ensures
        is_stable_ranking(keys, n, ranked_prefix(keys, n)),
    decreases n,
{
    if n > 0 {
        lemma_ranked_prefix(keys, n - 1);
        let rest = ranked_prefix(keys, n - 1);
        match keys[n - 1] {
            None => {
                assert forall|i: int| 0 <= i < n && (#[trigger] keys[i]) is Some implies
                    rest.contains(i) by {
                    assert(i < n - 1);
                }
            },
            Some(k) => {
                lemma_insert_keeps_ranking(keys, n, rest, k);
            },
        }
    }
}

/// Whether each place of `order` holds a candidate that ranks before
/// those at all later places.
pub open spec fn in_rank_order(keys: Seq<Option<int>>, order: Seq<int>) -> bool {
    forall|a: int, b: int|
        0 <= a < b < order.len() ==> #[trigger] precedes(keys, order[a], order[b])
}

/// Two lists in rank order that hold the same candidates are the same
/// list.
pub proof fn lemma_rank_order_unique(keys: Seq<Option<int>>, x: Seq<int>, y: Seq<int>)
    requires
        in_rank_order(keys, x),
        in_rank_order(keys, y),
        forall|i: int| x.contains(i) <==> y.contains(i),
    ensures
        x == y,
    decreases x.len(),
{
    if x.len() == 0 {
        if y.len() > 0 {
            assert(y.contains(y[0]));
            assert(x.contains(y[0]));
        }
        assert(x =~= y);
    } else {
        assert(x.contains(x[0]));
        assert(y.contains(x[0]));
        assert(y.contains(y[0]));
        assert(x.contains(y[0]));
        let a = choose|a: int| 0 <= a < y.len() && y[a] == x[0];
        let b = choose|b: int| 0 <= b < x.len() && x[b] == y[0];
        if a > 0 {
            assert(precedes(keys, y[0], y[a]));
            if b > 0 {
                assert(precedes(keys, x[0], x[b]));
            }
        }
        assert(x[0] == y[0]);
        let xt = x.drop_first();
        let yt = y.drop_first();
        assert forall|c: int, d: int| 0 <= c < d < xt.len() implies #[trigger] precedes(
            keys,
            xt[c],
            xt[d],
        ) by {
            assert(precedes(keys, x[c + 1], x[d + 1]));
        }
        assert forall|c: int, d: int| 0 <= c < d < yt.len() implies #[trigger] precedes(
            keys,
            yt[c],
            yt[d],
        ) by {
            assert(precedes(keys, y[c + 1], y[d + 1]));
        }
        assert forall|i: int| xt.contains(i) <==> yt.contains(i) by {
            if xt.contains(i) {
                let c = choose|c: int| 0 <= c < xt.len() && xt[c] == i;
                assert(x[c + 1] == i);
                assert(precedes(keys, x[0], x[c + 1]));
                assert(x.contains(i));
                let d = choose|d: int| 0 <= d < y.len() && y[d] == i;
                assert(d > 0);
                assert(yt[d - 1] == i);
            }
            if yt.contains(i) {
                let c = choose|c: int| 0 <= c < yt.len() && yt[c] == i;
                assert(y[c + 1] == i);
                assert(precedes(keys, y[0], y[c + 1]));
                assert(y.contains(i));
                let d = choose|d: int| 0 <= d < x.len() && x[d] == i;
                assert(d > 0);
                assert(xt[d - 1] == i);
            }
        }
        lemma_rank_order_unique(keys, xt, yt);
        assert(x =~= seq![x[0]] + xt);
        assert(y =~= seq![y[0]] + yt);
    }
}

/// There is one stable ranking only: a list that holds exactly the
/// candidates with a key, by descending key and with equal keys in their
/// order given, is the ranking.
pub proof fn lemma_ranking_unique(keys: Seq<Option<int>>, order: Seq<int>)
    requires
        is_stable_ranking(keys, keys.len() as int, order),
    ensures
        order == ranking(keys),
{
    let n = keys.len() as int;
    let r = ranking(keys);
    lemma_ranked_prefix(keys, n);
    assert forall|i: int| order.contains(i) <==> r.contains(i) by {
        if order.contains(i) {
            let j = choose|j: int| 0 <= j < order.len() && order[j] == i;
            assert(0 <= order[j] < n && keys[order[j]] is Some);
            assert(keys[i] is Some);
        }
        if r.contains(i) {
            let j = choose|j: int| 0 <= j < r.len() && r[j] == i;
            assert(0 <= r[j] < n && keys[r[j]] is Some);
            assert(keys[i] is Some);
        }
    }
    lemma_rank_order_unique(keys, order, r);
}

/// The ranking of all candidates is by descending key, stable, and holds
/// exactly the candidates that have a key.
pub proof fn lemma_ranking(keys: Seq<Option<int>>)
    ensures
        is_stable_ranking(keys, keys.len() as int, ranking(keys)),
{
    lemma_ranked_prefix(keys, keys.len() as int);
}

/// The list that the filter gives: every application, in the order given,
/// for the empty query; else the applications that match, ranked.
pub open spec fn filtered(entries: Seq<DesktopEntry>, query: Seq<char>, freq: Frequency) -> Seq<
    DesktopEntry,
> {
    if query.len() == 0 {
        entries
    } else {
        ranking(rank_keys(entries, query, freq)).map_values(|i: int| entries[i])
    }
}

/// The application at row `idx` of the filtered list, if the list has
/// that row.
pub open spec fn resolved(
    entries: Seq<DesktopEntry>,
    query: Seq<char>,
    freq: Frequency,
    idx: int,
) -> Option<DesktopEntry> {
    let list = filtered(entries, query, freq);
    if 0 <= idx < list.len() {
        Some(list[idx])
    } else {
        None
    }
}

/// The rows that are shown: the first 50 of the filtered list.
pub open spec fn visible(entries: Seq<DesktopEntry>, query: Seq<char>, freq: Frequency) -> Seq<
    DesktopEntry,
> {
    let list = filtered(entries, query, freq);
    if list.len() > MAX_VISIBLE {
        list.take(MAX_VISIBLE as int)
    } else {
        list
    }
}

fn entry_key(query: &str, entry: &DesktopEntry, freq: &Frequency) -> (r: Option<i64>)
    ensures
        match r {
            Some(k) => rank_key(query@, entry.name@, entry.description@, freq.count_of(entry.name@))
                == Some(k as int),
            None => rank_key(query@, entry.name@, entry.description@, freq.count_of(entry.name@))
                is None,
        },
{
    let by_name = fuzzy_match(query, entry.name.as_str());
    let by_description = match fuzzy_match(query, entry.description.as_str()) {
        Some(s) => {
            let wide: i64 = s as i64;
            let half: i64 = if wide >= 0 {
                wide / 2
            } else {
                -((-wide) / 2)
            };
            Some(half)
        },
        None => None,
    };
    let best: Option<i64> = match (by_name, by_description) {
        (Some(x), Some(y)) => if x as i64 >= y {
            Some(x as i64)
        } else {
            Some(y)
        },
        (Some(x), None) => Some(x as i64),
        (None, Some(y)) => Some(y),
        (None, None) => None,
    };
    match best {
        Some(s) => {
            let launches: i64 = freq.get(entry.name.as_str()) as i64;
            Some(s + 50 * launches)
        },
        None => None,
    }
}

/// The places as integers.
pub open spec fn indices(order: Seq<usize>) -> Seq<int> {
    order.map_values(|i: usize| i as int)
}

/// Ranks the applications for a query that is not empty: the indices of
/// those that match, by descending key, ties in the order given.
fn rank(entries: &[DesktopEntry], query: &str, freq: &Frequency) -> (order: Vec<usize>)
    ensures
        indices(order@) == ranking(rank_keys(entries@, query@, *freq)),
        forall|j: int| 0 <= j < order.len() ==> order@[j] < entries.len(),
{
    let ghost keys = rank_keys(entries@, query@, *freq);
    let mut order: Vec<usize> = Vec::new();
    let mut placed: Vec<i64> = Vec::new();
    let mut i: usize = 0;
    while i < entries.len()
        invariant
            i <= entries.len(),
            keys == rank_keys(entries@, query@, *freq),
            keys.len() == entries.len(),
            indices(order@) == ranked_prefix(keys, i as int),
            placed.len() == order.len(),
            forall|j: int| 0 <= j < order.len() ==> order@[j] < i,
            forall|j: int|
                0 <= j < order.len() ==> keys[order@[j] as int] == Some(
                    (#[trigger] placed@[j]) as int,
                ),
        decreases entries.len() - i,
    {
        let key = entry_key(query, &entries[i], freq);
        match key {
            Some(k) => {
                let mut p: usize = 0;
                while p < placed.len() && placed[p] >= k
                    invariant
                        p <= placed.len(),
                        forall|j: int| 0 <= j < p ==> (#[trigger] placed@[j]) >= k,
                    decreases placed.len() - p,
                {
                    p += 1;
                }
                proof {
                    let rest = indices(order@);
                    assert forall|j: int| 0 <= j < p implies keys[#[trigger] rest[j]] is Some
                        && keys[rest[j]].unwrap() >= k by {
                        assert(placed@[j] >= k);
                    }
                    if p < rest.len() {
                        assert(keys[rest[p as int]] == Some(placed@[p as int] as int));
                    }
                    lemma_insertion_point_is(rest, keys, k as int, p as int);
                    assert(indices(order@.insert(p as int, i)) == rest.insert(p as int, i as int));
                }
                order.insert(p, i);
                placed.insert(p, k);
            },
            None => {},
        }
        i += 1;
    }
    order
}

/// Filters and ranks the applications for a query. The empty query gives
/// every application, in the order given, whatever was launched how often.
/// Any other query gives the applications whose name or description matches
/// it, by descending rank key, those with equal keys in the order given.
pub fn filter_entries(entries: &[DesktopEntry], query: &str, freq: &Frequency) -> (r: Vec<
    DesktopEntry,
>)
    ensures
        r@ == filtered(entries@, query@, *freq),
{
    let mut out: Vec<DesktopEntry> = Vec::new();
    if query.is_empty() {
        let mut i: usize = 0;
        while i < entries.len()
            invariant
                i <= entries.len(),
                out@ == entries@.take(i as int),
            decreases entries.len() - i,
        {
            out.push(entries[i].duplicate());
            i += 1;
        }
        assert(entries@.take(entries.len() as int) == entries@);
        return out;
    }
    let order = rank(entries, query, freq);
    let ghost list = filtered(entries@, query@, *freq);
    let mut j: usize = 0;
    while j < order.len()
        invariant
            j <= order.len(),
            list == indices(order@).map_values(|i: int| entries@[i]),
            forall|k: int| 0 <= k < order.len() ==> order@[k] < entries.len(),
            out@ == list.take(j as int),
        decreases order.len() - j,
    {
        out.push(entries[order[j]].duplicate());
        j += 1;
    }
    assert(list.take(order.len() as int) == list);
    out
}

/// The application at row `idx` of the filtered list for `query`, if the
/// list has that row.
pub fn get_filtered_entry(entries: &[DesktopEntry], query: &str, idx: usize, freq: &Frequency) -> (r:
    Option<DesktopEntry>)
    ensures
        r == resolved(entries@, query@, *freq, idx as int),
{
    let list = filter_entries(entries, query, freq);
    if idx < list.len() {
        Some(list[idx].duplicate())
    } else {
        None
    }
}

/// The rows to show for a query: the first 50 of the filtered list.
pub fn visible_entries(entries: &[DesktopEntry], query: &str, freq: &Frequency) -> (r: Vec<
    DesktopEntry,
>)
    ensures
        r@ == visible(entries@, query@, *freq),
{
    let mut list = filter_entries(entries, query, freq);
    if list.len() > MAX_VISIBLE {
        list.truncate(MAX_VISIBLE);
        assert(list@ == filtered(entries@, query@, *freq).take(MAX_VISIBLE as int));
    }
    list
}

/// With the empty query the filter returns the applications as given,
/// whatever the usage counters hold.
pub proof fn lemma_empty_query_keeps_all(
    entries: Seq<DesktopEntry>,
    query: Seq<char>,
    freq: Frequency,
    other: Frequency,
)
    requires
        query.len() == 0,
    ensures
        filtered(entries, query, freq) == entries,
        filtered(entries, query, freq) == filtered(entries, query, other),
{
}

/// Resolving a row gives the application that stands at that row of the
/// filtered list, for every row of the list, and nothing beyond its end.
pub proof fn lemma_resolve_round_trip(
    entries: Seq<DesktopEntry>,
    query: Seq<char>,
    freq: Frequency,
    idx: int,
)
    ensures
        0 <= idx < filtered(entries, query, freq).len() ==> resolved(entries, query, freq, idx)
            == Some(filtered(entries, query, freq)[idx]),
        idx >= filtered(entries, query, freq).len() ==> resolved(entries, query, freq, idx)
            is None,
{
}

/// Every row of the filtered list is one of the applications given, and
/// for a query that is not empty it is one that matches.
pub proof fn lemma_filtered_rows(
    entries: Seq<DesktopEntry>,
    query: Seq<char>,
    freq: Frequency,
    row: int,
)
    requires
        query.len() > 0,
        0 <= row < filtered(entries, query, freq).len(),
    ensures
        ({
            let keys = rank_keys(entries, query, freq);
            let i = ranking(keys)[row];
            &&& 0 <= i < entries.len()
            &&& filtered(entries, query, freq)[row] == entries[i]
            &&& keys[i] is Some
        }),
{
    lemma_ranking(rank_keys(entries, query, freq));
}

} // verus!
