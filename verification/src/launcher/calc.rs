//! The calculator of the launcher: a query that starts with `=` is
//! arithmetic. Evaluating it is the work of the program `bc`; here are the
//! text that goes to it and the reading of what comes back.

use crate::launcher::desktop::{DesktopEntry, Frequency};
use crate::launcher::search::{
    filter_entries, filtered, get_filtered_entry, resolved, visible, visible_entries,
};
use crate::text::{
    append_chars, ascii_digit, decimal_digits, digits_of, from_chars, is_ascii_digit,
    lowercase_of, lowered_chars, slice_of, to_chars, trim, trimmed,
};
use vstd::prelude::*;

verus! {

/// `s` without every `c` at its front.
pub open spec fn strip_start_char(s: Seq<char>, c: char) -> Seq<char>
    decreases s.len(),
{
    if s.len() > 0 && s[0] == c {
        strip_start_char(s.drop_first(), c)
    } else {
        s
    }
}

/// `s` without every `c` at its end.
pub open spec fn strip_end_char(s: Seq<char>, c: char) -> Seq<char>
    decreases s.len(),
{
    if s.len() > 0 && s.last() == c {
        strip_end_char(s.drop_last(), c)
    } else {
        s
    }
}

/// Skipping `n` characters `c` at the front leaves what is stripped
/// unchanged.
proof fn lemma_strip_start(s: Seq<char>, c: char, n: int)
    requires
        0 <= n <= s.len(),
        forall|k: int| 0 <= k < n ==> #[trigger] s[k] == c,
    ensures
        strip_start_char(s, c) == strip_start_char(s.skip(n), c),
    decreases n,
{
    if n == 0 {
        assert(s.skip(0) == s);
    } else {
        assert(s.drop_first().skip(n - 1) == s.skip(n));
        lemma_strip_start(s.drop_first(), c, n - 1);
    }
}

/// Dropping characters `c` at the end, down to length `n`, leaves what is
/// stripped unchanged.
proof fn lemma_strip_end(s: Seq<char>, c: char, n: int)
    requires
        0 <= n <= s.len(),
        forall|k: int| n <= k < s.len() ==> #[trigger] s[k] == c,
    ensures
        strip_end_char(s, c) == strip_end_char(s.take(n), c),
    decreases s.len() - n,
{
    if n == s.len() {
        assert(s.take(n) == s);
    } else {
        assert(s.drop_last().take(n) == s.take(n));
        lemma_strip_end(s.drop_last(), c, n);
    }
}

fn without_leading(s: &Vec<char>, c: char) -> (r: Vec<char>)
    ensures
        r@ == strip_start_char(s@, c),
{
    let mut start: usize = 0;
    while start < s.len() && s[start] == c
        invariant
            start <= s.len(),
            forall|k: int| 0 <= k < start ==> #[trigger] s@[k] == c,
        decreases s.len() - start,
    {
        start += 1;
    }
    proof {
        lemma_strip_start(s@, c, start as int);
        let rest = s@.skip(start as int);
        assert(strip_start_char(rest, c) == rest);
        assert(rest == s@.subrange(start as int, s.len() as int));
    }
    slice_of(s, start, s.len())
}

fn without_trailing(s: &Vec<char>, c: char) -> (r: Vec<char>)
    ensures
        r@ == strip_end_char(s@, c),
{
    let mut end: usize = s.len();
    while end > 0 && s[end - 1] == c
        invariant
            end <= s.len(),
            forall|k: int| end <= k < s.len() ==> #[trigger] s@[k] == c,
        decreases end,
    {
        end -= 1;
    }
    proof {
        lemma_strip_end(s@, c, end as int);
        let rest = s@.take(end as int);
        if rest.len() > 0 {
            assert(rest.last() == s@[end - 1]);
        }
        assert(strip_end_char(rest, c) == rest);
        assert(rest == s@.subrange(0, end as int));
    }
    slice_of(s, 0, end)
}

/// The characters of arithmetic: digits, the operators `+ - * / ^`, the
/// point, parentheses and the space.
pub open spec fn is_calc_char(c: char) -> bool {
    ||| is_ascii_digit(c)
    ||| c == '+'
    ||| c == '-'
    ||| c == '*'
    ||| c == '/'
    ||| c == '.'
    ||| c == '^'
    ||| c == '('
    ||| c == ')'
    ||| c == ' '
}

/// The expression in `expr`: trimmed, without `=` at either end, in lower
/// case.
pub open spec fn expression_of(expr: Seq<char>) -> Seq<char> {
    lowercase_of(strip_end_char(strip_start_char(trim(expr), '='), '='))
}

/// Whether `e` is arithmetic: not empty, and made of the characters of
/// arithmetic only.
pub open spec fn is_arithmetic(e: Seq<char>) -> bool {
    e.len() > 0 && forall|i: int| 0 <= i < e.len() ==> is_calc_char(#[trigger] e[i])
}

/// What is sent to the evaluator for `expr`: the expression, at a scale of
/// four decimal places, on one line. `None` where the expression is empty or
/// holds anything but arithmetic.
pub open spec fn calc_text(expr: Seq<char>) -> Option<Seq<char>> {
    let e = expression_of(expr);
    if is_arithmetic(e) {
        Some("scale=4; "@ + e + seq!['\n'])
    } else {
        None
    }
}

/// Whether `e` is arithmetic.
pub fn arithmetic(e: &Vec<char>) -> (r: bool)
    ensures
        r == is_arithmetic(e@),
{
    if e.len() == 0 {
        return false;
    }
    let mut i: usize = 0;
    while i < e.len()
        invariant
            i <= e.len(),
            forall|k: int| 0 <= k < i ==> is_calc_char(#[trigger] e@[k]),
        decreases e.len() - i,
    {
        let c = e[i];
        let ok = ascii_digit(c) || c == '+' || c == '-' || c == '*' || c == '/' || c == '.' || c
            == '^' || c == '(' || c == ')' || c == ' ';
        if !ok {
            assert(!is_calc_char(e@[i as int]));
            return false;
        }
        i += 1;
    }
    true
}

/// The text to send to the evaluator for an expression, if it is
/// arithmetic.
pub fn calc_input(expr: &str) -> (r: Option<String>)
    ensures
        match r {
            Some(s) => calc_text(expr@) == Some(s@),
            None => calc_text(expr@) is None,
        },
{
    let t = trimmed(&to_chars(expr));
    let e = lowered_chars(&without_trailing(&without_leading(&t, '='), '='));
    if !arithmetic(&e) {
        return None;
    }
    let mut out = to_chars("scale=4; ");
    append_chars(&mut out, &e);
    out.push('\n');
    Some(from_chars(&out))
}

/// The result as it is shown, from what the evaluator printed: trimmed,
/// and, where it has a point, without zeros at its end and without a point
/// left at its end; `0` where nothing or only a minus sign is left.
pub open spec fn tidy(output: Seq<char>) -> Seq<char> {
    let res = trim(output);
    if res.contains('.') {
        let c = strip_end_char(strip_end_char(res, '0'), '.');
        if c.len() == 0 || c == seq!['-'] {
            seq!['0']
        } else {
            c
        }
    } else {
        res
    }
}

/// Reads what the evaluator printed.
pub fn calc_result(output: &str) -> (r: String)
    ensures
        r@ == tidy(output@),
{
    let res = trimmed(&to_chars(output));
    let mut has_point = false;
    let mut i: usize = 0;
    while i < res.len()
        invariant
            i <= res.len(),
            res@ == trim(output@),
            has_point == exists|k: int| 0 <= k < i && #[trigger] res@[k] == '.',
        decreases res.len() - i,
    {
        if res[i] == '.' {
            has_point = true;
        }
        i += 1;
    }
    proof {
        if has_point {
            let k = choose|k: int| 0 <= k < res.len() && #[trigger] res@[k] == '.';
            assert(res@.contains('.'));
        }
        if res@.contains('.') {
            let k = choose|k: int| 0 <= k < res@.len() && res@[k] == '.';
            assert(res@[k] == '.');
        }
    }
    if has_point {
        let c = without_trailing(&without_trailing(&res, '0'), '.');
        if c.len() == 0 || (c.len() == 1 && c[0] == '-') {
            let mut zero: Vec<char> = Vec::new();
            zero.push('0');
            proof {
                if c.len() == 1 {
                    assert(c@ =~= seq!['-']);
                }
                assert(zero@ =~= seq!['0']);
            }
            from_chars(&zero)
        } else {
            assert(c@ != seq!['-']) by {
                if c@ == seq!['-'] {
                    assert(c@.len() == 1 && c@[0] == '-');
                }
            }
            from_chars(&c)
        }
    } else {
        from_chars(&res)
    }
}

/// The expression of a query for the calculator: what follows the leading
/// `=`, where the calculator is enabled and something follows.
pub open spec fn calc_query(query: Seq<char>, enabled: bool) -> Option<Seq<char>> {
    if enabled && query.len() > 1 && query[0] == '=' {
        Some(query.skip(1))
    } else {
        None
    }
}

/// The expression to evaluate for a query, if the query is one for the
/// calculator. Where the evaluation gives nothing, the query goes to the
/// filter as it stands, `=` included.
pub fn calc_expression(query: &str, enabled: bool) -> (r: Option<String>)
    ensures
        match r {
            Some(s) => calc_query(query@, enabled) == Some(s@),
            None => calc_query(query@, enabled) is None,
        },
{
    let q = to_chars(query);
    if enabled && q.len() > 1 && q[0] == '=' {
        let e = slice_of(&q, 1, q.len());
        assert(q@.subrange(1, q.len() as int) == q@.skip(1));
        Some(from_chars(&e))
    } else {
        None
    }
}

/// The text of the status bar: `Calculator` for a query that starts with
/// `=`, else the number of applications found.
pub open spec fn status_text(query: Seq<char>, count: nat) -> Seq<char> {
    if query.len() > 0 && query[0] == '=' {
        "Calculator"@
    } else {
        digits_of(count) + " apps"@
    }
}

/// The text of the status bar.
pub fn status_line(query: &str, count: usize) -> (r: String)
    ensures
        r@ == status_text(query@, count as nat),
{
    let q = to_chars(query);
    if q.len() > 0 && q[0] == '=' {
        from_chars(&to_chars("Calculator"))
    } else {
        let mut out = decimal_digits(count as u64);
        append_chars(&mut out, &to_chars(" apps"));
        from_chars(&out)
    }
}

/// What the list shows for a query.
#[derive(Clone, Debug)]
pub enum Listing {
    /// One row with the result of the calculation.
    Calculation { expression: String, result: String },
    /// The rows of the applications found, and how many were found in all.
    Applications { rows: Vec<DesktopEntry>, found: usize },
}

/// What selecting a row does.
#[derive(Clone, Debug)]
pub enum Activation {
    /// Copy the result of the calculation to the clipboard.
    CopyResult { result: String },
    /// Launch the application.
    Launch { entry: DesktopEntry },
    /// The list has no such row.
    Nothing,
}

/// Whether the query is answered by the calculator: it is a query for the
/// calculator, and the evaluation gave a result.
pub open spec fn calculated(query: Seq<char>, enabled: bool, evaluated: Option<Seq<char>>) -> bool {
    calc_query(query, enabled) is Some && evaluated is Some
}

/// The view of an optional string.
pub open spec fn text_of(s: Option<String>) -> Option<Seq<char>> {
    match s {
        Some(t) => Some(t@),
        None => None,
    }
}

/// Decides what the list shows. `evaluated` is what the evaluation of the
/// query's expression gave, if the query has one and the evaluation
/// succeeded. A query for the calculator with a result shows the result
/// alone; any other query, and one whose evaluation failed, goes to the
/// filter as it stands.
pub fn list_for(
    entries: &[DesktopEntry],
    query: &str,
    freq: &Frequency,
    enabled: bool,
    evaluated: Option<String>,
) -> (r: Listing)
    ensures
        match r {
            Listing::Calculation { expression, result } => {
                &&& calculated(query@, enabled, text_of(evaluated))
                &&& calc_query(query@, enabled) == Some(expression@)
                &&& evaluated == Some(result)
            },
            Listing::Applications { rows, found } => {
                &&& !calculated(query@, enabled, text_of(evaluated))
                &&& rows@ == visible(entries@, query@, *freq)
                &&& found == filtered(entries@, query@, *freq).len()
            },
        },
{
    match calc_expression(query, enabled) {
        Some(expression) => {
            match evaluated {
                Some(result) => {
                    return Listing::Calculation { expression, result };
                },
                None => {},
            }
        },
        None => {},
    }
    let found = filter_entries(entries, query, freq).len();
    let rows = visible_entries(entries, query, freq);
    Listing::Applications { rows, found }
}

/// Decides what selecting row `row` does: with a result of the calculator
/// the result is copied; else the application at that row of the filtered
/// list is launched, if there is one.
pub fn activation_for(
    entries: &[DesktopEntry],
    query: &str,
    row: usize,
    freq: &Frequency,
    enabled: bool,
    evaluated: Option<String>,
) -> (r: Activation)
    ensures
        match r {
            Activation::CopyResult { result } => {
                &&& calculated(query@, enabled, text_of(evaluated))
                &&& evaluated == Some(result)
            },
            Activation::Launch { entry } => {
                &&& !calculated(query@, enabled, text_of(evaluated))
                &&& resolved(entries@, query@, *freq, row as int) == Some(entry)
            },
            Activation::Nothing => {
                &&& !calculated(query@, enabled, text_of(evaluated))
                &&& resolved(entries@, query@, *freq, row as int) is None
            },
        },
{
    match calc_expression(query, enabled) {
        Some(expression) => {
            match evaluated {
                Some(result) => {
                    return Activation::CopyResult { result };
                },
                None => {},
            }
        },
        None => {},
    }
    match get_filtered_entry(entries, query, row, freq) {
        Some(entry) => Activation::Launch { entry },
        None => Activation::Nothing,
    }
}

} // verus!
