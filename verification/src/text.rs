//! Small text helpers: first-sentence extraction for doc summaries and
//! human-readable number formatting.

use vstd::prelude::*;

verus! {

/// Index of the first occurrence of `c` in `s` at or after `i`,
/// or `s.len()` if there is none.
pub open spec fn find_from(s: Seq<char>, c: char, i: nat) -> nat
    decreases s.len() - i,
{
    if i >= s.len() {
        s.len()
    } else if s[i as int] == c {
        i
    } else {
        find_from(s, c, i + 1)
    }
}

/// Index of the first occurrence of the two-character pattern `". "` in `s`
/// at or after `i`, or `s.len()` if there is none.
pub open spec fn find_dot_space(s: Seq<char>, i: nat) -> nat
    decreases s.len() - i,
{
    if i + 1 >= s.len() {
        s.len()
    } else if s[i as int] == '.' && s[i as int + 1] == ' ' {
        i
    } else {
        find_dot_space(s, i + 1)
    }
}

/// The first line of `s`, as `str::lines` yields it: everything before
/// the first newline, with a carriage return stripped only when it stood
/// directly before that newline.
pub open spec fn spec_first_line(s: Seq<char>) -> Seq<char> {
    let k = find_from(s, '\n', 0);
    if k < s.len() {
        let line = s.take(k as int);
        if line.len() > 0 && line.last() == '\r' {
            line.drop_last()
        } else {
            line
        }
    } else {
        s
    }
}

/// The first sentence of a doc string: the first line, cut just after the
/// first `". "` if the line contains one.
pub open spec fn spec_first_sentence(s: Seq<char>) -> Seq<char> {
    let line = spec_first_line(s);
    let p = find_dot_space(line, 0);
    if p < line.len() {
        line.take(p as int + 1)
    } else {
        line
    }
}

/// Extract the first sentence from a doc string.
///
/// Takes the first line; if it contains `". "`, returns everything up to and
/// including that period, otherwise the whole first line.
pub fn first_sentence(docs: &str) -> (r: String)
    ensures
        r@ == spec_first_sentence(docs@),
{
    let n: usize = docs.unicode_len();
    let ghost s = docs@;
    let mut nl: usize = 0;
    while nl < n && docs.get_char(nl) != '\n'
        invariant
            n == s.len(),
            s == docs@,
            nl <= n,
            find_from(s, '\n', 0) == find_from(s, '\n', nl as nat),
        decreases n - nl,
    {
        nl = nl + 1;
    }
    proof {
        assert(find_from(s, '\n', nl as nat) == nl);
    }
    let line_end: usize = if nl < n && nl > 0 && docs.get_char(nl - 1) == '\r' {
        nl - 1
    } else {
        nl
    };
    let ghost line = spec_first_line(s);
    proof {
        assert(line =~= s.take(line_end as int));
    }
    let mut p: usize = 0;
    while p < line_end && p < line_end - 1 && !(docs.get_char(p) == '.' && docs.get_char(p + 1) == ' ')
        invariant
            n == s.len(),
            s == docs@,
            line_end <= n,
            line == s.take(line_end as int),
            p <= line_end,
            find_dot_space(line, 0) == find_dot_space(line, p as nat),
        decreases line_end - p,
    {
        p = p + 1;
    }
    let cut: usize = if p < line_end && p < line_end - 1 { p + 1 } else { line_end };
    proof {
        if p + 1 < line_end {
            assert(find_dot_space(line, p as nat) == p);
            assert(spec_first_sentence(s) =~= s.take(cut as int));
        } else {
            assert(find_dot_space(line, p as nat) == line.len());
            assert(spec_first_sentence(s) =~= s.take(cut as int));
        }
    }
    let sub = docs.substring_char(0, cut);
    String::from_str(sub)
}

/// The character for a single decimal digit.
pub open spec fn spec_digit_char(d: int) -> char {
    if d == 0 { '0' }
    else if d == 1 { '1' }
    else if d == 2 { '2' }
    else if d == 3 { '3' }
    else if d == 4 { '4' }
    else if d == 5 { '5' }
    else if d == 6 { '6' }
    else if d == 7 { '7' }
    else if d == 8 { '8' }
    else { '9' }
}

/// Decimal rendering of a natural number, most significant digit first.
pub open spec fn spec_dec(n: nat) -> Seq<char>
    decreases n,
{
    if n < 10 {
        seq![spec_digit_char(n as int)]
    } else {
        spec_dec(n / 10).push(spec_digit_char((n % 10) as int))
    }
}

fn digit_str(d: u64) -> (r: &'static str)
    requires
        d < 10,
    ensures
        r@ =~= seq![spec_digit_char(d as int)],
{
    proof {
        reveal_strlit("0");
        reveal_strlit("1");
        reveal_strlit("2");
        reveal_strlit("3");
        reveal_strlit("4");
        reveal_strlit("5");
        reveal_strlit("6");
        reveal_strlit("7");
        reveal_strlit("8");
        reveal_strlit("9");
    }
    if d == 0 { "0" }
    else if d == 1 { "1" }
    else if d == 2 { "2" }
    else if d == 3 { "3" }
    else if d == 4 { "4" }
    else if d == 5 { "5" }
    else if d == 6 { "6" }
    else if d == 7 { "7" }
    else if d == 8 { "8" }
    else { "9" }
}

/// Render `n` in decimal.
pub fn u64_string(n: u64) -> (r: String)
    ensures
        r@ == spec_dec(n as nat),
    decreases n,
{
    if n < 10 {
        String::from_str(digit_str(n))
    } else {
        proof {
            assert(n / 10 < n) by (nonlinear_arith)
                requires n >= 10;
        }
        let mut s = u64_string(n / 10);
        s.append(digit_str(n % 10));
        s
    }
}

/// `n / scale` rounded to the nearest tenth (half away from zero),
/// expressed in tenths.
pub open spec fn spec_round_tenths(n: nat, tenth: nat) -> nat
    recommends tenth > 0,
{
    n / tenth + if n % tenth >= (tenth + 1) / 2 { 1nat } else { 0nat }
}

/// The human-readable form of a count: plain decimal below one thousand,
/// otherwise one decimal place with a `K` (thousands) or `M` (millions)
/// suffix, rounded half away from zero.
pub open spec fn spec_format_number(n: nat) -> Seq<char> {
    if n >= 1000000 {
        let t = spec_round_tenths(n, 100000);
        spec_dec(t / 10) + seq!['.', spec_digit_char((t % 10) as int), 'M']
    } else if n >= 1000 {
        let t = spec_round_tenths(n, 100);
        spec_dec(t / 10) + seq!['.', spec_digit_char((t % 10) as int), 'K']
    } else {
        spec_dec(n)
    }
}

/// Helper to format large numbers in a human-readable way.
pub fn format_number(n: u64) -> (r: String)
    ensures
        r@ == spec_format_number(n as nat),
{
    if n >= 1000000 {
        let t: u64 = n / 100000 + if n % 100000 >= 50000 { 1 } else { 0 };
        let mut s = u64_string(t / 10);
        s.append(digit_str_dot());
        s.append(digit_str(t % 10));
        s.append(suffix_m());
        proof {
            assert(s@ =~= spec_format_number(n as nat));
        }
        s
    } else if n >= 1000 {
        let t: u64 = n / 100 + if n % 100 >= 50 { 1 } else { 0 };
        let mut s = u64_string(t / 10);
        s.append(digit_str_dot());
        s.append(digit_str(t % 10));
        s.append(suffix_k());
        proof {
            assert(s@ =~= spec_format_number(n as nat));
        }
        s
    } else {
        u64_string(n)
    }
}

/// Whether two strings hold the same characters.
pub fn str_eq(a: &str, b: &str) -> (r: bool)
    ensures
        r == (a@ == b@),
{
    let na: usize = a.unicode_len();
    let nb: usize = b.unicode_len();
    if na != nb {
        return false;
    }
    let mut i: usize = 0;
    while i < na
        invariant
            na == a@.len(),
            nb == b@.len(),
            na == nb,
            i <= na,
            forall|j: int| 0 <= j < i ==> a@[j] == b@[j],
        decreases na - i,
    {
        if a.get_char(i) != b.get_char(i) {
            return false;
        }
        i = i + 1;
    }
    proof {
        assert(a@ =~= b@);
    }
    true
}

fn digit_str_dot() -> (r: &'static str)
    ensures
        r@ =~= seq!['.'],
{
    proof {
        reveal_strlit(".");
    }
    "."
}

fn suffix_m() -> (r: &'static str)
    ensures
        r@ =~= seq!['M'],
{
    proof {
        reveal_strlit("M");
    }
    "M"
}

fn suffix_k() -> (r: &'static str)
    ensures
        r@ =~= seq!['K'],
{
    proof {
        reveal_strlit("K");
    }
    "K"
}

} // verus!
