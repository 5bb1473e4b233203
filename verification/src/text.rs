//! Small verified text utilities shared by the other modules: decimal
//! rendering of integers and whitespace trimming.

use vstd::prelude::*;

verus! {

/// Relies on `String::push`: appends exactly one character to the string.
#[verifier::external_body]
pub(crate) fn push_char(s: &mut String, c: char)
    ensures
        final(s)@ == old(s)@.push(c),
{
    s.push(c);
}

/// The character for a single decimal digit value.
pub open spec fn dec_digit(d: int) -> char {
    if d == 0 {
        '0'
    } else if d == 1 {
        '1'
    } else if d == 2 {
        '2'
    } else if d == 3 {
        '3'
    } else if d == 4 {
        '4'
    } else if d == 5 {
        '5'
    } else if d == 6 {
        '6'
    } else if d == 7 {
        '7'
    } else if d == 8 {
        '8'
    } else {
        '9'
    }
}

/// Decimal representation of `n`, most significant digit first, no sign,
/// no leading zeros (except for `n == 0` itself).
pub open spec fn spec_dec(n: nat) -> Seq<char>
    decreases n,
{
    if n < 10 {
        seq![dec_digit(n as int)]
    } else {
        spec_dec(n / 10) + seq![dec_digit((n % 10) as int)]
    }
}

/// ASCII whitespace, as trimmed from probe output.
pub open spec fn is_ascii_ws(c: char) -> bool {
    c == ' ' || c == '\t' || c == '\n' || c == '\r'
}

/// Number of leading whitespace characters of `s`.
pub open spec fn count_leading_ws(s: Seq<char>) -> int
    decreases s.len(),
{
    if s.len() == 0 || !is_ascii_ws(s[0]) {
        0
    } else {
        1 + count_leading_ws(s.drop_first())
    }
}

/// Number of trailing whitespace characters of `s`.
pub open spec fn count_trailing_ws(s: Seq<char>) -> int
    decreases s.len(),
{
    if s.len() == 0 || !is_ascii_ws(s.last()) {
        0
    } else {
        1 + count_trailing_ws(s.drop_last())
    }
}

/// `s` without its leading and trailing ASCII whitespace.
pub open spec fn spec_trim(s: Seq<char>) -> Seq<char> {
    let rest = s.skip(count_leading_ws(s));
    rest.take(rest.len() - count_trailing_ws(rest))
}

proof fn lemma_count_leading_ws_le(s: Seq<char>)
    ensures
        0 <= count_leading_ws(s) <= s.len(),
    decreases s.len(),
{
    if s.len() > 0 && is_ascii_ws(s[0]) {
        lemma_count_leading_ws_le(s.drop_first());
    }
}

proof fn lemma_count_trailing_ws_le(s: Seq<char>)
    ensures
        0 <= count_trailing_ws(s) <= s.len(),
    decreases s.len(),
{
    if s.len() > 0 && is_ascii_ws(s.last()) {
        lemma_count_trailing_ws_le(s.drop_last());
    }
}

fn leading_ws_from(s: &str, i: usize, n: usize) -> (r: usize)
    requires
        i <= n,
        n == s@.len(),
    ensures
        r == count_leading_ws(s@.skip(i as int)),
        i + r <= n,
    decreases n - i,
{
    proof {
        lemma_count_leading_ws_le(s@.skip(i as int));
    }
    if i == n {
        return 0;
    }
    let c = s.get_char(i);
    if c == ' ' || c == '\t' || c == '\n' || c == '\r' {
        proof {
            assert(s@.skip(i as int).drop_first() =~= s@.skip(i as int + 1));
        }
        1 + leading_ws_from(s, i + 1, n)
    } else {
        0
    }
}

fn trailing_ws_upto(s: &str, l: usize, j: usize) -> (r: usize)
    requires
        l <= j <= s@.len(),
    ensures
        r == count_trailing_ws(s@.subrange(l as int, j as int)),
        r <= j - l,
    decreases j,
{
    proof {
        lemma_count_trailing_ws_le(s@.subrange(l as int, j as int));
    }
    if j == l {
        return 0;
    }
    let c = s.get_char(j - 1);
    if c == ' ' || c == '\t' || c == '\n' || c == '\r' {
        proof {
            assert(s@.subrange(l as int, j as int).drop_last() =~= s@.subrange(
                l as int,
                j as int - 1,
            ));
        }
        1 + trailing_ws_upto(s, l, j - 1)
    } else {
        0
    }
}

/// Removes leading and trailing ASCII whitespace.
pub fn trim_ascii_ws(s: &str) -> (r: String)
    ensures
        r@ == spec_trim(s@),
{
    let n = s.unicode_len();
    proof {
        assert(s@.skip(0) =~= s@);
    }
    let l = leading_ws_from(s, 0, n);
    let t = trailing_ws_upto(s, l, n);
    let sub = s.substring_char(l, n - t);
    proof {
        assert(s@.skip(l as int) =~= s@.subrange(l as int, n as int));
        assert(sub@ =~= spec_trim(s@));
    }
    sub.to_owned()
}

/// One step of splitting: a separator closes the current token (if any),
/// any other character extends it.
pub open spec fn ws_split_step(acc: (Seq<Seq<char>>, Seq<char>), c: char) -> (
    Seq<Seq<char>>,
    Seq<char>,
) {
    if is_ascii_ws(c) {
        if acc.1.len() > 0 {
            (acc.0.push(acc.1), Seq::empty())
        } else {
            acc
        }
    } else {
        (acc.0, acc.1.push(c))
    }
}

/// Left fold of `ws_split_step` over `s`: the finished tokens and the
/// token still open at the end.
pub open spec fn ws_split_fold(s: Seq<char>) -> (Seq<Seq<char>>, Seq<char>)
    decreases s.len(),
{
    if s.len() == 0 {
        (Seq::empty(), Seq::empty())
    } else {
        ws_split_step(ws_split_fold(s.drop_last()), s.last())
    }
}

/// The maximal runs of non-whitespace characters of `s`, in order.
pub open spec fn split_ws(s: Seq<char>) -> Seq<Seq<char>> {
    let acc = ws_split_fold(s);
    if acc.1.len() > 0 {
        acc.0.push(acc.1)
    } else {
        acc.0
    }
}

/// As `ws_split_step`, splitting on line feeds.
pub open spec fn nl_split_step(acc: (Seq<Seq<char>>, Seq<char>), c: char) -> (
    Seq<Seq<char>>,
    Seq<char>,
) {
    if c == '\n' {
        if acc.1.len() > 0 {
            (acc.0.push(acc.1), Seq::empty())
        } else {
            acc
        }
    } else {
        (acc.0, acc.1.push(c))
    }
}

/// Left fold of `nl_split_step` over `s`.
pub open spec fn nl_split_fold(s: Seq<char>) -> (Seq<Seq<char>>, Seq<char>)
    decreases s.len(),
{
    if s.len() == 0 {
        (Seq::empty(), Seq::empty())
    } else {
        nl_split_step(nl_split_fold(s.drop_last()), s.last())
    }
}

/// The non-empty segments of `s` between line feeds, in order.
pub open spec fn split_nl(s: Seq<char>) -> Seq<Seq<char>> {
    let acc = nl_split_fold(s);
    if acc.1.len() > 0 {
        acc.0.push(acc.1)
    } else {
        acc.0
    }
}

/// The views of a sequence of strings.
pub open spec fn strings_view(v: Seq<String>) -> Seq<Seq<char>> {
    v.map_values(|t: String| t@)
}

/// Splits `s` into its maximal whitespace-free runs.
pub fn split_ws_exec(s: &str) -> (r: Vec<String>)
    ensures
        strings_view(r@) == split_ws(s@),
{
    let n = s.unicode_len();
    let mut toks: Vec<String> = Vec::new();
    let mut cur = String::new();
    for i in 0..n
        invariant
            n == s@.len(),
            strings_view(toks@) == ws_split_fold(s@.take(i as int)).0,
            cur@ == ws_split_fold(s@.take(i as int)).1,
    {
        let c = s.get_char(i);
        proof {
            assert(s@.take(i as int + 1).drop_last() =~= s@.take(i as int));
        }
        if c == ' ' || c == '\t' || c == '\n' || c == '\r' {
            if !cur.as_str().is_empty() {
                let ghost toks0 = toks@;
                toks.push(cur);
                cur = String::new();
                proof {
                    assert(strings_view(toks@) =~= strings_view(toks0).push(
                        toks@.last()@,
                    ));
                }
            }
        } else {
            push_char(&mut cur, c);
        }
    }
    proof {
        assert(s@.take(n as int) =~= s@);
    }
    if !cur.as_str().is_empty() {
        let ghost toks0 = toks@;
        toks.push(cur);
        proof {
            assert(strings_view(toks@) =~= strings_view(toks0).push(toks@.last()@));
        }
    }
    toks
}

/// Splits `s` into its non-empty line-feed-separated segments.
pub fn split_nl_exec(s: &str) -> (r: Vec<String>)
    ensures
        strings_view(r@) == split_nl(s@),
{
    let n = s.unicode_len();
    let mut toks: Vec<String> = Vec::new();
    let mut cur = String::new();
    for i in 0..n
        invariant
            n == s@.len(),
            strings_view(toks@) == nl_split_fold(s@.take(i as int)).0,
            cur@ == nl_split_fold(s@.take(i as int)).1,
    {
        let c = s.get_char(i);
        proof {
            assert(s@.take(i as int + 1).drop_last() =~= s@.take(i as int));
        }
        if c == '\n' {
            if !cur.as_str().is_empty() {
                let ghost toks0 = toks@;
                toks.push(cur);
                cur = String::new();
                proof {
                    assert(strings_view(toks@) =~= strings_view(toks0).push(
                        toks@.last()@,
                    ));
                }
            }
        } else {
            push_char(&mut cur, c);
        }
    }
    proof {
        assert(s@.take(n as int) =~= s@);
    }
    if !cur.as_str().is_empty() {
        let ghost toks0 = toks@;
        toks.push(cur);
        proof {
            assert(strings_view(toks@) =~= strings_view(toks0).push(toks@.last()@));
        }
    }
    toks
}

/// `parts` joined with `sep` between consecutive parts.
pub open spec fn spec_join(parts: Seq<Seq<char>>, sep: Seq<char>) -> Seq<char>
    decreases parts.len(),
{
    if parts.len() == 0 {
        Seq::empty()
    } else if parts.len() == 1 {
        parts[0]
    } else {
        spec_join(parts.drop_last(), sep) + sep + parts.last()
    }
}

/// Joins `parts` with `sep` between consecutive parts.
pub fn join_with(parts: &Vec<String>, sep: &str) -> (r: String)
    ensures
        r@ == spec_join(strings_view(parts@), sep@),
{
    let mut out = String::new();
    let n = parts.len();
    for i in 0..n
        invariant
            n == parts@.len(),
            out@ == spec_join(strings_view(parts@).take(i as int), sep@),
    {
        proof {
            assert(strings_view(parts@).take(i as int + 1).drop_last() =~= strings_view(
                parts@,
            ).take(i as int));
            assert(strings_view(parts@).take(i as int + 1).last() == parts@[i as int]@);
        }
        if i > 0 {
            out.append(sep);
        }
        out.append(parts[i].as_str());
    }
    proof {
        assert(strings_view(parts@).take(n as int) =~= strings_view(parts@));
    }
    out
}

/// A decimal digit.
pub open spec fn is_digit(c: char) -> bool {
    48 <= c as u32 <= 57
}

/// The numeric value of a digit character.
pub open spec fn digit_val(c: char) -> int {
    c as u32 - 48
}

/// The number the digit string `s` denotes (0 for the empty string).
pub open spec fn spec_digits_val(s: Seq<char>) -> int
    decreases s.len(),
{
    if s.len() == 0 {
        0
    } else {
        spec_digits_val(s.drop_last()) * 10 + digit_val(s.last())
    }
}

/// A non-empty string of decimal digits.
pub open spec fn is_dec_digits(s: Seq<char>) -> bool {
    s.len() > 0 && forall|i: int| 0 <= i < s.len() ==> is_digit(#[trigger] s[i])
}

/// What parsing `s` as an unsigned 64-bit decimal yields: its value when
/// `s` is all digits and the value fits, nothing otherwise.
pub open spec fn spec_parse_u64(s: Seq<char>) -> Option<u64> {
    if is_dec_digits(s) && spec_digits_val(s) <= u64::MAX {
        Some(spec_digits_val(s) as u64)
    } else {
        None
    }
}

proof fn lemma_digits_val_nonneg(s: Seq<char>)
    requires
        forall|i: int| 0 <= i < s.len() ==> is_digit(#[trigger] s[i]),
    ensures
        spec_digits_val(s) >= 0,
    decreases s.len(),
{
    if s.len() > 0 {
        assert(forall|i: int|
            0 <= i < s.drop_last().len() ==> is_digit(#[trigger] s.drop_last()[i]));
        lemma_digits_val_nonneg(s.drop_last());
    }
}

proof fn lemma_digits_val_mono(s: Seq<char>, i: int)
    requires
        0 <= i <= s.len(),
        forall|j: int| 0 <= j < s.len() ==> is_digit(#[trigger] s[j]),
    ensures
        spec_digits_val(s) >= spec_digits_val(s.take(i)),
    decreases s.len() - i,
{
    if i < s.len() {
        assert(s.take(i + 1).drop_last() =~= s.take(i));
        assert(s.take(i + 1).last() == s[i]);
        assert(forall|j: int| 0 <= j < s.take(i).len() ==> is_digit(#[trigger] s.take(i)[j]));
        lemma_digits_val_nonneg(s.take(i));
        assert(spec_digits_val(s.take(i + 1)) >= spec_digits_val(s.take(i)));
        lemma_digits_val_mono(s, i + 1);
    } else {
        assert(s.take(i) =~= s);
    }
}

/// Parses `s` as an unsigned 64-bit decimal: all digits and in range, or
/// nothing.
pub fn parse_u64(s: &str) -> (r: Option<u64>)
    ensures
        r == spec_parse_u64(s@),
{
    let n = s.unicode_len();
    if n == 0 {
        return None;
    }
    let mut v: u64 = 0;
    for i in 0..n
        invariant
            n == s@.len(),
            n > 0,
            forall|j: int| 0 <= j < i ==> is_digit(#[trigger] s@[j]),
            v == spec_digits_val(s@.take(i as int)),
    {
        let c = s.get_char(i);
        let code = c as u32;
        proof {
            assert(s@.take(i as int + 1).drop_last() =~= s@.take(i as int));
            assert(s@.take(i as int + 1).last() == s@[i as int]);
        }
        if code < 48 || code > 57 {
            return None;
        }
        let d: u64 = (code - 48) as u64;
        if v > (u64::MAX - d) / 10 {
            proof {
                if is_dec_digits(s@) {
                    assert(spec_digits_val(s@.take(i as int + 1)) == v * 10 + d > u64::MAX);
                    lemma_digits_val_mono(s@, i as int + 1);
                }
            }
            return None;
        }
        v = v * 10 + d;
    }
    proof {
        assert(s@.take(n as int) =~= s@);
    }
    Some(v)
}

/// Renders `n` in decimal.
pub fn u64_to_dec(n: u64) -> (r: String)
    ensures
        r@ == spec_dec(n as nat),
    decreases n,
{
    let d: u64 = n % 10;
    let c: char = match d {
        0 => '0',
        1 => '1',
        2 => '2',
        3 => '3',
        4 => '4',
        5 => '5',
        6 => '6',
        7 => '7',
        8 => '8',
        _ => '9',
    };
    assert(c == dec_digit((n % 10) as int));
    if n < 10 {
        let mut s = String::new();
        push_char(&mut s, c);
        s
    } else {
        let mut s = u64_to_dec(n / 10);
        push_char(&mut s, c);
        s
    }
}

} // verus!
