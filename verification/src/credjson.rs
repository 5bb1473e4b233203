//! Canonical JSON form of the credential record: an object with a
//! `password` and a `keyPassphrase` member, each a string or null.
//!
//! The encoder emits exactly one canonical text per record (members in
//! that order, no whitespace, the standard short escapes, `\u00xx` for the
//! remaining control characters); the parser accepts exactly the texts the
//! encoder can produce, and parsing inverts encoding.

use vstd::prelude::*;

use crate::text::push_char;

verus! {

/// Lowercase hexadecimal digit for a value below 16.
pub open spec fn hex_digit(d: int) -> char {
    if d == 0 {
        '0'
    } else if d == 1 {
        '1'
    } else if d == 2 {
        '2'
    } else if d == 3 {
        '3'
    } else if d == 4 {
        '4'
    } else if d == 5 {
        '5'
    } else if d == 6 {
        '6'
    } else if d == 7 {
        '7'
    } else if d == 8 {
        '8'
    } else if d == 9 {
        '9'
    } else if d == 10 {
        'a'
    } else if d == 11 {
        'b'
    } else if d == 12 {
        'c'
    } else if d == 13 {
        'd'
    } else if d == 14 {
        'e'
    } else {
        'f'
    }
}

/// A lowercase hexadecimal digit character.
pub open spec fn is_hex(c: char) -> bool {
    (48 <= c as u32 <= 57) || (97 <= c as u32 <= 102)
}

/// The value of a lowercase hexadecimal digit.
pub open spec fn hex_val(c: char) -> int {
    if 48 <= c as u32 <= 57 {
        c as u32 - 48
    } else {
        c as u32 - 87
    }
}

/// The character a code below 256 denotes.
pub open spec fn char_of_code(n: int) -> char {
    (n as u8) as char
}

/// How one character is written inside a JSON string: itself, a two
/// character escape, or `\u00xx` for the remaining control characters.
pub open spec fn esc_char(c: char) -> Seq<char> {
    if c == '"' {
        seq!['\\', '"']
    } else if c == '\\' {
        seq!['\\', '\\']
    } else if c == '\u{8}' {
        seq!['\\', 'b']
    } else if c == '\t' {
        seq!['\\', 't']
    } else if c == '\n' {
        seq!['\\', 'n']
    } else if c == '\u{c}' {
        seq!['\\', 'f']
    } else if c == '\r' {
        seq!['\\', 'r']
    } else if (c as u32) < 32 {
        seq!['\\', 'u', '0', '0', hex_digit((c as u32 / 16) as int), hex_digit((c as u32 % 16) as int)]
    } else {
        seq![c]
    }
}

/// The body of a JSON string: every character escaped in order.
pub open spec fn esc(s: Seq<char>) -> Seq<char>
    decreases s.len(),
{
    if s.len() == 0 {
        Seq::empty()
    } else {
        esc_char(s.first()) + esc(s.drop_first())
    }
}

/// One member value: a quoted escaped string, or `null`.
pub open spec fn enc_field(v: Option<Seq<char>>) -> Seq<char> {
    match v {
        None => "null"@,
        Some(s) => seq!['"'] + esc(s) + seq!['"'],
    }
}

/// The canonical text of a credential record.
pub open spec fn spec_cred_json(password: Option<Seq<char>>, passphrase: Option<
    Seq<char>,
>) -> Seq<char> {
    "{\"password\":"@ + enc_field(password) + ",\"keyPassphrase\":"@ + enc_field(passphrase)
        + "}"@
}

/// The view of an optional string.
pub open spec fn opt_str_view(o: Option<String>) -> Option<Seq<char>> {
    match o {
        Some(s) => Some(s@),
        None => None,
    }
}

proof fn lemma_esc_push(s: Seq<char>, c: char)
    ensures
        esc(s.push(c)) == esc(s) + esc_char(c),
    decreases s.len(),
{
    if s.len() == 0 {
        let t = s.push(c);
        assert(t.len() == 1);
        assert(t.first() == c);
        assert(t.drop_first() =~= Seq::<char>::empty());
        assert(esc(t) == esc_char(c) + esc(Seq::<char>::empty()));
        assert(esc(t) =~= esc(s) + esc_char(c));
    } else {
        assert(s.push(c).drop_first() =~= s.drop_first().push(c));
        assert(s.push(c).first() == s.first());
        lemma_esc_push(s.drop_first(), c);
        assert(esc(s.push(c)) =~= esc(s) + esc_char(c));
    }
}

fn hex_char(d: u32) -> (r: char)
    requires
        d < 16,
    ensures
        r == hex_digit(d as int),
{
    match d {
        0 => '0',
        1 => '1',
        2 => '2',
        3 => '3',
        4 => '4',
        5 => '5',
        6 => '6',
        7 => '7',
        8 => '8',
        9 => '9',
        10 => 'a',
        11 => 'b',
        12 => 'c',
        13 => 'd',
        14 => 'e',
        _ => 'f',
    }
}

/// The body of a JSON string for `s`: every character escaped.
fn escape_str(s: &str) -> (r: String)
    ensures
        r@ == esc(s@),
{
    let n = s.unicode_len();
    let mut out = String::new();
    for i in 0..n
        invariant
            n == s@.len(),
            out@ == esc(s@.take(i as int)),
    {
        let c = s.get_char(i);
        proof {
            assert(s@.take(i as int + 1) =~= s@.take(i as int).push(s@[i as int]));
            lemma_esc_push(s@.take(i as int), s@[i as int]);
        }
        let code = c as u32;
        if c == '"' {
            push_char(&mut out, '\\');
            push_char(&mut out, '"');
        } else if c == '\\' {
            push_char(&mut out, '\\');
            push_char(&mut out, '\\');
        } else if c == '\u{8}' {
            push_char(&mut out, '\\');
            push_char(&mut out, 'b');
        } else if c == '\t' {
            push_char(&mut out, '\\');
            push_char(&mut out, 't');
        } else if c == '\n' {
            push_char(&mut out, '\\');
            push_char(&mut out, 'n');
        } else if c == '\u{c}' {
            push_char(&mut out, '\\');
            push_char(&mut out, 'f');
        } else if c == '\r' {
            push_char(&mut out, '\\');
            push_char(&mut out, 'r');
        } else if code < 32 {
            push_char(&mut out, '\\');
            push_char(&mut out, 'u');
            push_char(&mut out, '0');
            push_char(&mut out, '0');
            push_char(&mut out, hex_char(code / 16));
            push_char(&mut out, hex_char(code % 16));
        } else {
            push_char(&mut out, c);
        }
        proof {
            assert(out@ =~= esc(s@.take(i as int + 1)));
        }
    }
    proof {
        assert(s@.take(n as int) =~= s@);
    }
    out
}

/// Writes the canonical JSON text of a credential record.
pub fn cred_json(password: &Option<String>, passphrase: &Option<String>) -> (r: String)
    ensures
        r@ == spec_cred_json(opt_str_view(*password), opt_str_view(*passphrase)),
{
    let mut s = String::from_str("{\"password\":");
    match password {
        Some(p) => {
            push_char(&mut s, '"');
            let e = escape_str(p.as_str());
            s.append(e.as_str());
            push_char(&mut s, '"');
        },
        None => {
            s.append("null");
        },
    }
    s.append(",\"keyPassphrase\":");
    match passphrase {
        Some(p) => {
            push_char(&mut s, '"');
            let e = escape_str(p.as_str());
            s.append(e.as_str());
            push_char(&mut s, '"');
        },
        None => {
            s.append("null");
        },
    }
    s.append("}");
    proof {
        assert(s@ =~= spec_cred_json(opt_str_view(*password), opt_str_view(*passphrase)));
    }
    s
}

/// The character a two-character escape stands for.
pub open spec fn unesc_short(e: char) -> char {
    if e == '"' {
        '"'
    } else if e == '\\' {
        '\\'
    } else if e == 'b' {
        '\u{8}'
    } else if e == 't' {
        '\t'
    } else if e == 'n' {
        '\n'
    } else if e == 'f' {
        '\u{c}'
    } else {
        '\r'
    }
}

/// Parses a JSON string body of `s` starting at `i` (just after the
/// opening quote): the decoded content and the position after the closing
/// quote, or nothing where no canonical string body starts at `i`.
pub open spec fn spec_parse_string(s: Seq<char>, i: int) -> Option<(Seq<char>, int)>
    decreases s.len() - i,
{
    if i < 0 || i >= s.len() {
        None
    } else if s[i] == '"' {
        Some((Seq::empty(), i + 1))
    } else if s[i] == '\\' {
        if i + 1 >= s.len() {
            None
        } else {
            let e = s[i + 1];
            if e == '"' || e == '\\' || e == 'b' || e == 't' || e == 'n' || e == 'f' || e
                == 'r' {
                match spec_parse_string(s, i + 2) {
                    Some((rest, j)) => Some((seq![unesc_short(e)] + rest, j)),
                    None => None,
                }
            } else if e == 'u' {
                if i + 5 >= s.len() {
                    None
                } else if s[i + 2] == '0' && s[i + 3] == '0' && is_hex(s[i + 4]) && is_hex(
                    s[i + 5],
                ) {
                    match spec_parse_string(s, i + 6) {
                        Some((rest, j)) => Some(
                            (
                                seq![char_of_code(hex_val(s[i + 4]) * 16 + hex_val(s[i + 5]))]
                                    + rest,
                                j,
                            ),
                        ),
                        None => None,
                    }
                } else {
                    None
                }
            } else {
                None
            }
        }
    } else {
        match spec_parse_string(s, i + 1) {
            Some((rest, j)) => Some((seq![s[i]] + rest, j)),
            None => None,
        }
    }
}

/// Parses one member value of `s` at `i`: `null` or a quoted string, with
/// the position after it.
pub open spec fn spec_parse_value(s: Seq<char>, i: int) -> Option<(Option<Seq<char>>, int)> {
    if 0 <= i && i + 4 <= s.len() && s.subrange(i, i + 4) == "null"@ {
        Some((None, i + 4))
    } else if 0 <= i && i < s.len() && s[i] == '"' {
        match spec_parse_string(s, i + 1) {
            Some((content, j)) => Some((Some(content), j)),
            None => None,
        }
    } else {
        None
    }
}

/// Parses the canonical credential text: both member values, or nothing
/// where `s` is not such a text.
pub open spec fn spec_parse_cred(s: Seq<char>) -> Option<(Option<Seq<char>>, Option<
    Seq<char>,
>)> {
    let p1 = "{\"password\":"@;
    let p2 = ",\"keyPassphrase\":"@;
    if p1.len() <= s.len() && s.take(p1.len() as int) == p1 {
        match spec_parse_value(s, p1.len() as int) {
            Some((v1, j)) => if j + p2.len() <= s.len() && s.subrange(j, j + p2.len()) == p2 {
                match spec_parse_value(s, j + p2.len()) {
                    Some((v2, k)) => if k + 1 == s.len() && s[k] == '}' {
                        Some((v1, v2))
                    } else {
                        None
                    },
                    None => None,
                }
            } else {
                None
            },
            None => None,
        }
    } else {
        None
    }
}

fn is_hex_exec(c: char) -> (r: bool)
    ensures
        r == is_hex(c),
{
    let code = c as u32;
    (48 <= code && code <= 57) || (97 <= code && code <= 102)
}

fn hex_val_exec(c: char) -> (r: u32)
    requires
        is_hex(c),
    ensures
        r == hex_val(c),
        r < 16,
{
    let code = c as u32;
    if code <= 57 {
        code - 48
    } else {
        code - 87
    }
}

/// Whether `lit` occurs in `s` at position `i`.
fn match_lit(s: &str, i: usize, lit: &str) -> (r: bool)
    requires
        i <= s@.len(),
    ensures
        r == (i + lit@.len() <= s@.len() && s@.subrange(i as int, i as int + lit@.len())
            == lit@),
{
    let m = lit.unicode_len();
    let n = s.unicode_len();
    if m > n - i {
        return false;
    }
    for j in 0..m
        invariant
            m == lit@.len(),
            n == s@.len(),
            i + m <= n,
            forall|q: int| 0 <= q < j ==> s@[i + q] == lit@[q],
    {
        if s.get_char(i + j) != lit.get_char(j) {
            proof {
                assert(s@.subrange(i as int, i as int + lit@.len())[j as int] != lit@[j as int]);
            }
            return false;
        }
    }
    proof {
        assert(s@.subrange(i as int, i as int + lit@.len()) =~= lit@);
    }
    true
}

fn parse_string_exec(s: &str, n: usize, i: usize) -> (r: Option<(String, usize)>)
    requires
        n == s@.len(),
        i <= n,
    ensures
        (match r {
            Some(p) => spec_parse_string(s@, i as int) == Some((p.0@, p.1 as int)) && i < p.1
                <= n,
            None => spec_parse_string(s@, i as int) is None,
        }),
    decreases n - i,
{
    if i >= n {
        return None;
    }
    let c = s.get_char(i);
    if c == '"' {
        return Some((String::new(), i + 1));
    }
    if c == '\\' {
        if i + 1 >= n {
            return None;
        }
        let e = s.get_char(i + 1);
        if e == '"' || e == '\\' || e == 'b' || e == 't' || e == 'n' || e == 'f' || e == 'r' {
            let u: char = match e {
                '"' => '"',
                '\\' => '\\',
                'b' => '\u{8}',
                't' => '\t',
                'n' => '\n',
                'f' => '\u{c}',
                _ => '\r',
            };
            assert(u == unesc_short(s@[i as int + 1]));
            match parse_string_exec(s, n, i + 2) {
                Some((rest, j)) => {
                    let mut out = String::new();
                    push_char(&mut out, u);
                    out.append(rest.as_str());
                    proof {
                        assert(out@ =~= seq![unesc_short(s@[i as int + 1])] + rest@);
                    }
                    Some((out, j))
                },
                None => None,
            }
        } else if e == 'u' {
            if n - i <= 5 {
                return None;
            }
            let c2 = s.get_char(i + 2);
            let c3 = s.get_char(i + 3);
            let c4 = s.get_char(i + 4);
            let c5 = s.get_char(i + 5);
            if c2 == '0' && c3 == '0' && is_hex_exec(c4) && is_hex_exec(c5) {
                let code: u32 = hex_val_exec(c4) * 16 + hex_val_exec(c5);
                let u: char = (code as u8) as char;
                assert(u == char_of_code(hex_val(s@[i as int + 4]) * 16 + hex_val(
                    s@[i as int + 5],
                )));
                match parse_string_exec(s, n, i + 6) {
                    Some((rest, j)) => {
                        let mut out = String::new();
                        push_char(&mut out, u);
                        out.append(rest.as_str());
                        proof {
                            assert(out@ =~= seq![
                                char_of_code(
                                    hex_val(s@[i as int + 4]) * 16 + hex_val(s@[i as int + 5]),
                                ),
                            ] + rest@);
                        }
                        Some((out, j))
                    },
                    None => None,
                }
            } else {
                None
            }
        } else {
            None
        }
    } else {
        match parse_string_exec(s, n, i + 1) {
            Some((rest, j)) => {
                let mut out = String::new();
                push_char(&mut out, c);
                out.append(rest.as_str());
                proof {
                    assert(out@ =~= seq![s@[i as int]] + rest@);
                }
                Some((out, j))
            },
            None => None,
        }
    }
}

fn parse_value_exec(s: &str, n: usize, i: usize) -> (r: Option<(Option<String>, usize)>)
    requires
        n == s@.len(),
        i <= n,
    ensures
        (match r {
            Some(p) => spec_parse_value(s@, i as int) == Some((opt_str_view(p.0), p.1 as int))
                && i < p.1 <= n,
            None => spec_parse_value(s@, i as int) is None,
        }),
{
    if match_lit(s, i, "null") {
        proof {
            reveal_strlit("null");
        }
        return Some((None, i + 4));
    }
    if i < n {
        let c = s.get_char(i);
        if c == '"' {
            return match parse_string_exec(s, n, i + 1) {
                Some((content, j)) => Some((Some(content), j)),
                None => None,
            };
        }
    }
    None
}

/// Parses the canonical credential text into its two member values.
pub fn parse_cred_json(s: &str) -> (r: Option<(Option<String>, Option<String>)>)
    ensures
        (match r {
            Some(p) => spec_parse_cred(s@) == Some((opt_str_view(p.0), opt_str_view(p.1))),
            None => spec_parse_cred(s@) is None,
        }),
{
    let n = s.unicode_len();
    let p1 = "{\"password\":";
    let p2 = ",\"keyPassphrase\":";
    if !match_lit(s, 0, p1) {
        return None;
    }
    let i1 = p1.unicode_len();
    let (v1, j) = match parse_value_exec(s, n, i1) {
        Some(p) => p,
        None => {
            return None;
        },
    };
    if !match_lit(s, j, p2) {
        return None;
    }
    let i2 = j + p2.unicode_len();
    let (v2, k) = match parse_value_exec(s, n, i2) {
        Some(p) => p,
        None => {
            return None;
        },
    };
    if k == n - 1 && s.get_char(k) == '}' {
        Some((v1, v2))
    } else {
        None
    }
}

proof fn lemma_parse_string_esc(s: Seq<char>, i: int, content: Seq<char>, tail: Seq<char>)
    requires
        0 <= i <= s.len(),
        s.skip(i) == esc(content) + seq!['"'] + tail,
    ensures
        spec_parse_string(s, i) == Some((content, i + esc(content).len() + 1)),
    decreases content.len(),
{
    let rhs = esc(content) + seq!['"'] + tail;
    assert(s.skip(i).len() == s.len() - i);
    assert(s.len() - i == rhs.len());
    assert forall|q: int| 0 <= q < rhs.len() implies s[i + q] == rhs[q] by {
        assert(s.skip(i)[q] == s[i + q]);
    }
    if content.len() == 0 {
        assert(esc(content) =~= Seq::<char>::empty());
        assert(rhs[0] == '"');
        assert(s[i] == '"');
    } else {
        let c = content.first();
        let rest = content.drop_first();
        assert(esc(content) == esc_char(c) + esc(rest));
        let w = esc_char(c).len() as int;
        assert(w >= 1);
        assert(rhs.len() == w + esc(rest).len() + 1 + tail.len());
        assert forall|q: int| 0 <= q < w implies s[i + q] == esc_char(c)[q] by {
            assert(rhs[q] == esc_char(c)[q]);
        }
        assert(s.skip(i + w) =~= esc(rest) + seq!['"'] + tail) by {
            assert forall|q: int|
                0 <= q < s.len() - i - w implies s.skip(i + w)[q] == (esc(rest) + seq!['"']
                + tail)[q] by {
                assert(s.skip(i + w)[q] == s[i + w + q]);
                assert(s[i + w + q] == rhs[w + q]);
                assert(rhs[w + q] == (esc(rest) + seq!['"'] + tail)[q]);
            }
        }
        lemma_parse_string_esc(s, i + w, rest, tail);
        assert(seq![c] + rest =~= content);
        if c == '"' {
            assert(s[i] == '\\' && s[i + 1] == '"');
            assert(unesc_short(s[i + 1]) == c);
        } else if c == '\\' {
            assert(s[i] == '\\' && s[i + 1] == '\\');
            assert(unesc_short(s[i + 1]) == c);
        } else if c == '\u{8}' {
            assert(s[i] == '\\' && s[i + 1] == 'b');
            assert(unesc_short(s[i + 1]) == c);
        } else if c == '\t' {
            assert(s[i] == '\\' && s[i + 1] == 't');
            assert(unesc_short(s[i + 1]) == c);
        } else if c == '\n' {
            assert(s[i] == '\\' && s[i + 1] == 'n');
            assert(unesc_short(s[i + 1]) == c);
        } else if c == '\u{c}' {
            assert(s[i] == '\\' && s[i + 1] == 'f');
            assert(unesc_short(s[i + 1]) == c);
        } else if c == '\r' {
            assert(s[i] == '\\' && s[i + 1] == 'r');
            assert(unesc_short(s[i + 1]) == c);
        } else if (c as u32) < 32 {
            let hi = (c as u32 / 16) as int;
            let lo = (c as u32 % 16) as int;
            assert(s[i] == '\\' && s[i + 1] == 'u' && s[i + 2] == '0' && s[i + 3] == '0');
            assert(s[i + 4] == hex_digit(hi) && s[i + 5] == hex_digit(lo));
            assert(is_hex(hex_digit(hi)) && hex_val(hex_digit(hi)) == hi);
            assert(is_hex(hex_digit(lo)) && hex_val(hex_digit(lo)) == lo);
            let code = hex_val(s[i + 4]) * 16 + hex_val(s[i + 5]);
            assert(code == c as u32);
            assert(char_of_code(code) == c) by {
                assert(0 <= code < 32);
                assert((code as u8) as u32 == code);
                let c2 = (code as u8) as char;
                assert(c2 as u32 == code);
                vstd::utf8::char_u32_cast(c2, c2 as u32);
                vstd::utf8::char_u32_cast(c, c as u32);
            }
        } else {
            assert(s[i] == c);
            assert(c != '"' && c != '\\');
        }
    }
}

/// A member value at position `i` of `s`, followed by `tail`, parses to
/// exactly that value.
proof fn lemma_parse_field(s: Seq<char>, i: int, v: Option<Seq<char>>, tail: Seq<char>)
    requires
        0 <= i <= s.len(),
        s.skip(i) == enc_field(v) + tail,
    ensures
        spec_parse_value(s, i) == Some((v, i + enc_field(v).len())),
{
    reveal_strlit("null");
    let rhs = enc_field(v) + tail;
    assert(s.skip(i).len() == s.len() - i);
    assert(s.len() - i == rhs.len());
    assert forall|q: int| 0 <= q < rhs.len() implies s[i + q] == rhs[q] by {
        assert(s.skip(i)[q] == s[i + q]);
    }
    match v {
        None => {
            assert(enc_field(v).len() == 4);
            assert(i + 4 <= s.len());
            assert forall|q: int| 0 <= q < 4 implies s.subrange(i, i + 4)[q] == "null"@[q] by {
                assert(s.subrange(i, i + 4)[q] == s[i + q]);
                assert(rhs[q] == "null"@[q]);
            }
            assert(s.subrange(i, i + 4) =~= "null"@);
        },
        Some(content) => {
            assert(enc_field(v) == seq!['"'] + esc(content) + seq!['"']);
            assert(enc_field(v).len() == esc(content).len() + 2);
            assert(i < s.len());
            assert(rhs[0] == '"');
            assert(s[i] == '"');
            if i + 4 <= s.len() && s.subrange(i, i + 4) == "null"@ {
                assert(s.subrange(i, i + 4)[0] == s[i]);
                assert("null"@[0] == 'n');
                assert(false);
            }
            assert(s.skip(i + 1) =~= esc(content) + seq!['"'] + tail) by {
                assert forall|q: int|
                    0 <= q < s.len() - i - 1 implies s.skip(i + 1)[q] == (esc(content)
                    + seq!['"'] + tail)[q] by {
                    assert(s.skip(i + 1)[q] == s[i + 1 + q]);
                    assert(s[i + 1 + q] == rhs[q + 1]);
                    assert(rhs[q + 1] == (esc(content) + seq!['"'] + tail)[q]);
                }
            }
            lemma_parse_string_esc(s, i + 1, content, tail);
        },
    }
}

/// Parsing inverts encoding: the canonical text of a credential record
/// parses back to exactly that record.
pub proof fn lemma_cred_json_round_trip(p: Option<Seq<char>>, k: Option<Seq<char>>)
    ensures
        spec_parse_cred(spec_cred_json(p, k)) == Some((p, k)),
{
    let p1 = "{\"password\":"@;
    let p2 = ",\"keyPassphrase\":"@;
    let s = spec_cred_json(p, k);
    reveal_strlit("{\"password\":");
    reveal_strlit(",\"keyPassphrase\":");
    reveal_strlit("null");
    reveal_strlit("}");
    let e1 = enc_field(p);
    let e2 = enc_field(k);
    assert(s == p1 + e1 + p2 + e2 + "}"@);
    assert(s.len() == p1.len() + e1.len() + p2.len() + e2.len() + 1);
    assert(s.take(p1.len() as int) =~= p1);
    let j1 = p1.len() as int;
    let j2 = j1 + e1.len() as int;
    assert(s.skip(j1) =~= e1 + (p2 + e2 + "}"@)) by {
        assert forall|q: int|
            0 <= q < s.len() - j1 implies s.skip(j1)[q] == (e1 + (p2 + e2 + "}"@))[q] by {
            assert(s.skip(j1)[q] == s[j1 + q]);
        }
    }
    lemma_parse_field(s, j1, p, p2 + e2 + "}"@);
    assert(spec_parse_value(s, j1) == Some((p, j2)));
    assert(s.subrange(j2, j2 + p2.len()) =~= p2) by {
        assert forall|q: int|
            0 <= q < p2.len() implies s.subrange(j2, j2 + p2.len())[q] == p2[q] by {
            assert(s.subrange(j2, j2 + p2.len())[q] == s[j2 + q]);
        }
    }
    let j3 = j2 + p2.len() as int;
    let j4 = j3 + e2.len() as int;
    assert(s.skip(j3) =~= e2 + "}"@) by {
        assert forall|q: int| 0 <= q < s.len() - j3 implies s.skip(j3)[q] == (e2 + "}"@)[q] by {
            assert(s.skip(j3)[q] == s[j3 + q]);
        }
    }
    lemma_parse_field(s, j3, k, "}"@);
    assert(spec_parse_value(s, j3) == Some((k, j4)));
    assert(s[j4] == '}');
    assert(j4 + 1 == s.len());
}

} // verus!
