//! Character-level text utilities shared by the persisted line formats:
//! conversions between `String` and `Vec<char>`, decimal rendering and
//! parsing of `u64`, and JSON string-literal escaping and unescaping.

use vstd::prelude::*;

verus! {

use vstd::string::StrSliceExecFns;

// ===== String <-> Vec<char> =====

/// Collect the characters of a string slice into a vector.
pub fn chars_of(s: &str) -> (v: Vec<char>)
    ensures
        v@ == s@,
{
    let n = s.unicode_len();
    let mut v: Vec<char> = Vec::new();
    let mut i: usize = 0;
    while i < n
        invariant
            i <= n,
            n == s@.len(),
            v@ == s@.subrange(0, i as int),
        decreases n - i,
    {
        v.push(s.get_char(i));
        i += 1;
    }
    assert(v@ =~= s@);
    v
}

/// Relies on std's `FromIterator<char>` impl for `String` (`collect`):
/// a string built from a sequence of characters consists of exactly those
/// characters, in order.
#[verifier::external_body]
pub fn string_of(v: &Vec<char>) -> (s: String)
    ensures
        s@ == v@,
{
    v.iter().collect()
}

/// Append the characters of `s` to `out`.
pub fn push_str_chars(out: &mut Vec<char>, s: &str)
    ensures
        final(out)@ == old(out)@ + s@,
{
    let mut cs = chars_of(s);
    out.append(&mut cs);
}

// ===== decimal digits =====

pub open spec fn digit_char(n: int) -> char
    recommends
        0 <= n < 10,
{
    ((48 + n) as u8) as char
}

pub open spec fn digit_val(c: char) -> int {
    c as int - 48
}

pub open spec fn is_dec_digit(c: char) -> bool {
    '0' <= c && c <= '9'
}

/// Decimal rendering of a non-negative integer, most significant digit first.
pub open spec fn spec_u64_dec(n: int) -> Seq<char>
    recommends
        0 <= n,
    decreases n,
{
    if n < 10 {
        seq![digit_char(n)]
    } else {
        spec_u64_dec(n / 10).push(digit_char(n % 10))
    }
}

fn digit_of(n: u64) -> (c: char)
    requires
        n < 10,
    ensures
        c == digit_char(n as int),
{
    (48 + (n as u8)) as char
}

/// Append the decimal rendering of `n` to `out`.
pub fn push_u64_dec(out: &mut Vec<char>, n: u64)
    ensures
        final(out)@ == old(out)@ + spec_u64_dec(n as int),
    decreases n,
{
    if n < 10 {
        out.push(digit_of(n));
        assert(out@ =~= old(out)@ + spec_u64_dec(n as int));
    } else {
        push_u64_dec(out, n / 10);
        out.push(digit_of(n % 10));
        assert(out@ =~= old(out)@ + spec_u64_dec(n as int));
    }
}

/// Value of a sequence of decimal digits, most significant first.
pub open spec fn dec_val(s: Seq<char>) -> int
    decreases s.len(),
{
    if s.len() == 0 {
        0
    } else {
        10 * dec_val(s.drop_last()) + digit_val(s.last())
    }
}

pub open spec fn all_dec_digits(s: Seq<char>) -> bool {
    forall|i: int| 0 <= i < s.len() ==> is_dec_digit(#[trigger] s[i])
}

/// The decimal rendering of `n` is a non-empty digit string whose value is `n`.
pub proof fn lemma_u64_dec(n: int)
    requires
        0 <= n,
    ensures
        spec_u64_dec(n).len() >= 1,
        all_dec_digits(spec_u64_dec(n)),
        dec_val(spec_u64_dec(n)) == n,
    decreases n,
{
    if n < 10 {
        let s = spec_u64_dec(n);
        assert(s =~= seq![digit_char(n)]);
        assert(s.drop_last() =~= Seq::<char>::empty());
        assert(((48 + n) as u8) as int == 48 + n);
        assert((((48 + n) as u8) as char) as int == 48 + n);
        assert(digit_val(digit_char(n)) == n);
        assert(dec_val(s) == 10 * dec_val(s.drop_last()) + digit_val(s.last()));
        assert(dec_val(s.drop_last()) == 0);
        assert(s.last() == digit_char(n));
        assert(dec_val(s) == n);
    } else {
        lemma_u64_dec(n / 10);
        let p = spec_u64_dec(n / 10);
        let s = spec_u64_dec(n);
        assert(s == p.push(digit_char(n % 10)));
        assert(s.drop_last() =~= p);
        assert(s.last() == digit_char(n % 10));
        assert(digit_val(digit_char(n % 10)) == n % 10);
        assert(forall|i: int| 0 <= i < p.len() ==> s[i] == p[i]);
        assert(dec_val(s) == 10 * (n / 10) + n % 10);
        assert(n == 10 * (n / 10) + n % 10);
        assert(dec_val(s) == n);
        assert(all_dec_digits(s));
    }
}

/// Length of the run of decimal digits at the front of `s`.
pub open spec fn digits_len(s: Seq<char>) -> int
    decreases s.len(),
{
    if s.len() > 0 && is_dec_digit(s[0]) {
        1 + digits_len(s.drop_first())
    } else {
        0
    }
}

pub proof fn lemma_digits_len(s: Seq<char>)
    ensures
        0 <= digits_len(s) <= s.len(),
        forall|j: int| 0 <= j < digits_len(s) ==> is_dec_digit(#[trigger] s[j]),
        digits_len(s) < s.len() ==> !is_dec_digit(s[digits_len(s)]),
    decreases s.len(),
{
    if s.len() > 0 && is_dec_digit(s[0]) {
        lemma_digits_len(s.drop_first());
        assert(forall|j: int| 1 <= j < digits_len(s) ==> s[j] == s.drop_first()[j - 1]);
    }
}

/// A digit run followed by a sequence that does not start with a digit has
/// the run's length as its leading-digits length.
pub proof fn lemma_digits_len_concat(d: Seq<char>, r: Seq<char>)
    requires
        all_dec_digits(d),
        r.len() == 0 || !is_dec_digit(r[0]),
    ensures
        digits_len(d + r) == d.len(),
    decreases d.len(),
{
    if d.len() == 0 {
        assert(d + r =~= r);
    } else {
        assert((d + r)[0] == d[0]);
        assert((d + r).drop_first() =~= d.drop_first() + r);
        assert(all_dec_digits(d.drop_first()));
        lemma_digits_len_concat(d.drop_first(), r);
    }
}

/// Digit values are non-negative and grow as more digits are appended.
pub proof fn lemma_dec_val_mono(s: Seq<char>, i: int, j: int)
    requires
        all_dec_digits(s),
        0 <= i <= j <= s.len(),
    ensures
        0 <= dec_val(s.take(i)) <= dec_val(s.take(j)),
    decreases j - i,
{
    lemma_dec_val_nonneg(s.take(i));
    if i < j {
        lemma_dec_val_mono(s, i, j - 1);
        let a = s.take(j - 1);
        let b = s.take(j);
        assert(b.drop_last() =~= a);
        assert(is_dec_digit(b.last()));
        lemma_dec_val_nonneg(a);
    }
}

pub proof fn lemma_dec_val_nonneg(s: Seq<char>)
    requires
        all_dec_digits(s),
    ensures
        dec_val(s) >= 0,
    decreases s.len(),
{
    if s.len() > 0 {
        assert(all_dec_digits(s.drop_last())) by {
            assert(forall|i: int| 0 <= i < s.len() - 1 ==> s.drop_last()[i] == s[i]);
        }
        lemma_dec_val_nonneg(s.drop_last());
        assert(is_dec_digit(s.last()));
    }
}

/// Parse the leading decimal digit run of `s` as a `u64`.  Fails when there
/// is no digit or when the value exceeds `u64::MAX`.
pub open spec fn spec_parse_u64(s: Seq<char>) -> Option<(u64, Seq<char>)> {
    let k = digits_len(s);
    if k == 0 {
        None
    } else if dec_val(s.take(k)) <= u64::MAX {
        Some((dec_val(s.take(k)) as u64, s.skip(k)))
    } else {
        None
    }
}

/// Parse a decimal `u64` at position `i` of `v`; on success the returned
/// index sits just past the digit run.
pub fn parse_u64_at(v: &Vec<char>, i: usize) -> (r: Option<(u64, usize)>)
    requires
        i <= v@.len(),
    ensures
        match spec_parse_u64(v@.skip(i as int)) {
            Some(p) => {
                &&& r matches Some(q)
                &&& q.0 == p.0
                &&& i <= q.1 <= v@.len()
                &&& v@.skip(q.1 as int) == p.1
            },
            None => r is None,
        },
{
    let ghost s = v@.skip(i as int);
    let ghost k = digits_len(s);
    proof {
        lemma_digits_len(s);
    }
    let mut j: usize = i;
    let mut acc: u64 = 0;
    while j < v.len() && v[j] >= '0' && v[j] <= '9'
        invariant
            i <= j <= v@.len(),
            s == v@.skip(i as int),
            k == digits_len(s),
            0 <= k <= s.len(),
            j - i <= k,
            forall|t: int| 0 <= t < k ==> is_dec_digit(#[trigger] s[t]),
            k < s.len() ==> !is_dec_digit(s[k]),
            acc == dec_val(s.take(j - i)),
            acc <= u64::MAX,
        decreases v@.len() - j,
    {
        assert(v[j as int] == s[j - i]);
        assert(is_dec_digit(s[j - i]));
        assert(j - i < k) by {
            if j - i == k {
                assert(k < s.len());
            }
        }
        let d: u64 = (v[j] as u64) - 48;
        assert(d < 10);
        let ghost pre = s.take(j - i);
        let ghost post = s.take(j - i + 1);
        assert(post.drop_last() =~= pre);
        assert(post.last() == s[j - i]);
        assert(dec_val(post) == 10 * acc + d);
        if acc > (u64::MAX - d) / 10 {
            // Overflow: the full digit run's value can only be larger.
            proof {
                assert(10 * acc + d > u64::MAX) by (nonlinear_arith)
                    requires
                        acc > (u64::MAX - d) / 10,
                        d < 10,
                        acc <= u64::MAX,
                ;
                assert(forall|t: int| 0 <= t < post.len() ==> is_dec_digit(#[trigger] post[t]));
                assert(all_dec_digits(s.take(k))) by {
                    assert(forall|t: int| 0 <= t < k ==> s.take(k)[t] == s[t]);
                }
                assert(s.take(k).take(j - i + 1) =~= post);
                lemma_dec_val_mono(s.take(k), j - i + 1, k);
                assert(s.take(k).take(k) =~= s.take(k));
                assert(dec_val(s.take(k)) > u64::MAX);
            }
            return None;
        }
        proof {
            assert(10 * acc + d <= u64::MAX) by (nonlinear_arith)
                requires
                    acc <= (u64::MAX - d) / 10,
                    d < 10,
                    0 <= acc,
            ;
        }
        acc = acc * 10 + d;
        j += 1;
    }
    proof {
        // The loop stopped at the end of the digit run.
        if j - i < k {
            assert(is_dec_digit(s[j - i]));
            assert(v@[j as int] == s[j - i]);
            assert(false);
        }
        assert(j - i == k);
    }
    if j == i {
        assert(digits_len(s) == 0);
        None
    } else {
        assert(s.take(k) == s.take(j - i));
        assert(v@.skip(j as int) =~= s.skip(k));
        Some((acc, j))
    }
}

// ===== hexadecimal digits (for control-character escapes) =====

pub open spec fn hex_digit_char(n: int) -> char
    recommends
        0 <= n < 16,
{
    if n < 10 {
        digit_char(n)
    } else {
        ((87 + n) as u8) as char
    }
}

pub open spec fn is_hex_digit(c: char) -> bool {
    is_dec_digit(c) || ('a' <= c && c <= 'f')
}

pub open spec fn hex_val(c: char) -> int {
    if is_dec_digit(c) {
        c as int - 48
    } else {
        c as int - 87
    }
}

fn hex_digit_of(n: u8) -> (c: char)
    requires
        n < 16,
    ensures
        c == hex_digit_char(n as int),
{
    if n < 10 {
        (48 + n) as char
    } else {
        (87 + n) as char
    }
}

pub proof fn lemma_hex_digit(n: int)
    requires
        0 <= n < 16,
    ensures
        is_hex_digit(hex_digit_char(n)),
        hex_val(hex_digit_char(n)) == n,
{
}

// ===== JSON string-literal escaping =====

/// The escape sequence a character contributes inside a JSON string literal:
/// quote and backslash get a backslash escape, control characters a
/// `\u00XY` escape, every other character stands for itself.
pub open spec fn esc_char(c: char) -> Seq<char> {
    if c == '"' {
        seq!['\\', '"']
    } else if c == '\\' {
        seq!['\\', '\\']
    } else if (c as u32) < 32 {
        seq![
            '\\',
            'u',
            '0',
            '0',
            hex_digit_char((c as u32 / 16) as int),
            hex_digit_char((c as u32 % 16) as int),
        ]
    } else {
        seq![c]
    }
}

/// Escaped form of a whole string, ready to sit between quotes.
pub open spec fn json_escape(s: Seq<char>) -> Seq<char>
    decreases s.len(),
{
    if s.len() == 0 {
        Seq::empty()
    } else {
        esc_char(s[0]) + json_escape(s.drop_first())
    }
}

pub proof fn lemma_json_escape_concat(a: Seq<char>, b: Seq<char>)
    ensures
        json_escape(a + b) == json_escape(a) + json_escape(b),
    decreases a.len(),
{
    if a.len() == 0 {
        assert(a + b =~= b);
        assert(json_escape(a) + json_escape(b) =~= json_escape(b));
    } else {
        assert((a + b)[0] == a[0]);
        assert((a + b).drop_first() =~= a.drop_first() + b);
        lemma_json_escape_concat(a.drop_first(), b);
        assert(json_escape(a + b) =~= json_escape(a) + json_escape(b));
    }
}

/// Append the escaped form of `s` to `out`.
pub fn push_json_escaped(out: &mut Vec<char>, s: &Vec<char>)
    ensures
        final(out)@ == old(out)@ + json_escape(s@),
{
    let mut i: usize = 0;
    assert(out@ =~= old(out)@ + json_escape(s@.take(0)));
    while i < s.len()
        invariant
            i <= s@.len(),
            out@ == old(out)@ + json_escape(s@.take(i as int)),
        decreases s@.len() - i,
    {
        let c = s[i];
        if c == '"' {
            out.push('\\');
            out.push('"');
        } else if c == '\\' {
            out.push('\\');
            out.push('\\');
        } else if (c as u32) < 32 {
            let b = (c as u32) as u8;
            assert(b as int == c as u32 as int);
            out.push('\\');
            out.push('u');
            out.push('0');
            out.push('0');
            out.push(hex_digit_of(b / 16));
            out.push(hex_digit_of(b % 16));
        } else {
            out.push(c);
        }
        proof {
            let pre = s@.take(i as int);
            let post = s@.take(i + 1);
            assert(post =~= pre + seq![s@[i as int]]);
            lemma_json_escape_concat(pre, seq![s@[i as int]]);
            assert(seq![s@[i as int]].drop_first() =~= Seq::<char>::empty());
            assert(json_escape(seq![s@[i as int]]) =~= esc_char(s@[i as int]) + json_escape(
                Seq::<char>::empty(),
            ));
            assert(esc_char(s@[i as int]) + Seq::<char>::empty() =~= esc_char(s@[i as int]));
            assert(json_escape(seq![s@[i as int]]) =~= esc_char(s@[i as int]));
            assert(out@ =~= old(out)@ + json_escape(post));
        }
        i += 1;
    }
    assert(s@.take(s@.len() as int) =~= s@);
}

/// Parse the body of a JSON string literal: consume characters up to an
/// unescaped closing quote, undoing escapes, and also consume the quote.
/// Yields the decoded content and the rest of the input.
pub open spec fn spec_parse_jstring(s: Seq<char>) -> Option<(Seq<char>, Seq<char>)>
    decreases s.len(),
{
    if s.len() == 0 {
        None
    } else if s[0] == '"' {
        Some((Seq::empty(), s.drop_first()))
    } else if s[0] == '\\' {
        if s.len() < 2 {
            None
        } else if s[1] == '"' || s[1] == '\\' {
            match spec_parse_jstring(s.skip(2)) {
                None => None,
                Some(p) => Some((seq![s[1]] + p.0, p.1)),
            }
        } else if s[1] == 'u' {
            if s.len() >= 6 && s[2] == '0' && s[3] == '0' && is_hex_digit(s[4]) && is_hex_digit(
                s[5],
            ) {
                match spec_parse_jstring(s.skip(6)) {
                    None => None,
                    Some(p) => Some(
                        (seq![((16 * hex_val(s[4]) + hex_val(s[5])) as u8) as char] + p.0, p.1),
                    ),
                }
            } else {
                None
            }
        } else {
            None
        }
    } else if (s[0] as u32) < 32 {
        None
    } else {
        match spec_parse_jstring(s.drop_first()) {
            None => None,
            Some(p) => Some((seq![s[0]] + p.0, p.1)),
        }
    }
}

/// Parse a JSON string body at position `i` of `v` (just past the opening
/// quote); on success the returned index sits just past the closing quote.
pub fn parse_jstring_at(v: &Vec<char>, i: usize) -> (r: Option<(Vec<char>, usize)>)
    requires
        i <= v@.len(),
    ensures
        match spec_parse_jstring(v@.skip(i as int)) {
            Some(p) => {
                &&& r matches Some(q)
                &&& q.0@ == p.0
                &&& i <= q.1 <= v@.len()
                &&& v@.skip(q.1 as int) == p.1
            },
            None => r is None,
        },
{
    let ghost s0 = v@.skip(i as int);
    let mut acc: Vec<char> = Vec::new();
    let mut j: usize = i;
    loop
        invariant
            i <= j <= v@.len(),
            s0 == v@.skip(i as int),
            ({
                let whole = spec_parse_jstring(s0);
                let part = spec_parse_jstring(v@.skip(j as int));
                &&& (whole is Some <==> part is Some)
                &&& (whole matches Some(w) ==> (part matches Some(p) && w.0 == acc@ + p.0 && w.1
                    == p.1))
            }),
        decreases v@.len() - j,
    {
        let ghost part = v@.skip(j as int);
        if j == v.len() {
            assert(part.len() == 0);
            return None;
        }
        let c = v[j];
        assert(c == part[0]);
        if c == '"' {
            assert(part.drop_first() =~= v@.skip(j + 1));
            proof {
                if spec_parse_jstring(s0) is Some {
                    assert(acc@ + Seq::<char>::empty() =~= acc@);
                }
            }
            return Some((acc, j + 1));
        } else if c == '\\' {
            if v.len() - j < 2 {
                assert(part.len() < 2);
                return None;
            }
            let e = v[j + 1];
            assert(e == part[1]);
            if e == '"' || e == '\\' {
                assert(part.skip(2) =~= v@.skip(j + 2));
                proof {
                    if spec_parse_jstring(s0) matches Some(w) {
                        let p = spec_parse_jstring(part).unwrap();
                        let q = spec_parse_jstring(v@.skip(j + 2)).unwrap();
                        assert(p.0 == seq![e] + q.0);
                        assert(acc@ + (seq![e] + q.0) =~= acc@.push(e) + q.0);
                    }
                }
                acc.push(e);
                j += 2;
            } else if e == 'u' {
                if v.len() - j < 6 {
                    assert(part.len() < 6);
                    return None;
                }
                let c2 = v[j + 2];
                let c3 = v[j + 3];
                let c4 = v[j + 4];
                let c5 = v[j + 5];
                assert(c2 == part[2] && c3 == part[3] && c4 == part[4] && c5 == part[5]);
                let hex4 = (c4 >= '0' && c4 <= '9') || (c4 >= 'a' && c4 <= 'f');
                let hex5 = (c5 >= '0' && c5 <= '9') || (c5 >= 'a' && c5 <= 'f');
                if !(c2 == '0' && c3 == '0' && hex4 && hex5) {
                    return None;
                }
                let h: u8 = if c4 <= '9' {
                    ((c4 as u32) - 48) as u8
                } else {
                    ((c4 as u32) - 87) as u8
                };
                let l: u8 = if c5 <= '9' {
                    ((c5 as u32) - 48) as u8
                } else {
                    ((c5 as u32) - 87) as u8
                };
                assert(h as int == hex_val(part[4]) && h < 16);
                assert(l as int == hex_val(part[5]) && l < 16);
                let d = (16 * h + l) as char;
                assert(d == ((16 * hex_val(part[4]) + hex_val(part[5])) as u8) as char);
                assert(part.skip(6) =~= v@.skip(j + 6));
                proof {
                    if spec_parse_jstring(s0) matches Some(w) {
                        let p = spec_parse_jstring(part).unwrap();
                        let q = spec_parse_jstring(v@.skip(j + 6)).unwrap();
                        assert(p.0 == seq![d] + q.0);
                        assert(acc@ + (seq![d] + q.0) =~= acc@.push(d) + q.0);
                    }
                }
                acc.push(d);
                j += 6;
            } else {
                return None;
            }
        } else if (c as u32) < 32 {
            return None;
        } else {
            assert(part.drop_first() =~= v@.skip(j + 1));
            proof {
                if spec_parse_jstring(s0) matches Some(w) {
                    let p = spec_parse_jstring(part).unwrap();
                    let q = spec_parse_jstring(v@.skip(j + 1)).unwrap();
                    assert(p.0 == seq![c] + q.0);
                    assert(acc@ + (seq![c] + q.0) =~= acc@.push(c) + q.0);
                }
            }
            acc.push(c);
            j += 1;
        }
    }
}

/// Unescaping undoes escaping: parsing the escaped form of `s` followed by a
/// closing quote and arbitrary further input yields `s` and that input.
pub proof fn lemma_jstring_round_trip(s: Seq<char>, rest: Seq<char>)
    ensures
        spec_parse_jstring(json_escape(s) + seq!['"'] + rest) == Some((s, rest)),
    decreases s.len(),
{
    if s.len() == 0 {
        let t = json_escape(s) + seq!['"'] + rest;
        assert(t =~= seq!['"'] + rest);
        assert(t[0] == '"');
        assert(t.drop_first() =~= rest);
        assert(spec_parse_jstring(t) == Some((Seq::<char>::empty(), rest)));
        assert(Seq::<char>::empty() =~= s);
    } else {
        let c = s[0];
        let s1 = s.drop_first();
        lemma_jstring_round_trip(s1, rest);
        let tail = json_escape(s1) + seq!['"'] + rest;
        let t = json_escape(s) + seq!['"'] + rest;
        assert(json_escape(s) == esc_char(c) + json_escape(s1));
        assert(t =~= esc_char(c) + tail);
        if c == '"' {
            assert(t[0] == '\\' && t[1] == '"');
            assert(t.skip(2) =~= tail);
            assert(spec_parse_jstring(t) == Some((seq![c] + s1, rest)));
            assert(seq![c] + s1 =~= s);
        } else if c == '\\' {
            assert(t[0] == '\\' && t[1] == '\\');
            assert(t.skip(2) =~= tail);
            assert(spec_parse_jstring(t) == Some((seq![c] + s1, rest)));
            assert(seq![c] + s1 =~= s);
        } else if (c as u32) < 32 {
            let hi = (c as u32 / 16) as int;
            let lo = (c as u32 % 16) as int;
            lemma_hex_digit(hi);
            lemma_hex_digit(lo);
            assert(t[0] == '\\' && t[1] == 'u' && t[2] == '0' && t[3] == '0');
            assert(t[4] == hex_digit_char(hi) && t[5] == hex_digit_char(lo));
            assert(t.len() >= 6);
            assert(is_hex_digit(t[4]) && is_hex_digit(t[5]));
            assert(t[4] != '"' && t[1] == 'u');
            assert(t.skip(6) =~= tail);
            let d = ((16 * hex_val(t[4]) + hex_val(t[5])) as u8) as char;
            assert(16 * hex_val(t[4]) + hex_val(t[5]) == c as u32 as int);
            assert(d == ((c as u32) as u8) as char);
            let b = ((c as u32) as u8);
            assert(b as int == (c as u32) as int);
            assert(b as char == (c as u32) as char);
            vstd::utf8::char_u32_cast(c, c as u32);
            assert(d == c);
            assert(spec_parse_jstring(t) == Some((seq![c] + s1, rest)));
            assert(seq![c] + s1 =~= s);
        } else {
            assert(t[0] == c);
            assert(t.drop_first() =~= tail);
            assert(spec_parse_jstring(t) == Some((seq![c] + s1, rest)));
            assert(seq![c] + s1 =~= s);
        }
    }
}

// ===== literal matching =====

/// Succeeds when `lit` is a prefix of `s`, yielding what follows it.
pub open spec fn spec_expect(s: Seq<char>, lit: Seq<char>) -> Option<Seq<char>> {
    if lit.len() <= s.len() && s.take(lit.len() as int) == lit {
        Some(s.skip(lit.len() as int))
    } else {
        None
    }
}

/// A literal at the front of the input is always matched.
pub proof fn lemma_expect_prefix(lit: Seq<char>, rest: Seq<char>)
    ensures
        spec_expect(lit + rest, lit) == Some(rest),
{
    assert((lit + rest).take(lit.len() as int) =~= lit);
    assert((lit + rest).skip(lit.len() as int) =~= rest);
}

/// Match the literal `lit` at position `i` of `v`; on success the returned
/// index sits just past it.
pub fn expect_str(v: &Vec<char>, i: usize, lit: &str) -> (r: Option<usize>)
    requires
        i <= v@.len(),
    ensures
        match spec_expect(v@.skip(i as int), lit@) {
            Some(rest) => {
                &&& r matches Some(j)
                &&& i <= j <= v@.len()
                &&& j == i + lit@.len()
                &&& v@.skip(j as int) == rest
            },
            None => r is None,
        },
{
    let ghost s = v@.skip(i as int);
    let n = lit.unicode_len();
    let len = v.len();
    if len - i < n {
        assert(spec_expect(s, lit@) is None);
        return None;
    }
    let m = i + n;
    let mut j: usize = i;
    while j < m
        invariant
            i <= j <= m,
            m == i + n,
            i <= v@.len(),
            n == lit@.len(),
            m <= v@.len(),
            s == v@.skip(i as int),
            forall|t: int| 0 <= t < j - i ==> s[t] == lit@[t],
        decreases m - j,
    {
        let ghost k = j - i;
        let c = v[j];
        assert(c == s[k as int]);
        if c != lit.get_char(j - i) {
            proof {
                if spec_expect(s, lit@) is Some {
                    assert(s.take(n as int)[k as int] == s[k as int]);
                    assert(false);
                }
            }
            return None;
        }
        j += 1;
    }
    assert(s.take(n as int) =~= lit@);
    assert(v@.skip((i + n) as int) =~= s.skip(n as int));
    Some(m)
}

// ===== whitespace between tokens =====

/// Length of the run of spaces at the front of `s`.
pub open spec fn ws_count(s: Seq<char>) -> int
    decreases s.len(),
{
    if s.len() > 0 && s[0] == ' ' {
        1 + ws_count(s.drop_first())
    } else {
        0
    }
}

pub proof fn lemma_ws_count(s: Seq<char>)
    ensures
        0 <= ws_count(s) <= s.len(),
    decreases s.len(),
{
    if s.len() > 0 && s[0] == ' ' {
        lemma_ws_count(s.drop_first());
    }
}

/// `s` without its leading spaces.
pub open spec fn skip_ws(s: Seq<char>) -> Seq<char> {
    s.skip(ws_count(s))
}

/// A sequence that does not begin with a space keeps itself.
pub proof fn lemma_skip_ws_id(s: Seq<char>)
    requires
        s.len() == 0 || s[0] != ' ',
    ensures
        skip_ws(s) == s,
{
    assert(ws_count(s) == 0);
    assert(s.skip(0) =~= s);
}

/// Move past the spaces at position `i` of `v`.
pub fn skip_ws_at(v: &Vec<char>, i: usize) -> (j: usize)
    requires
        i <= v@.len(),
    ensures
        i <= j <= v@.len(),
        v@.skip(j as int) == skip_ws(v@.skip(i as int)),
{
    proof {
        lemma_ws_count(v@.skip(i as int));
    }
    let mut j: usize = i;
    while j < v.len() && v[j] == ' '
        invariant
            i <= j <= v@.len(),
            ws_count(v@.skip(i as int)) == (j - i) + ws_count(v@.skip(j as int)),
        decreases v@.len() - j,
    {
        proof {
            let suffix = v@.skip(j as int);
            assert(suffix[0] == v@[j as int]);
            assert(suffix.drop_first() =~= v@.skip(j + 1));
        }
        j += 1;
    }
    proof {
        let suffix = v@.skip(j as int);
        if j < v@.len() {
            assert(suffix[0] == v@[j as int]);
        }
        assert(ws_count(suffix) == 0);
        assert(v@.skip(i as int).skip((j - i) as int) =~= v@.skip(j as int));
    }
    j
}

/// Like `spec_expect`, with any leading spaces forgiven.
pub open spec fn spec_expect_ws(s: Seq<char>, lit: Seq<char>) -> Option<Seq<char>> {
    spec_expect(skip_ws(s), lit)
}

/// A literal that does not begin with a space is matched at the front.
pub proof fn lemma_expect_ws_prefix(lit: Seq<char>, rest: Seq<char>)
    requires
        lit.len() > 0,
        lit[0] != ' ',
    ensures
        spec_expect_ws(lit + rest, lit) == Some(rest),
{
    assert((lit + rest)[0] == lit[0]);
    lemma_skip_ws_id(lit + rest);
    lemma_expect_prefix(lit, rest);
}

/// Match `lit` at position `i` of `v`, past any spaces.
pub fn expect_ws(v: &Vec<char>, i: usize, lit: &str) -> (r: Option<usize>)
    requires
        i <= v@.len(),
    ensures
        match spec_expect_ws(v@.skip(i as int), lit@) {
            Some(rest) => {
                &&& r matches Some(j)
                &&& i <= j <= v@.len()
                &&& v@.skip(j as int) == rest
            },
            None => r is None,
        },
{
    let j = skip_ws_at(v, i);
    expect_str(v, j, lit)
}

/// Match a quoted key and its following colon, each past any spaces.
pub open spec fn spec_key_colon(s: Seq<char>, key: Seq<char>) -> Option<Seq<char>> {
    match spec_expect_ws(s, key) {
        Some(r) => spec_expect_ws(r, ":"@),
        None => None,
    }
}

pub proof fn lemma_key_colon_prefix(key: Seq<char>, rest: Seq<char>)
    requires
        key.len() > 0,
        key[0] != ' ',
    ensures
        spec_key_colon(key + (":"@ + rest), key) == Some(rest),
{
    reveal_strlit(":");
    lemma_expect_ws_prefix(key, ":"@ + rest);
    lemma_expect_ws_prefix(":"@, rest);
}

/// Match a quoted key and its colon at position `i` of `v`.
pub fn key_colon_at(v: &Vec<char>, i: usize, key: &str) -> (r: Option<usize>)
    requires
        i <= v@.len(),
    ensures
        match spec_key_colon(v@.skip(i as int), key@) {
            Some(rest) => {
                &&& r matches Some(j)
                &&& i <= j <= v@.len()
                &&& v@.skip(j as int) == rest
            },
            None => r is None,
        },
{
    match expect_ws(v, i, key) {
        Some(j) => expect_ws(v, j, ":"),
        None => None,
    }
}

} // verus!
