//! Character and text helpers: comparison, decimal formatting and parsing.
use vstd::prelude::*;
use vstd::string::*;

use crate::search::{first_match, lemma_first_match_is, lemma_first_match_none};

verus! {

/// Equality of two string slices, character by character.
pub(crate) fn str_eq(a: &str, b: &str) -> (r: bool)
    ensures
        r == (a@ == b@),
{
    let n = a.unicode_len();
    if n != b.unicode_len() {
        return false;
    }
    let mut i: usize = 0;
    while i < n
        invariant
            n == a@.len(),
            n == b@.len(),
            i <= n,
            forall|j: int| 0 <= j < i ==> a@[j] == b@[j],
        decreases n - i,
    {
        if a.get_char(i) != b.get_char(i) {
            return false;
        }
        i = i + 1;
    }
    assert(a@ =~= b@);
    true
}

/// Appends one character.
///
/// Calls `String::push`; the contract claims that the character is added at
/// the end and nothing else changes.
#[verifier::external_body]
pub(crate) fn push_char(s: &mut String, c: char)
    ensures
        final(s)@ == old(s)@.push(c),
{
    s.push(c)
}

/// The characters of a text, in order.
pub fn to_chars(s: &str) -> (r: Vec<char>)
    ensures
        r@ == s@,
{
    let n = s.unicode_len();
    let mut out: Vec<char> = Vec::new();
    let mut i: usize = 0;
    while i < n
        invariant
            n == s@.len(),
            i <= n,
            out@ == s@.subrange(0, i as int),
        decreases n - i,
    {
        let c = s.get_char(i);
        out.push(c);
        i = i + 1;
        assert(out@ =~= s@.subrange(0, i as int));
    }
    assert(out@ =~= s@);
    out
}

/// Appends a sequence of characters to a string.
pub fn push_chars(s: &mut String, cs: &Vec<char>)
    ensures
        final(s)@ == old(s)@ + cs@,
{
    let mut i: usize = 0;
    while i < cs.len()
        invariant
            i <= cs.len(),
            s@ == old(s)@ + cs@.subrange(0, i as int),
        decreases cs.len() - i,
    {
        push_char(s, cs[i]);
        i = i + 1;
        assert(s@ =~= old(s)@ + cs@.subrange(0, i as int));
    }
    assert(cs@.subrange(0, cs.len() as int) =~= cs@);
}

/// A string holding the given characters.
pub fn string_from_chars(cs: &Vec<char>) -> (r: String)
    ensures
        r@ == cs@,
{
    let mut s = String::new();
    push_chars(&mut s, cs);
    assert(s@ =~= cs@);
    s
}

/// The concatenation of two texts.
pub fn concat(a: &str, b: &str) -> (r: String)
    ensures
        r@ == a@ + b@,
{
    let mut s = String::from_str(a);
    s.append(b);
    s
}

pub open spec fn is_lower(c: char) -> bool {
    'a' <= c && c <= 'z'
}

pub open spec fn is_upper(c: char) -> bool {
    'A' <= c && c <= 'Z'
}

pub open spec fn is_digit(c: char) -> bool {
    '0' <= c && c <= '9'
}

pub open spec fn is_alnum(c: char) -> bool {
    is_lower(c) || is_upper(c) || is_digit(c)
}

pub open spec fn lower_char(c: char) -> char {
    if is_upper(c) {
        ((c as u32) + 32) as char
    } else {
        c
    }
}

pub open spec fn upper_char(c: char) -> char {
    if is_lower(c) {
        ((c as u32) - 32) as char
    } else {
        c
    }
}

/// `char::to_ascii_lowercase`.
pub fn to_lower(c: char) -> (r: char)
    ensures
        r == lower_char(c),
{
    if 'A' <= c && c <= 'Z' {
        let u = (c as u32) + 32;
        let b = u as u8;
        b as char
    } else {
        c
    }
}

/// `char::to_ascii_uppercase`.
pub fn to_upper(c: char) -> (r: char)
    ensures
        r == upper_char(c),
{
    if 'a' <= c && c <= 'z' {
        let u = (c as u32) - 32;
        let b = u as u8;
        b as char
    } else {
        c
    }
}

pub open spec fn digit_char(d: int) -> char {
    (d + 48) as char
}

/// Decimal digits of a natural number, most significant first.
pub open spec fn nat_text(n: nat) -> Seq<char>
    decreases n,
{
    if n < 10 {
        seq![digit_char(n as int)]
    } else {
        nat_text(n / 10).push(digit_char((n % 10) as int))
    }
}

/// Decimal text of an integer, as `Display` writes it: a `-` before a negative value.
pub open spec fn int_text(i: int) -> Seq<char> {
    if i < 0 {
        seq!['-'] + nat_text((-i) as nat)
    } else {
        nat_text(i as nat)
    }
}

fn push_decimal(s: &mut String, n: u64)
    ensures
        final(s)@ == old(s)@ + nat_text(n as nat),
    decreases n,
{
    if n >= 10 {
        push_decimal(s, n / 10);
    }
    let d = (n % 10) as u8;
    let c = (d + 48) as char;
    push_char(s, c);
    assert(s@ =~= old(s)@ + nat_text(n as nat));
}

/// `u64::to_string`.
pub fn u64_text(n: u64) -> (r: String)
    ensures
        r@ == nat_text(n as nat),
{
    let mut s = String::new();
    push_decimal(&mut s, n);
    assert(s@ =~= nat_text(n as nat));
    s
}

/// `i64::to_string`.
pub fn i64_text(i: i64) -> (r: String)
    ensures
        r@ == int_text(i as int),
{
    let mut s = String::new();
    if i < 0 {
        push_char(&mut s, '-');
        let m: u64 = ((-(i + 1)) as u64) + 1;
        push_decimal(&mut s, m);
    } else {
        push_decimal(&mut s, i as u64);
    }
    assert(s@ =~= int_text(i as int));
    s
}

pub open spec fn all_digits(s: Seq<char>) -> bool {
    forall|i: int| 0 <= i < s.len() ==> is_digit(#[trigger] s[i])
}

/// The value of a sequence of decimal digits.
pub open spec fn digits_value(s: Seq<char>) -> nat
    decreases s.len(),
{
    if s.len() == 0 {
        0
    } else {
        digits_value(s.drop_last()) * 10 + ((s.last() as int) - 48) as nat
    }
}

/// The number that `str::parse` reads for an unsigned integer type, before
/// the range check: an optional `+` and at least one decimal digit.
pub open spec fn unsigned_text_value(s: Seq<char>) -> Option<nat> {
    let body = if s.len() > 0 && s[0] == '+' {
        s.skip(1)
    } else {
        s
    };
    if body.len() > 0 && all_digits(body) {
        Some(digits_value(body))
    } else {
        None
    }
}

/// The number that `str::parse` reads for a signed integer type, before the
/// range check: an optional `+` or `-` and at least one decimal digit.
pub open spec fn signed_text_value(s: Seq<char>) -> Option<int> {
    if s.len() > 0 && s[0] == '-' {
        let body = s.skip(1);
        if body.len() > 0 && all_digits(body) {
            Some(-(digits_value(body) as int))
        } else {
            None
        }
    } else {
        match unsigned_text_value(s) {
            Some(n) => Some(n as int),
            None => None,
        }
    }
}

pub open spec fn capped(v: nat, cap: nat) -> nat {
    if v < cap {
        v
    } else {
        cap
    }
}

/// Reads the digits of `cs` from `start` on; the value is capped at `cap`.
fn read_digits(cs: &Vec<char>, start: usize, cap: u128) -> (r: Option<u128>)
    requires
        start <= cs.len(),
        cap <= 0x1_0000_0000_0000_0001u128,
    ensures
        match r {
            Some(v) => {
                &&& cs@.len() > start
                &&& all_digits(cs@.skip(start as int))
                &&& v == capped(digits_value(cs@.skip(start as int)), cap as nat)
            },
            None => !(cs@.len() > start && all_digits(cs@.skip(start as int))),
        },
{
    if start == cs.len() {
        return None;
    }
    let mut acc: u128 = 0;
    let mut i: usize = start;
    while i < cs.len()
        invariant
            start <= i <= cs.len(),
            cap <= 0x1_0000_0000_0000_0001u128,
            all_digits(cs@.subrange(start as int, i as int)),
            acc == capped(digits_value(cs@.subrange(start as int, i as int)), cap as nat),
        decreases cs.len() - i,
    {
        let c = cs[i];
        if !('0' <= c && c <= '9') {
            proof {
                let t = cs@.skip(start as int);
                assert(t[i - start] == c);
            }
            return None;
        }
        let d = ((c as u32) - 48) as u128;
        let ghost prev = cs@.subrange(start as int, i as int);
        let ghost next = cs@.subrange(start as int, i + 1);
        proof {
            assert(next.drop_last() =~= prev);
            assert(next.last() == c);
            let v = digits_value(prev);
            assert(digits_value(next) == v * 10 + d);
            if v >= cap {
                assert(v * 10 + d >= cap) by (nonlinear_arith)
                    requires
                        v >= cap,
                        d >= 0,
                ;
            }
        }
        let t = acc * 10 + d;
        acc = if t < cap {
            t
        } else {
            cap
        };
        i = i + 1;
        proof {
            assert forall|j: int| 0 <= j < next.len() implies is_digit(#[trigger] next[j]) by {
                if j < prev.len() {
                    assert(next[j] == prev[j]);
                }
            }
        }
    }
    assert(cs@.subrange(start as int, cs.len() as int) =~= cs@.skip(start as int));
    Some(acc)
}

/// `str::parse::<u32>`: `None` where the standard library returns an error.
pub fn parse_u32_text(s: &str) -> (r: Option<u32>)
    ensures
        r == (match unsigned_text_value(s@) {
            Some(n) => if n <= u32::MAX {
                Some(n as u32)
            } else {
                None
            },
            None => None,
        }),
{
    let cs = to_chars(s);
    let start: usize = if cs.len() > 0 && cs[0] == '+' {
        1
    } else {
        0
    };
    assert(cs@.skip(0) =~= cs@);
    match read_digits(&cs, start, 0x1_0000_0000u128) {
        Some(v) => {
            if v <= 0xffff_ffffu128 {
                Some(v as u32)
            } else {
                None
            }
        },
        None => None,
    }
}

/// `str::parse::<i64>`: `None` where the standard library returns an error.
pub fn parse_i64_text(s: &str) -> (r: Option<i64>)
    ensures
        r == (match signed_text_value(s@) {
            Some(n) => if i64::MIN <= n <= i64::MAX {
                Some(n as i64)
            } else {
                None
            },
            None => None,
        }),
{
    let cs = to_chars(s);
    assert(cs@.skip(0) =~= cs@);
    if cs.len() > 0 && cs[0] == '-' {
        match read_digits(&cs, 1, 0x8000_0000_0000_0001u128) {
            Some(v) => {
                if v <= 0x8000_0000_0000_0000u128 {
                    let m = v as i128;
                    Some((0 - m) as i64)
                } else {
                    None
                }
            },
            None => None,
        }
    } else {
        let start: usize = if cs.len() > 0 && cs[0] == '+' {
            1
        } else {
            0
        };
        match read_digits(&cs, start, 0x8000_0000_0000_0000u128) {
            Some(v) => {
                if v <= 0x7fff_ffff_ffff_ffffu128 {
                    Some(v as i64)
                } else {
                    None
                }
            },
            None => None,
        }
    }
}

/// The characters `v[a..b]`.
pub fn chars_range(v: &Vec<char>, a: usize, b: usize) -> (r: Vec<char>)
    requires
        a <= b <= v.len(),
    ensures
        r@ == v@.subrange(a as int, b as int),
{
    let mut out: Vec<char> = Vec::new();
    let mut i: usize = a;
    while i < b
        invariant
            a <= i <= b <= v.len(),
            out@ == v@.subrange(a as int, i as int),
        decreases b - i,
    {
        out.push(v[i]);
        i = i + 1;
        assert(out@ =~= v@.subrange(a as int, i as int));
    }
    out
}

pub open spec fn is_char(c: char) -> spec_fn(char) -> bool {
    |x: char| x == c
}

/// The position of the first `c` in `v`.
pub fn find_char(v: &Vec<char>, c: char) -> (r: Option<usize>)
    ensures
        match r {
            Some(i) => first_match(v@, is_char(c)) == Some(i as int),
            None => first_match(v@, is_char(c)) is None,
        },
{
    let mut i: usize = 0;
    while i < v.len()
        invariant
            i <= v.len(),
            forall|j: int| 0 <= j < i ==> !is_char(c)(#[trigger] v@[j]),
        decreases v.len() - i,
    {
        if v[i] == c {
            proof {
                lemma_first_match_is(v@, is_char(c), i as int);
            }
            return Some(i);
        }
        i = i + 1;
    }
    proof {
        lemma_first_match_none(v@, is_char(c));
    }
    None
}

pub open spec fn ends_with(s: Seq<char>, suffix: Seq<char>) -> bool {
    s.len() >= suffix.len() && s.subrange(s.len() - suffix.len(), s.len() as int) == suffix
}

/// `str::ends_with` for a text suffix.
pub fn str_ends_with(s: &str, suffix: &str) -> (r: bool)
    ensures
        r == ends_with(s@, suffix@),
{
    let a = to_chars(s);
    let b = to_chars(suffix);
    if a.len() < b.len() {
        return false;
    }
    let off = a.len() - b.len();
    let mut i: usize = 0;
    while i < b.len()
        invariant
            a@ == s@,
            b@ == suffix@,
            off == a.len() - b.len(),
            i <= b.len(),
            forall|j: int| 0 <= j < i ==> a@[off + j] == b@[j],
        decreases b.len() - i,
    {
        if a[off + i] != b[i] {
            proof {
                let t = a@.subrange(off as int, a@.len() as int);
                assert(t[i as int] != b@[i as int]);
            }
            return false;
        }
        i = i + 1;
    }
    assert(a@.subrange(off as int, a@.len() as int) =~= b@);
    true
}

/// The text with its ASCII letters in lowercase.
pub open spec fn lowered(s: Seq<char>) -> Seq<char> {
    s.map_values(|c: char| lower_char(c))
}

/// The text without one leading `+` or `-`.
pub open spec fn sign_stripped(t: Seq<char>) -> Seq<char> {
    if t.len() > 0 && (t[0] == '+' || t[0] == '-') {
        t.skip(1)
    } else {
        t
    }
}

/// Digits with at most one `.`, and at least one digit.
pub open spec fn mantissa_text(m: Seq<char>) -> bool {
    match first_match(m, is_char('.')) {
        None => m.len() > 0 && all_digits(m),
        Some(d) => all_digits(m.take(d)) && all_digits(m.skip(d + 1)) && m.len() > 1,
    }
}

/// An exponent after the `e`: an optional sign and at least one digit.
pub open spec fn exponent_text(x: Seq<char>) -> bool {
    sign_stripped(x).len() > 0 && all_digits(sign_stripped(x))
}

/// A decimal number: a mantissa, then optionally `e` and an exponent.
pub open spec fn decimal_text(b: Seq<char>) -> bool {
    match first_match(b, is_char('e')) {
        None => mantissa_text(b),
        Some(k) => mantissa_text(b.take(k)) && exponent_text(b.skip(k + 1)),
    }
}

/// The texts that `str::parse::<f64>` reads, as its documentation gives
/// their grammar once lowercased: an optional sign, then `inf`, `infinity`,
/// `nan`, or digits with an optional `.` (and a digit on at least one side)
/// followed by an optional exponent `e`, sign and digits.
pub open spec fn f64_text(s: Seq<char>) -> bool {
    let b = sign_stripped(lowered(s));
    b == "inf"@ || b == "infinity"@ || b == "nan"@ || decimal_text(b)
}

fn digits_only(v: &Vec<char>) -> (r: bool)
    ensures
        r == all_digits(v@),
{
    let mut i: usize = 0;
    while i < v.len()
        invariant
            i <= v.len(),
            forall|j: int| 0 <= j < i ==> is_digit(#[trigger] v@[j]),
        decreases v.len() - i,
    {
        if !('0' <= v[i] && v[i] <= '9') {
            return false;
        }
        i = i + 1;
    }
    true
}

fn without_sign(v: &Vec<char>) -> (r: Vec<char>)
    ensures
        r@ == sign_stripped(v@),
{
    if v.len() > 0 && (v[0] == '+' || v[0] == '-') {
        let r = chars_range(v, 1, v.len());
        assert(r@ =~= v@.skip(1));
        r
    } else {
        chars_range(v, 0, v.len())
    }
}

fn mantissa_ok(m: &Vec<char>) -> (r: bool)
    ensures
        r == mantissa_text(m@),
{
    let found = find_char(m, '.');
    match found {
        None => m.len() > 0 && digits_only(m),
        Some(d) => {
            assert(first_match(m@, is_char('.')) == Some(d as int));
            proof {
                assert(crate::search::any_match(m@, is_char('.')));
                crate::search::lemma_first_match_some(m@, is_char('.'));
                assert(crate::search::is_first(m@, is_char('.'), first_match(m@, is_char('.'))->0));
                assert(d < m@.len());
            }
            let n = m.len();
            let a = chars_range(m, 0, d);
            let b = chars_range(m, d + 1, n);
            assert(a@ =~= m@.take(d as int));
            assert(b@ =~= m@.skip(d + 1));
            digits_only(&a) && digits_only(&b) && m.len() > 1
        },
    }
}

fn exponent_ok(x: &Vec<char>) -> (r: bool)
    ensures
        r == exponent_text(x@),
{
    let y = without_sign(x);
    y.len() > 0 && digits_only(&y)
}

/// Whether `str::parse::<f64>` reads the text.
pub fn is_f64_text(s: &str) -> (r: bool)
    ensures
        r == f64_text(s@),
{
    let cs = to_chars(s);
    let mut low: Vec<char> = Vec::new();
    let mut i: usize = 0;
    while i < cs.len()
        invariant
            cs@ == s@,
            i <= cs.len(),
            low.len() == i,
            forall|j: int| 0 <= j < i ==> #[trigger] low@[j] == lower_char(cs@[j]),
        decreases cs.len() - i,
    {
        low.push(to_lower(cs[i]));
        i = i + 1;
    }
    assert(low@ =~= lowered(s@));
    let b = without_sign(&low);
    let t = string_from_chars(&b);
    if str_eq(t.as_str(), "inf") || str_eq(t.as_str(), "infinity") || str_eq(t.as_str(), "nan") {
        return true;
    }
    let found = find_char(&b, 'e');
    match found {
        None => mantissa_ok(&b),
        Some(k) => {
            assert(first_match(b@, is_char('e')) == Some(k as int));
            proof {
                assert(crate::search::any_match(b@, is_char('e')));
                crate::search::lemma_first_match_some(b@, is_char('e'));
                assert(crate::search::is_first(b@, is_char('e'), first_match(b@, is_char('e'))->0));
                assert(k < b@.len());
            }
            let n = b.len();
            let m = chars_range(&b, 0, k);
            let x = chars_range(&b, k + 1, n);
            assert(m@ =~= b@.take(k as int));
            assert(x@ =~= b@.skip(k + 1));
            mantissa_ok(&m) && exponent_ok(&x)
        },
    }
}

/// `t` occurs in `s` at position `i`.
pub open spec fn occurs_at(s: Seq<char>, t: Seq<char>, i: int) -> bool {
    0 <= i && i + t.len() <= s.len() && s.subrange(i, i + t.len()) == t
}

/// `t` occurs somewhere in `s`.
pub open spec fn contains_text(s: Seq<char>, t: Seq<char>) -> bool {
    exists|i: int| occurs_at(s, t, i)
}

fn occurs_at_exec(a: &Vec<char>, b: &Vec<char>, i: usize) -> (r: bool)
    requires
        i + b.len() <= a.len(),
    ensures
        r == occurs_at(a@, b@, i as int),
{
    let mut j: usize = 0;
    while j < b.len()
        invariant
            i + b.len() <= a.len(),
            j <= b.len(),
            forall|k: int| 0 <= k < j ==> a@[i + k] == b@[k],
        decreases b.len() - j,
    {
        if a[i + j] != b[j] {
            proof {
                let t = a@.subrange(i as int, i + b.len());
                assert(t[j as int] != b@[j as int]);
            }
            return false;
        }
        j = j + 1;
    }
    assert(a@.subrange(i as int, i + b.len()) =~= b@);
    true
}

/// `str::contains` for a text pattern.
pub fn text_contains(s: &str, t: &str) -> (r: bool)
    ensures
        r == contains_text(s@, t@),
{
    let a = to_chars(s);
    let b = to_chars(t);
    if a.len() < b.len() {
        assert forall|i: int| !occurs_at(s@, t@, i) by {}
        return false;
    }
    let last = a.len() - b.len();
    let mut i: usize = 0;
    while i <= last
        invariant
            a@ == s@,
            b@ == t@,
            last == a.len() - b.len(),
            forall|k: int| 0 <= k < i ==> !occurs_at(s@, t@, k),
        decreases last + 1 - i,
    {
        if occurs_at_exec(&a, &b, i) {
            return true;
        }
        if i == last {
            assert forall|k: int| !occurs_at(s@, t@, k) by {
                if 0 <= k <= last {
                    assert(k < i || k == i);
                }
            }
            return false;
        }
        i = i + 1;
    }
    false
}

/// The parts joined with `sep` between consecutive parts.
pub open spec fn join(parts: Seq<Seq<char>>, sep: Seq<char>) -> Seq<char>
    decreases parts.len(),
{
    if parts.len() == 0 {
        Seq::empty()
    } else if parts.len() == 1 {
        parts[0]
    } else {
        join(parts.drop_last(), sep) + sep + parts.last()
    }
}

pub open spec fn strings_view(v: Seq<String>) -> Seq<Seq<char>> {
    v.map_values(|s: String| s@)
}

/// `[String]::join`.
pub fn join_strings(parts: &Vec<String>, sep: &str) -> (r: String)
    ensures
        r@ == join(strings_view(parts@), sep@),
{
    let ghost pv = strings_view(parts@);
    let mut out = String::new();
    let mut i: usize = 0;
    while i < parts.len()
        invariant
            i <= parts.len(),
            pv == strings_view(parts@),
            out@ == join(pv.take(i as int), sep@),
        decreases parts.len() - i,
    {
        proof {
            assert(pv.take(i + 1).drop_last() =~= pv.take(i as int));
        }
        if i > 0 {
            out.append(sep);
        }
        out.append(parts[i].as_str());
        i = i + 1;
        proof {
            if i == 1 {
                assert(out@ =~= pv.take(1)[0]);
            }
        }
    }
    assert(pv.take(parts.len() as int) =~= pv);
    out
}

/// `s` without the leading `c` characters.
pub open spec fn trim_start_char(s: Seq<char>, c: char) -> Seq<char>
    decreases s.len(),
{
    if s.len() > 0 && s[0] == c {
        trim_start_char(s.skip(1), c)
    } else {
        s
    }
}

/// `s` without the trailing `c` characters.
pub open spec fn trim_end_char(s: Seq<char>, c: char) -> Seq<char>
    decreases s.len(),
{
    if s.len() > 0 && s.last() == c {
        trim_end_char(s.drop_last(), c)
    } else {
        s
    }
}

/// `s` without the leading and trailing `c` characters.
pub open spec fn trim_char(s: Seq<char>, c: char) -> Seq<char> {
    trim_end_char(trim_start_char(s, c), c)
}

fn trim_start_index(cs: &Vec<char>, c: char) -> (r: usize)
    ensures
        r <= cs.len(),
        trim_start_char(cs@, c) == cs@.skip(r as int),
{
    let mut i: usize = 0;
    assert(cs@.skip(0) =~= cs@);
    while i < cs.len() && cs[i] == c
        invariant
            i <= cs.len(),
            trim_start_char(cs@, c) == trim_start_char(cs@.skip(i as int), c),
        decreases cs.len() - i,
    {
        assert(cs@.skip(i as int).skip(1) =~= cs@.skip(i + 1));
        i = i + 1;
    }
    assert(cs@.skip(0) =~= cs@);
    i
}

fn trim_end_index(cs: &Vec<char>, start: usize, c: char) -> (r: usize)
    requires
        start <= cs.len(),
    ensures
        start <= r <= cs.len(),
        trim_end_char(cs@.subrange(start as int, cs.len() as int), c) == cs@.subrange(start as int, r as int),
{
    let mut j: usize = cs.len();
    while j > start && cs[j - 1] == c
        invariant
            start <= j <= cs.len(),
            trim_end_char(cs@.subrange(start as int, cs.len() as int), c) == trim_end_char(cs@.subrange(start as int, j as int), c),
        decreases j,
    {
        assert(cs@.subrange(start as int, j as int).drop_last() =~= cs@.subrange(start as int, j - 1));
        j = j - 1;
    }
    j
}

/// `str::trim_end_matches` for one character.
pub fn trim_end_matches(s: &str, c: char) -> (r: String)
    ensures
        r@ == trim_end_char(s@, c),
{
    let cs = to_chars(s);
    assert(cs@.subrange(0, cs.len() as int) =~= cs@);
    let j = trim_end_index(&cs, 0, c);
    let t = chars_range(&cs, 0, j);
    string_from_chars(&t)
}

/// `str::trim_matches` for one character.
pub fn trim_matches(s: &str, c: char) -> (r: String)
    ensures
        r@ == trim_char(s@, c),
{
    let cs = to_chars(s);
    let i = trim_start_index(&cs, c);
    assert(cs@.skip(i as int) =~= cs@.subrange(i as int, cs.len() as int));
    let j = trim_end_index(&cs, i, c);
    let t = chars_range(&cs, i, j);
    string_from_chars(&t)
}

/// Lexicographic order of texts by character, which is the byte order of
/// their UTF-8 encodings.
pub open spec fn str_le(a: Seq<char>, b: Seq<char>) -> bool
    decreases a.len(),
{
    if a.len() == 0 {
        true
    } else if b.len() == 0 {
        false
    } else if a[0] != b[0] {
        a[0] < b[0]
    } else {
        str_le(a.skip(1), b.skip(1))
    }
}

pub proof fn lemma_str_le_refl(a: Seq<char>)
    ensures
        str_le(a, a),
    decreases a.len(),
{
    if a.len() > 0 {
        lemma_str_le_refl(a.skip(1));
    }
}

pub proof fn lemma_str_le_total(a: Seq<char>, b: Seq<char>)
    ensures
        str_le(a, b) || str_le(b, a),
    decreases a.len(),
{
    if a.len() > 0 && b.len() > 0 && a[0] == b[0] {
        lemma_str_le_total(a.skip(1), b.skip(1));
    }
}

pub proof fn lemma_str_le_antisym(a: Seq<char>, b: Seq<char>)
    requires
        str_le(a, b),
        str_le(b, a),
    ensures
        a == b,
    decreases a.len(),
{
    if a.len() > 0 && b.len() > 0 {
        if a[0] == b[0] {
            lemma_str_le_antisym(a.skip(1), b.skip(1));
            assert(a =~= seq![a[0]] + a.skip(1));
            assert(b =~= seq![b[0]] + b.skip(1));
        }
    }
}

pub proof fn lemma_str_le_trans(a: Seq<char>, b: Seq<char>, c: Seq<char>)
    requires
        str_le(a, b),
        str_le(b, c),
    ensures
        str_le(a, c),
    decreases a.len(),
{
    if a.len() > 0 && b.len() > 0 && c.len() > 0 {
        if a[0] == b[0] && b[0] == c[0] {
            lemma_str_le_trans(a.skip(1), b.skip(1), c.skip(1));
        }
    }
}

/// `a <= b` for texts, as `Ord` for `str` compares them.
pub fn text_le(a: &str, b: &str) -> (r: bool)
    ensures
        r == str_le(a@, b@),
{
    let x = to_chars(a);
    let y = to_chars(b);
    let mut i: usize = 0;
    assert(x@.skip(0) =~= x@);
    assert(y@.skip(0) =~= y@);
    while i < x.len() && i < y.len() && x[i] == y[i]
        invariant
            i <= x.len(),
            i <= y.len(),
            x@ == a@,
            y@ == b@,
            str_le(a@, b@) == str_le(x@.skip(i as int), y@.skip(i as int)),
        decreases x.len() - i,
    {
        assert(x@.skip(i as int).skip(1) =~= x@.skip(i + 1));
        assert(y@.skip(i as int).skip(1) =~= y@.skip(i + 1));
        i = i + 1;
    }
    if i == x.len() {
        true
    } else if i == y.len() {
        false
    } else {
        x[i] < y[i]
    }
}

} // verus!
