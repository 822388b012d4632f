//! Small verified text utilities: decimal rendering and parsing of the
//! identifiers and counters that travel as strings on the wire, and
//! character-wise string comparison.

use vstd::prelude::*;

verus! {

pub open spec fn spec_digit_char(d: int) -> char {
    if d == 0 {
        '0'
    } else if d == 1 {
        '1'
    } else if d == 2 {
        '2'
    } else if d == 3 {
        '3'
    } else if d == 4 {
        '4'
    } else if d == 5 {
        '5'
    } else if d == 6 {
        '6'
    } else if d == 7 {
        '7'
    } else if d == 8 {
        '8'
    } else {
        '9'
    }
}

/// The decimal rendering of a nonnegative integer, most significant
/// digit first, with no sign and no leading zeros (except for zero
/// itself).
pub open spec fn spec_u64_string(n: int) -> Seq<char>
    decreases n,
{
    if n < 10 {
        seq![spec_digit_char(n)]
    } else {
        spec_u64_string(n / 10) + seq![spec_digit_char(n % 10)]
    }
}

/// The decimal rendering of a signed integer: a minus sign before the
/// magnitude when negative.
pub open spec fn spec_i64_string(n: int) -> Seq<char> {
    if n >= 0 {
        spec_u64_string(n)
    } else {
        seq!['-'] + spec_u64_string(-n)
    }
}

fn digit_str(d: u64) -> (r: &'static str)
    requires
        d < 10,
    ensures
        r@ =~= seq![spec_digit_char(d as int)],
{
    proof {
        reveal_strlit("0");
        reveal_strlit("1");
        reveal_strlit("2");
        reveal_strlit("3");
        reveal_strlit("4");
        reveal_strlit("5");
        reveal_strlit("6");
        reveal_strlit("7");
        reveal_strlit("8");
        reveal_strlit("9");
    }
    match d {
        0 => "0",
        1 => "1",
        2 => "2",
        3 => "3",
        4 => "4",
        5 => "5",
        6 => "6",
        7 => "7",
        8 => "8",
        _ => "9",
    }
}

/// Renders an unsigned integer in decimal.
pub fn u64_to_string(n: u64) -> (r: String)
    ensures
        r@ == spec_u64_string(n as int),
    decreases n,
{
    if n < 10 {
        String::from_str(digit_str(n))
    } else {
        let mut s = u64_to_string(n / 10);
        s.append(digit_str(n % 10));
        s
    }
}

/// Renders a signed integer in decimal.
pub fn i64_to_string(n: i64) -> (r: String)
    ensures
        r@ == spec_i64_string(n as int),
{
    if n >= 0 {
        u64_to_string(n as u64)
    } else {
        let magnitude: u64 = (-(n as i128)) as u64;
        let mut s = String::from_str("-");
        let rendered = u64_to_string(magnitude);
        s.append(rendered.as_str());
        proof {
            reveal_strlit("-");
            assert(s@ =~= seq!['-'] + spec_u64_string(-(n as int)));
        }
        s
    }
}

/// Renders a 32-bit signed integer in decimal.
pub fn i32_to_string(n: i32) -> (r: String)
    ensures
        r@ == spec_i64_string(n as int),
{
    i64_to_string(n as i64)
}

/// A substring occurs somewhere in a string.
pub open spec fn spec_contains_seq(hay: Seq<char>, needle: Seq<char>) -> bool {
    exists|i: int|
        0 <= i && i + needle.len() <= hay.len() && #[trigger] hay.subrange(i, i + needle.len())
            == needle
}

/// Character-wise equality of two string slices.
pub fn str_eq(a: &str, b: &str) -> (r: bool)
    ensures
        r == (a@ == b@),
{
    let na = a.unicode_len();
    let nb = b.unicode_len();
    if na != nb {
        return false;
    }
    let mut i: usize = 0;
    while i < na
        invariant
            na == a@.len(),
            na == b@.len(),
            i <= na,
            forall|j: int| 0 <= j < i ==> a@[j] == b@[j],
        decreases na - i,
    {
        if a.get_char(i) != b.get_char(i) {
            return false;
        }
        i += 1;
    }
    proof {
        assert(a@ =~= b@);
    }
    true
}

pub open spec fn spec_is_digit_char(c: char) -> bool {
    '0' <= c && c <= '9'
}

pub open spec fn spec_digit_val(c: char) -> int {
    c as int - '0' as int
}

pub open spec fn spec_all_digits(s: Seq<char>) -> bool {
    forall|i: int| 0 <= i < s.len() ==> spec_is_digit_char(#[trigger] s[i])
}

/// The number a digit string denotes, most significant digit first.
pub open spec fn spec_digits_val(s: Seq<char>) -> int
    decreases s.len(),
{
    if s.len() == 0 {
        0
    } else {
        spec_digits_val(s.drop_last()) * 10 + spec_digit_val(s.last())
    }
}

/// What decimal parsing of an unsigned number accepts and denotes: a
/// nonempty all-digit string whose value fits.
pub open spec fn spec_parse_u64(s: Seq<char>) -> Option<int> {
    if s.len() > 0 && spec_all_digits(s) && spec_digits_val(s) <= u64::MAX {
        Some(spec_digits_val(s))
    } else {
        None
    }
}

/// What decimal parsing of a signed number accepts and denotes: an
/// optional minus sign before a nonempty all-digit string, within the
/// 64-bit signed range.
pub open spec fn spec_parse_i64(s: Seq<char>) -> Option<int> {
    if s.len() > 0 && s.first() == '-' {
        let mag = s.drop_first();
        if mag.len() > 0 && spec_all_digits(mag) && spec_digits_val(mag) <= i64::MAX + 1 {
            Some(-spec_digits_val(mag))
        } else {
            None
        }
    } else if s.len() > 0 && spec_all_digits(s) && spec_digits_val(s) <= i64::MAX {
        Some(spec_digits_val(s))
    } else {
        None
    }
}

proof fn lemma_digits_val_nonneg(s: Seq<char>)
    requires
        spec_all_digits(s),
    ensures
        spec_digits_val(s) >= 0,
    decreases s.len(),
{
    if s.len() > 0 {
        assert(spec_all_digits(s.drop_last()));
        lemma_digits_val_nonneg(s.drop_last());
    }
}

proof fn lemma_digits_val_prefix(s: Seq<char>, i: int)
    requires
        spec_all_digits(s),
        0 <= i <= s.len(),
    ensures
        spec_digits_val(s) >= spec_digits_val(s.take(i)),
    decreases s.len() - i,
{
    if i < s.len() {
        lemma_digits_val_prefix(s, i + 1);
        let t = s.take(i + 1);
        assert(t.drop_last() =~= s.take(i));
        assert(spec_digits_val(t) == spec_digits_val(s.take(i)) * 10 + spec_digit_val(s[i]));
        assert(spec_all_digits(s.take(i)));
        lemma_digits_val_nonneg(s.take(i));
    } else {
        assert(s.take(i) =~= s);
    }
}

fn digit_value(c: char) -> (r: Option<u64>)
    ensures
        spec_is_digit_char(c) ==> r == Some((spec_digit_val(c)) as u64),
        !spec_is_digit_char(c) ==> r is None,
{
    if '0' <= c && c <= '9' {
        Some((c as u32 as u64) - ('0' as u32 as u64))
    } else {
        None
    }
}

/// Parses an unsigned decimal number; `None` on an empty string, a
/// non-digit, or overflow.
pub fn parse_u64(s: &str) -> (r: Option<u64>)
    ensures
        match r {
            Some(n) => spec_parse_u64(s@) == Some(n as int),
            None => spec_parse_u64(s@) is None,
        },
{
    let n = s.unicode_len();
    if n == 0 {
        return None;
    }
    let mut acc: u64 = 0;
    let mut i: usize = 0;
    while i < n
        invariant
            n == s@.len(),
            0 < n,
            i <= n,
            spec_all_digits(s@.take(i as int)),
            acc == spec_digits_val(s@.take(i as int)),
        decreases n - i,
    {
        let c = s.get_char(i);
        match digit_value(c) {
            None => {
                assert(!spec_all_digits(s@));
                return None;
            },
            Some(d) => {
                proof {
                    assert(s@.take(i + 1 as int).drop_last() =~= s@.take(i as int));
                    assert(s@.take(i + 1 as int).last() == s@[i as int]);
                }
                if acc > (u64::MAX - d) / 10 {
                    proof {
                        lemma_digits_val_nonneg(s@.take(i + 1 as int));
                        assert(spec_digits_val(s@.take(i + 1 as int)) > u64::MAX) by {
                            assert(acc * 10 + d > u64::MAX) by (nonlinear_arith)
                                requires
                                    acc > (u64::MAX - d) / 10,
                                    d < 10,
                            ;
                        }
                        if spec_all_digits(s@) {
                            lemma_digits_val_prefix(s@, i + 1 as int);
                        }
                    }
                    return None;
                }
                proof {
                    assert(acc * 10 + d <= u64::MAX) by (nonlinear_arith)
                        requires
                            acc <= (u64::MAX - d) / 10,
                            d < 10,
                    ;
                }
                acc = acc * 10 + d;
                i += 1;
            },
        }
    }
    proof {
        assert(s@.take(n as int) =~= s@);
    }
    Some(acc)
}

/// Parses a signed decimal number: an optional leading minus sign
/// before the digits; `None` on anything else or out of range.
pub fn parse_i64(s: &str) -> (r: Option<i64>)
    ensures
        match r {
            Some(n) => spec_parse_i64(s@) == Some(n as int),
            None => spec_parse_i64(s@) is None,
        },
{
    let n = s.unicode_len();
    if n == 0 {
        return None;
    }
    if s.get_char(0) == '-' {
        let mag = s.substring_char(1, n);
        proof {
            assert(mag@ =~= s@.drop_first());
        }
        match parse_u64(mag) {
            Some(m) => if m <= 9223372036854775807u64 {
                Some(-(m as i64))
            } else if m == 9223372036854775808u64 {
                Some(i64::MIN)
            } else {
                None
            },
            None => None,
        }
    } else {
        match parse_u64(s) {
            Some(m) => if m <= 9223372036854775807u64 {
                Some(m as i64)
            } else {
                None
            },
            None => None,
        }
    }
}

/// Parses a 32-bit signed decimal number.
pub fn parse_i32(s: &str) -> (r: Option<i32>)
    ensures
        match r {
            Some(n) => spec_parse_i64(s@) == Some(n as int),
            None => spec_parse_i64(s@) is None || (spec_parse_i64(s@) matches Some(m) && (m
                < i32::MIN || m > i32::MAX)),
        },
{
    match parse_i64(s) {
        Some(n) => if i32::MIN as i64 <= n && n <= i32::MAX as i64 {
            Some(n as i32)
        } else {
            None
        },
        None => None,
    }
}

proof fn lemma_u64_string_digits(n: int)
    requires
        n >= 0,
    ensures
        spec_u64_string(n).len() > 0,
        spec_all_digits(spec_u64_string(n)),
        spec_digits_val(spec_u64_string(n)) == n,
    decreases n,
{
    if n < 10 {
        let s = spec_u64_string(n);
        assert(s.len() == 1);
        assert(s.drop_last() =~= Seq::<char>::empty());
        assert(spec_digits_val(Seq::<char>::empty()) == 0);
        assert(s.last() == spec_digit_char(n));
        assert(spec_digit_val(spec_digit_char(n)) == n);
        assert(spec_is_digit_char(spec_digit_char(n)));
        assert(spec_digits_val(s) == 0 * 10 + spec_digit_val(spec_digit_char(n)));
    } else {
        lemma_u64_string_digits(n / 10);
        let s = spec_u64_string(n);
        let hd = spec_u64_string(n / 10);
        assert(s.drop_last() =~= hd);
        assert(s.last() == spec_digit_char(n % 10));
        assert(spec_digit_val(spec_digit_char(n % 10)) == n % 10);
        assert(spec_is_digit_char(spec_digit_char(n % 10)));
        assert(spec_all_digits(s)) by {
            assert(forall|i: int| 0 <= i < hd.len() ==> s[i] == hd[i]);
            assert(s[s.len() - 1] == spec_digit_char(n % 10));
        }
        assert(spec_digits_val(s) == (n / 10) * 10 + (n % 10));
    }
}

/// Law: decimal rendering and parsing are inverse — parsing the
/// rendering of any 64-bit signed integer yields the integer back.
pub proof fn lemma_parse_render_roundtrip(n: int)
    requires
        i64::MIN <= n <= i64::MAX,
    ensures
        spec_parse_i64(spec_i64_string(n)) == Some(n),
{
    if n >= 0 {
        lemma_u64_string_digits(n);
        let s = spec_i64_string(n);
        assert(s.first() != '-') by {
            if s.len() > 0 && s.first() == '-' {
                assert(spec_is_digit_char(s[0]));
            }
        }
    } else {
        lemma_u64_string_digits(-n);
        let s = spec_i64_string(n);
        let mag = spec_u64_string(-n);
        assert(s.first() == '-');
        assert(s.drop_first() =~= mag);
    }
}

/// Whether `needle` occurs in `hay`, character-wise.
pub fn str_contains(hay: &str, needle: &str) -> (r: bool)
    ensures
        r == spec_contains_seq(hay@, needle@),
{
    let h = hay.unicode_len();
    let n = needle.unicode_len();
    if n == 0 {
        proof {
            assert(hay@.subrange(0, 0 + needle@.len() as int) =~= needle@);
        }
        return true;
    }
    if n > h {
        proof {
            if spec_contains_seq(hay@, needle@) {
                let i = choose|i: int|
                    0 <= i && i + needle@.len() <= hay@.len() && #[trigger] hay@.subrange(
                        i,
                        i + needle@.len(),
                    ) == needle@;
                assert(false);
            }
        }
        return false;
    }
    let mut i: usize = 0;
    while i <= h - n
        invariant
            h == hay@.len(),
            n == needle@.len(),
            0 < n <= h,
            i <= h - n + 1,
            forall|k: int|
                0 <= k < i ==> #[trigger] hay@.subrange(k, k + needle@.len()) != needle@,
        decreases h - n + 1 - i,
    {
        let mut j: usize = 0;
        let mut matched = true;
        while j < n
            invariant
                h == hay@.len(),
                n == needle@.len(),
                i + n <= h,
                j <= n,
                matched ==> forall|t: int| 0 <= t < j ==> hay@[i + t] == needle@[t],
                !matched ==> hay@.subrange(i as int, i + needle@.len()) != needle@,
            decreases n - j,
        {
            if hay.get_char(i + j) != needle.get_char(j) {
                proof {
                    assert(hay@.subrange(i as int, i + needle@.len())[j as int] == hay@[i + j]);
                }
                matched = false;
                j = n;
            } else {
                j += 1;
            }
        }
        if matched {
            proof {
                assert(hay@.subrange(i as int, i + needle@.len()) =~= needle@);
            }
            return true;
        }
        i += 1;
    }
    proof {
        assert forall|k: int|
            0 <= k && k + needle@.len() <= hay@.len() implies #[trigger] hay@.subrange(
            k,
            k + needle@.len(),
        ) != needle@ by {
            assert(k < i);
        }
    }
    false
}

/// Case-insensitive equality of two characters, over the ASCII letters
/// only.
pub open spec fn spec_ascii_ic_eq_char(a: char, b: char) -> bool {
    ||| a == b
    ||| ('A' <= a && a <= 'Z' && b as int == a as int + 32)
    ||| ('a' <= a && a <= 'z' && b as int == a as int - 32)
}

/// Case-insensitive equality of two strings, over the ASCII letters
/// only.
pub open spec fn spec_ascii_ic_eq(a: Seq<char>, b: Seq<char>) -> bool {
    a.len() == b.len() && forall|i: int|
        0 <= i < a.len() ==> spec_ascii_ic_eq_char(#[trigger] a[i], b[i])
}

fn ascii_ic_eq_char(a: char, b: char) -> (r: bool)
    ensures
        r == spec_ascii_ic_eq_char(a, b),
{
    if a == b {
        true
    } else if 'A' <= a && a <= 'Z' {
        b as u32 == a as u32 + 32
    } else if 'a' <= a && a <= 'z' {
        a as u32 == b as u32 + 32
    } else {
        false
    }
}

/// Equality of two strings up to ASCII letter case.
pub fn str_eq_ignore_ascii_case(a: &str, b: &str) -> (r: bool)
    ensures
        r == spec_ascii_ic_eq(a@, b@),
{
    let na = a.unicode_len();
    let nb = b.unicode_len();
    if na != nb {
        return false;
    }
    let mut i: usize = 0;
    while i < na
        invariant
            na == a@.len(),
            na == b@.len(),
            i <= na,
            forall|j: int| 0 <= j < i ==> spec_ascii_ic_eq_char(#[trigger] a@[j], b@[j]),
        decreases na - i,
    {
        if !ascii_ic_eq_char(a.get_char(i), b.get_char(i)) {
            return false;
        }
        i += 1;
    }
    true
}

/// Lexicographic order on character sequences, by code point; a prefix
/// comes before every extension of it. On the RFC 3339 UTC timestamps
/// this system writes, this order is the chronological one.
pub open spec fn spec_lex_le(a: Seq<char>, b: Seq<char>) -> bool
    decreases a.len(),
{
    if a.len() == 0 {
        true
    } else if b.len() == 0 {
        false
    } else if (a.first() as int) < (b.first() as int) {
        true
    } else if (a.first() as int) > (b.first() as int) {
        false
    } else {
        spec_lex_le(a.drop_first(), b.drop_first())
    }
}

/// Law: the lexicographic order is total.
pub proof fn lemma_lex_le_total(a: Seq<char>, b: Seq<char>)
    ensures
        spec_lex_le(a, b) || spec_lex_le(b, a),
    decreases a.len(),
{
    if a.len() > 0 && b.len() > 0 && a.first() == b.first() {
        lemma_lex_le_total(a.drop_first(), b.drop_first());
    }
}

/// Law: the lexicographic order is transitive.
pub proof fn lemma_lex_le_trans(a: Seq<char>, b: Seq<char>, c: Seq<char>)
    requires
        spec_lex_le(a, b),
        spec_lex_le(b, c),
    ensures
        spec_lex_le(a, c),
    decreases a.len(),
{
    if a.len() > 0 && b.len() > 0 && c.len() > 0 && a.first() == b.first() && b.first()
        == c.first() {
        lemma_lex_le_trans(a.drop_first(), b.drop_first(), c.drop_first());
    }
}

/// Compares two strings in lexicographic code-point order.
pub fn str_lex_le(a: &str, b: &str) -> (r: bool)
    ensures
        r == spec_lex_le(a@, b@),
{
    let na = a.unicode_len();
    let nb = b.unicode_len();
    let mut i: usize = 0;
    proof {
        assert(a@.skip(0) =~= a@);
        assert(b@.skip(0) =~= b@);
    }
    loop
        invariant
            na == a@.len(),
            nb == b@.len(),
            i <= na,
            i <= nb,
            forall|j: int| 0 <= j < i ==> a@[j] == b@[j],
            spec_lex_le(a@, b@) == spec_lex_le(a@.skip(i as int), b@.skip(i as int)),
        decreases na - i,
    {
        proof {
            let ta = a@.skip(i as int);
            let tb = b@.skip(i as int);
            if i < na && i < nb {
                assert(ta.first() == a@[i as int]);
                assert(tb.first() == b@[i as int]);
                assert(ta.drop_first() =~= a@.skip(i + 1 as int));
                assert(tb.drop_first() =~= b@.skip(i + 1 as int));
            }
        }
        if i >= na {
            proof {
                assert(a@.skip(i as int).len() == 0);
            }
            return true;
        }
        if i >= nb {
            return false;
        }
        let ca = a.get_char(i);
        let cb = b.get_char(i);
        if (ca as u32) < (cb as u32) {
            return true;
        }
        if (ca as u32) > (cb as u32) {
            return false;
        }
        i += 1;
    }
}

/// The index of the first occurrence of a character, or the length
/// when it does not occur.
pub open spec fn spec_char_index(s: Seq<char>, c: char) -> int
    decreases s.len(),
{
    if s.len() == 0 {
        0
    } else if s.first() == c {
        0
    } else {
        1 + spec_char_index(s.drop_first(), c)
    }
}

proof fn lemma_char_index_bounds(s: Seq<char>, c: char)
    ensures
        0 <= spec_char_index(s, c) <= s.len(),
        forall|j: int| 0 <= j < spec_char_index(s, c) ==> s[j] != c,
        spec_char_index(s, c) < s.len() ==> s[spec_char_index(s, c)] == c,
    decreases s.len(),
{
    if s.len() > 0 && s.first() != c {
        let t = s.drop_first();
        lemma_char_index_bounds(t, c);
        assert(spec_char_index(s, c) == 1 + spec_char_index(t, c));
        assert forall|j: int| 0 <= j < spec_char_index(s, c) implies s[j] != c by {
            if j > 0 {
                assert(s[j] == t[j - 1]);
            }
        }
        if spec_char_index(s, c) < s.len() {
            assert(s[spec_char_index(s, c)] == t[spec_char_index(t, c)]);
        }
    }
}

/// The text before the first occurrence of a character: the date part
/// of an RFC 3339 timestamp when the character is `'T'`.
pub fn prefix_before_char(s: &str, c: char) -> (r: String)
    ensures
        r@ == s@.take(spec_char_index(s@, c)),
{
    let n = s.unicode_len();
    let mut i: usize = 0;
    proof {
        lemma_char_index_bounds(s@, c);
    }
    while i < n
        invariant
            n == s@.len(),
            i <= n,
            forall|j: int| 0 <= j < i ==> s@[j] != c,
            spec_char_index(s@, c) >= i,
        decreases n - i,
    {
        proof {
            lemma_char_index_bounds(s@, c);
        }
        if s.get_char(i) == c {
            proof {
                lemma_char_index_bounds(s@, c);
                assert(spec_char_index(s@, c) == i);
            }
            let piece = s.substring_char(0, i);
            proof {
                assert(piece@ =~= s@.take(i as int));
            }
            return String::from_str(piece);
        }
        i += 1;
    }
    proof {
        lemma_char_index_bounds(s@, c);
        assert(spec_char_index(s@, c) == n);
        assert(s@.take(n as int) =~= s@);
    }
    String::from_str(s)
}

/// The index after the last occurrence of a character, or zero when
/// it does not occur.
pub open spec fn spec_after_last_index(s: Seq<char>, c: char) -> int
    decreases s.len(),
{
    if s.len() == 0 {
        0
    } else if s.last() == c {
        s.len() as int
    } else {
        spec_after_last_index(s.drop_last(), c)
    }
}

proof fn lemma_after_last_index_bounds(s: Seq<char>, c: char)
    ensures
        0 <= spec_after_last_index(s, c) <= s.len(),
        forall|j: int| spec_after_last_index(s, c) <= j < s.len() ==> s[j] != c,
    decreases s.len(),
{
    if s.len() > 0 && s.last() != c {
        lemma_after_last_index_bounds(s.drop_last(), c);
        assert(forall|j: int| 0 <= j < s.len() - 1 ==> s[j] == s.drop_last()[j]);
    }
}

/// The text after the last occurrence of a character: the whole string
/// when the character does not occur.
pub fn suffix_after_last_char(s: &str, c: char) -> (r: String)
    ensures
        r@ == s@.skip(spec_after_last_index(s@, c)),
{
    let n = s.unicode_len();
    let mut cut: usize = 0;
    let mut i: usize = 0;
    proof {
        lemma_after_last_index_bounds(s@, c);
    }
    while i < n
        invariant
            n == s@.len(),
            i <= n,
            cut <= i,
            forall|j: int| cut <= j < i ==> s@[j] != c,
            cut > 0 ==> s@[cut - 1] == c,
            spec_after_last_index(s@, c) >= cut,
        decreases n - i,
    {
        proof {
            lemma_after_last_index_bounds(s@, c);
        }
        if s.get_char(i) == c {
            cut = i + 1;
        }
        i += 1;
    }
    proof {
        lemma_after_last_index_bounds(s@, c);
        let a = spec_after_last_index(s@, c);
        assert(a == cut) by {
            if a > cut {
                assert(s@[a - 1] != c);
                lemma_after_last_suffix(s@, c);
            }
        }
    }
    let piece = s.substring_char(cut, n);
    proof {
        assert(piece@ =~= s@.skip(cut as int));
    }
    String::from_str(piece)
}

proof fn lemma_after_last_suffix(s: Seq<char>, c: char)
    ensures
        spec_after_last_index(s, c) > 0 ==> s[spec_after_last_index(s, c) - 1] == c,
    decreases s.len(),
{
    if s.len() > 0 && s.last() != c {
        lemma_after_last_suffix(s.drop_last(), c);
        lemma_after_last_index_bounds(s.drop_last(), c);
        assert(forall|j: int| 0 <= j < s.len() - 1 ==> s[j] == s.drop_last()[j]);
        let a = spec_after_last_index(s, c);
        if a > 0 {
            assert(s[a - 1] == s.drop_last()[a - 1]);
        }
    }
}

/// The Unicode lowercase folding of a string, as `str::to_lowercase`
/// computes it; the result depends on the characters alone.
pub uninterp spec fn lower_of(s: Seq<char>) -> Seq<char>;

/// Relies on str::to_lowercase: returns the Unicode lowercase of the
/// string, a function of its characters alone; an empty string stays
/// empty.
#[verifier::external_body]
pub(crate) fn lowercase(s: &str) -> (r: String)
    ensures
        r@ == lower_of(s@),
        s@.len() == 0 ==> r@.len() == 0,
{
    s.to_lowercase()
}

/// A value squeezed into the 32-bit signed range.
pub open spec fn spec_clamp_i32(n: int) -> int {
    if n > i32::MAX {
        i32::MAX as int
    } else if n < i32::MIN {
        i32::MIN as int
    } else {
        n
    }
}

/// The text of a boolean flag.
pub open spec fn spec_bool_str(b: bool) -> Seq<char> {
    if b {
        "true"@
    } else {
        "false"@
    }
}

/// Renders a boolean flag as text.
pub fn bool_str(b: bool) -> (r: &'static str)
    ensures
        r@ == spec_bool_str(b),
{
    if b {
        "true"
    } else {
        "false"
    }
}

/// The pieces of a string between the occurrences of a character: one
/// more piece than there are occurrences, in order, none containing
/// the character.
pub open spec fn spec_split(s: Seq<char>, c: char) -> Seq<Seq<char>>
    decreases s.len(),
{
    let idx = spec_char_index(s, c);
    if 0 <= idx && idx < s.len() {
        seq![s.take(idx)] + spec_split(s.skip(idx + 1), c)
    } else {
        seq![s]
    }
}

/// The index of the first occurrence of a character, when it occurs.
pub fn find_char(s: &str, c: char) -> (r: Option<usize>)
    ensures
        match r {
            Some(i) => i == spec_char_index(s@, c) && i < s@.len(),
            None => spec_char_index(s@, c) == s@.len(),
        },
{
    let n = s.unicode_len();
    let mut i: usize = 0;
    proof {
        lemma_char_index_bounds(s@, c);
    }
    while i < n
        invariant
            n == s@.len(),
            i <= n,
            forall|j: int| 0 <= j < i ==> s@[j] != c,
            spec_char_index(s@, c) >= i,
        decreases n - i,
    {
        proof {
            lemma_char_index_bounds(s@, c);
        }
        if s.get_char(i) == c {
            proof {
                lemma_char_index_bounds(s@, c);
                assert(spec_char_index(s@, c) == i);
            }
            return Some(i);
        }
        i += 1;
    }
    proof {
        lemma_char_index_bounds(s@, c);
    }
    None
}

/// Splits a string on a character.
pub fn split_on_char(s: &str, c: char) -> (r: Vec<String>)
    ensures
        r@.map_values(|p: String| p@) == spec_split(s@, c),
{
    let mut parts: Vec<String> = Vec::new();
    let mut rest: String = String::from_str(s);
    loop
        invariant
            spec_split(s@, c) =~= parts@.map_values(|p: String| p@) + spec_split(rest@, c),
        decreases rest@.len(),
    {
        let ghost parts_before = parts@.map_values(|p: String| p@);
        match find_char(rest.as_str(), c) {
            Some(i) => {
                let n = rest.unicode_len();
                let piece = rest.as_str().substring_char(0, i);
                let piece_string = String::from_str(piece);
                let tail = rest.as_str().substring_char(i + 1, n);
                let tail_string = String::from_str(tail);
                proof {
                    assert(piece_string@ =~= rest@.take(i as int));
                    assert(tail_string@ =~= rest@.skip(i + 1 as int));
                    assert(spec_split(rest@, c) == seq![rest@.take(i as int)] + spec_split(
                        rest@.skip(i + 1 as int),
                        c,
                    ));
                }
                parts.push(piece_string);
                rest = tail_string;
                proof {
                    assert(parts@.map_values(|p: String| p@) + spec_split(rest@, c)
                        =~= parts_before + (seq![parts@.last()@] + spec_split(rest@, c)));
                    assert(spec_split(s@, c) =~= parts@.map_values(|p: String| p@) + spec_split(
                        rest@,
                        c,
                    ));
                }
            },
            None => {
                proof {
                    assert(spec_split(rest@, c) == seq![rest@]);
                }
                parts.push(rest);
                proof {
                    assert(parts@.map_values(|p: String| p@) =~= parts_before.push(
                        parts@.last()@,
                    ));
                    assert(spec_split(s@, c) =~= parts@.map_values(|p: String| p@));
                }
                return parts;
            },
        }
    }
}

/// One string is a prefix of another.
pub open spec fn spec_has_prefix(s: Seq<char>, p: Seq<char>) -> bool {
    p.len() <= s.len() && s.take(p.len() as int) == p
}

/// Whether a string starts with a prefix.
pub fn str_starts_with(s: &str, p: &str) -> (r: bool)
    ensures
        r == spec_has_prefix(s@, p@),
{
    let ns = s.unicode_len();
    let np = p.unicode_len();
    if np > ns {
        return false;
    }
    let mut i: usize = 0;
    while i < np
        invariant
            ns == s@.len(),
            np == p@.len(),
            np <= ns,
            i <= np,
            forall|j: int| 0 <= j < i ==> s@[j] == p@[j],
        decreases np - i,
    {
        if s.get_char(i) != p.get_char(i) {
            proof {
                assert(s@.take(p@.len() as int)[i as int] != p@[i as int]);
            }
            return false;
        }
        i += 1;
    }
    proof {
        assert(s@.take(p@.len() as int) =~= p@);
    }
    true
}

} // verus!
