//! Character-level helpers: conversions between `str`/`String` and `Vec<char>`,
//! searching, decimal numbers and hexadecimal digits.
use vstd::prelude::*;
use vstd::utf8::encode_utf8;
use chrono::Datelike;

verus! {

broadcast use vstd::string::group_string_axioms;

/// Appends one character to a `String` (`String::push`).
#[verifier::external_body]
pub(crate) fn push_char(s: &mut String, c: char)
    ensures
        final(s)@ == old(s)@.push(c),
{
    s.push(c);
}

/// The characters of `s`, in order.
pub fn chars_of(s: &str) -> (v: Vec<char>)
    ensures
        v@ == s@,
{
    let mut v: Vec<char> = Vec::new();
    for c in it: s.chars()
        invariant
            it.seq() == s@,
            v@ == it.seq().take(it.index() as int),
    {
        v.push(c);
    }
    v
}

/// A `String` holding exactly the characters of `v`.
pub fn string_of(v: &[char]) -> (s: String)
    ensures
        s@ == v@,
{
    let mut s = String::new();
    let mut i: usize = 0;
    while i < v.len()
        invariant
            i <= v@.len(),
            s@ == v@.take(i as int),
        decreases v@.len() - i,
    {
        push_char(&mut s, v[i]);
        assert(v@.take(i as int).push(v@[i as int]) =~= v@.take(i + 1));
        i = i + 1;
    }
    assert(v@.take(v@.len() as int) =~= v@);
    s
}


/// Copies `s[from..to]` into a new vector.
pub fn copy_range(s: &[char], from: usize, to: usize) -> (v: Vec<char>)
    requires
        from <= to <= s@.len(),
    ensures
        v@ == s@.subrange(from as int, to as int),
{
    let mut v: Vec<char> = Vec::new();
    let mut i = from;
    while i < to
        invariant
            from <= i <= to <= s@.len(),
            v@ == s@.subrange(from as int, i as int),
        decreases to - i,
    {
        v.push(s[i]);
        assert(s@.subrange(from as int, i as int).push(s@[i as int]) =~= s@.subrange(
            from as int,
            i + 1,
        ));
        i = i + 1;
    }
    v
}

/// Position of the first `c` in `s`, or -1.
pub open spec fn first_pos(s: Seq<char>, c: char) -> int
    decreases s.len(),
{
    if s.len() == 0 {
        -1
    } else if s[0] == c {
        0
    } else {
        let r = first_pos(s.drop_first(), c);
        if r < 0 {
            -1
        } else {
            r + 1
        }
    }
}

/// Position of the last `c` in `s`, or -1.
pub open spec fn last_pos(s: Seq<char>, c: char) -> int
    decreases s.len(),
{
    if s.len() == 0 {
        -1
    } else if s.last() == c {
        s.len() - 1
    } else {
        last_pos(s.drop_last(), c)
    }
}

pub proof fn lemma_first_pos(s: Seq<char>, c: char, i: int)
    requires
        0 <= i <= s.len(),
        forall|j: int| 0 <= j < i ==> s[j] != c,
    ensures
        i < s.len() && s[i] == c ==> first_pos(s, c) == i,
        i == s.len() ==> first_pos(s, c) == -1,
    decreases i,
{
    if i > 0 {
        lemma_first_pos(s.drop_first(), c, i - 1);
    }
}

pub proof fn lemma_first_pos_bounds(s: Seq<char>, c: char)
    ensures
        -1 <= first_pos(s, c) < s.len(),
        first_pos(s, c) >= 0 ==> s[first_pos(s, c)] == c,
        forall|j: int| 0 <= j < first_pos(s, c) ==> s[j] != c,
        first_pos(s, c) == -1 ==> forall|j: int| 0 <= j < s.len() ==> s[j] != c,
    decreases s.len(),
{
    if s.len() > 0 && s[0] != c {
        lemma_first_pos_bounds(s.drop_first(), c);
        let r = first_pos(s.drop_first(), c);
        assert forall|j: int| 0 <= j < first_pos(s, c) implies s[j] != c by {
            if j > 0 {
                assert(s[j] == s.drop_first()[j - 1]);
            }
        }
        if r == -1 {
            assert forall|j: int| 0 <= j < s.len() implies s[j] != c by {
                if j > 0 {
                    assert(s[j] == s.drop_first()[j - 1]);
                }
            }
        }
    }
}

pub proof fn lemma_last_pos(s: Seq<char>, c: char, i: int)
    requires
        -1 <= i < s.len(),
        forall|j: int| i < j < s.len() ==> s[j] != c,
    ensures
        i >= 0 && s[i] == c ==> last_pos(s, c) == i,
        i == -1 ==> last_pos(s, c) == -1,
    decreases s.len(),
{
    if s.len() > 0 && i < s.len() - 1 {
        lemma_last_pos(s.drop_last(), c, i);
    }
}

/// Index of the first `c` at or after `from`.
pub fn find_first(s: &[char], c: char) -> (r: Option<usize>)
    ensures
        match r {
            Some(i) => first_pos(s@, c) == i,
            None => first_pos(s@, c) == -1,
        },
{
    let mut i: usize = 0;
    while i < s.len()
        invariant
            i <= s@.len(),
            forall|j: int| 0 <= j < i ==> s@[j] != c,
        decreases s@.len() - i,
    {
        if s[i] == c {
            proof {
                lemma_first_pos(s@, c, i as int);
            }
            return Some(i);
        }
        i = i + 1;
    }
    proof {
        lemma_first_pos(s@, c, i as int);
    }
    None
}

/// Index of the last `c` in `s`.
pub fn find_last(s: &[char], c: char) -> (r: Option<usize>)
    ensures
        match r {
            Some(i) => last_pos(s@, c) == i,
            None => last_pos(s@, c) == -1,
        },
{
    let mut i: usize = s.len();
    while i > 0
        invariant
            i <= s@.len(),
            forall|j: int| i <= j < s@.len() ==> s@[j] != c,
        decreases i,
    {
        if s[i - 1] == c {
            proof {
                lemma_last_pos(s@, c, i - 1);
            }
            return Some(i - 1);
        }
        i = i - 1;
    }
    proof {
        lemma_last_pos(s@, c, -1);
    }
    None
}

// ---------------------------------------------------------------------------
// Decimal numbers

pub open spec fn is_digit(c: char) -> bool {
    '0' <= c <= '9'
}

pub open spec fn digit_char(d: int) -> char {
    (d + 48) as char
}

pub open spec fn all_digits(s: Seq<char>) -> bool {
    forall|i: int| 0 <= i < s.len() ==> is_digit(#[trigger] s[i])
}

/// The usual decimal spelling of `n`, without sign or leading zeros.
pub open spec fn decimal(n: nat) -> Seq<char>
    decreases n,
{
    if n < 10 {
        seq![digit_char(n as int)]
    } else {
        decimal(n / 10).push(digit_char((n % 10) as int))
    }
}

/// The value of a string of decimal digits.
pub open spec fn digits_value(s: Seq<char>) -> nat
    decreases s.len(),
{
    if s.len() == 0 {
        0
    } else {
        digits_value(s.drop_last()) * 10 + ((s.last() as int - 48) as nat)
    }
}

/// The digits after an optional leading `+`.
pub open spec fn unsigned_body(s: Seq<char>) -> Seq<char> {
    if s.len() > 0 && s[0] == '+' {
        s.drop_first()
    } else {
        s
    }
}

/// What `str::parse::<u64>` accepts: an optional `+`, then one or more digits whose value fits.
pub open spec fn parse_u64_spec(s: Seq<char>) -> Option<u64> {
    let b = unsigned_body(s);
    if b.len() > 0 && all_digits(b) && digits_value(b) <= u64::MAX {
        Some(digits_value(b) as u64)
    } else {
        None
    }
}

/// What `str::parse::<i64>` accepts: an optional `+` or `-`, then one or more digits whose
/// signed value fits.
pub open spec fn parse_i64_spec(s: Seq<char>) -> Option<i64> {
    if s.len() > 0 && s[0] == '-' {
        let b = s.drop_first();
        if b.len() > 0 && all_digits(b) && digits_value(b) <= 0x8000_0000_0000_0000 {
            Some((-(digits_value(b) as int)) as i64)
        } else {
            None
        }
    } else {
        let b = unsigned_body(s);
        if b.len() > 0 && all_digits(b) && digits_value(b) <= i64::MAX {
            Some(digits_value(b) as i64)
        } else {
            None
        }
    }
}

/// The decimal spelling of a signed number, with a leading `-` when negative.
pub open spec fn signed_decimal(n: int) -> Seq<char> {
    if n < 0 {
        seq!['-'] + decimal((-n) as nat)
    } else {
        decimal(n as nat)
    }
}

pub proof fn lemma_digit_char(d: int)
    requires
        0 <= d < 10,
    ensures
        is_digit(digit_char(d)),
        digit_char(d) as int - 48 == d,
{
}

pub proof fn lemma_decimal(n: nat)
    ensures
        decimal(n).len() > 0,
        all_digits(decimal(n)),
        digits_value(decimal(n)) == n,
    decreases n,
{
    lemma_digit_char((n % 10) as int);
    if n < 10 {
        let d = seq![digit_char(n as int)];
        assert(d.drop_last() =~= Seq::<char>::empty());
        assert(digits_value(d.drop_last()) == 0);
        assert(d.last() == digit_char(n as int));
        assert(digits_value(d) == n);
    } else {
        lemma_decimal(n / 10);
        assert(decimal(n).drop_last() =~= decimal(n / 10));
        assert(decimal(n).last() == digit_char((n % 10) as int));
        assert(digits_value(decimal(n)) == digits_value(decimal(n / 10)) * 10 + (n % 10));
        assert((n / 10) * 10 + n % 10 == n);
    }
}

pub proof fn lemma_digits_value_prefix(s: Seq<char>, k: int)
    requires
        0 <= k <= s.len(),
        all_digits(s),
    ensures
        digits_value(s.take(k)) <= digits_value(s),
    decreases s.len() - k,
{
    if k < s.len() {
        lemma_digits_value_prefix(s, k + 1);
        assert(s.take(k + 1).drop_last() =~= s.take(k));
    } else {
        assert(s.take(k) =~= s);
    }
}

/// `parse::<u64>` reads back what the decimal spelling wrote.
pub proof fn lemma_parse_u64_decimal(n: u64)
    ensures
        parse_u64_spec(decimal(n as nat)) == Some(n),
{
    lemma_decimal(n as nat);
    assert(is_digit(decimal(n as nat)[0]));
}

/// `parse::<i64>` reads back what the signed decimal spelling wrote.
pub proof fn lemma_parse_i64_decimal(n: i64)
    ensures
        parse_i64_spec(signed_decimal(n as int)) == Some(n),
{
    if n < 0 {
        let d = decimal((-n) as nat);
        lemma_decimal((-n) as nat);
        assert((seq!['-'] + d).drop_first() =~= d);
    } else {
        lemma_decimal(n as nat);
        assert(is_digit(decimal(n as nat)[0]));
    }
}

fn digit_to_char(d: u64) -> (c: char)
    requires
        d < 10,
    ensures
        c == digit_char(d as int),
{
    if d == 0 {
        '0'
    } else if d == 1 {
        '1'
    } else if d == 2 {
        '2'
    } else if d == 3 {
        '3'
    } else if d == 4 {
        '4'
    } else if d == 5 {
        '5'
    } else if d == 6 {
        '6'
    } else if d == 7 {
        '7'
    } else if d == 8 {
        '8'
    } else {
        '9'
    }
}

/// Appends the decimal spelling of `n`.
pub fn push_decimal(out: &mut Vec<char>, n: u64)
    ensures
        final(out)@ == old(out)@ + decimal(n as nat),
    decreases n,
{
    if n >= 10 {
        push_decimal(out, n / 10);
    }
    let c = digit_to_char(n % 10);
    out.push(c);
}

/// Appends the signed decimal spelling of `n`.
pub fn push_signed_decimal(out: &mut Vec<char>, n: i64)
    ensures
        final(out)@ == old(out)@ + signed_decimal(n as int),
{
    if n < 0 {
        out.push('-');
        let m: u64 = if n == i64::MIN {
            0x8000_0000_0000_0000u64
        } else {
            (-n) as u64
        };
        push_decimal(out, m);
    } else {
        push_decimal(out, n as u64);
    }
}

/// Appends the decimal spelling of a 128-bit `n`.
pub fn push_decimal_wide(out: &mut Vec<char>, n: u128)
    ensures
        final(out)@ == old(out)@ + decimal(n as nat),
    decreases n,
{
    if n >= 10 {
        push_decimal_wide(out, n / 10);
    }
    let d: u64 = (n % 10) as u64;
    let c = digit_to_char(d);
    out.push(c);
}

/// Appends the signed decimal spelling of a 128-bit `n`.
pub fn push_signed_decimal_wide(out: &mut Vec<char>, n: i128)
    requires
        n > i128::MIN,
    ensures
        final(out)@ == old(out)@ + signed_decimal(n as int),
{
    if n < 0 {
        out.push('-');
        push_decimal_wide(out, (-n) as u128);
    } else {
        push_decimal_wide(out, n as u128);
    }
}

/// Reads a nonempty run of digits whose value is at most `limit`.
fn parse_digits(s: &[char], limit: u64) -> (r: Option<u64>)
    requires
        limit >= 9,
    ensures
        r == (if s@.len() > 0 && all_digits(s@) && digits_value(s@) <= limit {
            Some(digits_value(s@) as u64)
        } else {
            None::<u64>
        }),
{
    if s.len() == 0 {
        return None;
    }
    let mut acc: u64 = 0;
    let mut i: usize = 0;
    while i < s.len()
        invariant
            i <= s@.len(),
            all_digits(s@.take(i as int)),
            acc == digits_value(s@.take(i as int)),
            acc <= limit,
            limit >= 9,
        decreases s@.len() - i,
    {
        let c = s[i];
        assert(s@.take(i + 1).drop_last() =~= s@.take(i as int));
        if !('0' <= c && c <= '9') {
            assert(!is_digit(s@[i as int]));
            return None;
        }
        let d: u64 = ((c as u32) - 48) as u64;
        if acc > (limit - d) / 10 {
            proof {
                if all_digits(s@) {
                    lemma_digits_value_prefix(s@, i + 1);
                }
            }
            return None;
        }
        acc = acc * 10 + d;
        i = i + 1;
        assert forall|j: int| 0 <= j < i implies is_digit(#[trigger] s@.take(i as int)[j]) by {
            if j < i - 1 {
                assert(s@.take(i as int)[j] == s@.take(i - 1)[j]);
            }
        }
    }
    assert(s@.take(s@.len() as int) =~= s@);
    Some(acc)
}

/// `str::parse::<u64>` on a character sequence.
pub fn parse_u64(s: &[char]) -> (r: Option<u64>)
    ensures
        r == parse_u64_spec(s@),
{
    if s.len() > 0 && s[0] == '+' {
        let body = &s[1..s.len()];
        assert(body@ =~= s@.drop_first());
        parse_digits(body, u64::MAX)
    } else {
        parse_digits(s, u64::MAX)
    }
}

/// `str::parse::<i64>` on a character sequence.
pub fn parse_i64(s: &[char]) -> (r: Option<i64>)
    ensures
        r == parse_i64_spec(s@),
{
    if s.len() > 0 && s[0] == '-' {
        let body = &s[1..s.len()];
        assert(body@ =~= s@.drop_first());
        match parse_digits(body, 0x8000_0000_0000_0000u64) {
            Some(v) => {
                if v == 0x8000_0000_0000_0000u64 {
                    Some(i64::MIN)
                } else {
                    Some(-(v as i64))
                }
            },
            None => None,
        }
    } else {
        let body: &[char] = if s.len() > 0 && s[0] == '+' {
            &s[1..s.len()]
        } else {
            s
        };
        assert(body@ =~= unsigned_body(s@));
        match parse_digits(body, i64::MAX as u64) {
            Some(v) => Some(v as i64),
            None => None,
        }
    }
}


// ---------------------------------------------------------------------------
// Whitespace

/// `char::is_whitespace`: the Unicode `White_Space` characters.
pub open spec fn is_whitespace(c: char) -> bool {
    ||| '\u{9}' <= c <= '\u{d}'
    ||| c == ' '
    ||| c == '\u{85}'
    ||| c == '\u{a0}'
    ||| c == '\u{1680}'
    ||| '\u{2000}' <= c <= '\u{200a}'
    ||| c == '\u{2028}'
    ||| c == '\u{2029}'
    ||| c == '\u{202f}'
    ||| c == '\u{205f}'
    ||| c == '\u{3000}'
}

pub fn is_whitespace_char(c: char) -> (r: bool)
    ensures
        r == is_whitespace(c),
{
    ('\u{9}' <= c && c <= '\u{d}') || c == ' ' || c == '\u{85}' || c == '\u{a0}' || c
        == '\u{1680}' || ('\u{2000}' <= c && c <= '\u{200a}') || c == '\u{2028}' || c
        == '\u{2029}' || c == '\u{202f}' || c == '\u{205f}' || c == '\u{3000}'
}

/// `str::trim_start`.
pub open spec fn trim_start(s: Seq<char>) -> Seq<char>
    decreases s.len(),
{
    if s.len() > 0 && is_whitespace(s[0]) {
        trim_start(s.drop_first())
    } else {
        s
    }
}

/// `str::trim_end`.
pub open spec fn trim_end(s: Seq<char>) -> Seq<char>
    decreases s.len(),
{
    if s.len() > 0 && is_whitespace(s.last()) {
        trim_end(s.drop_last())
    } else {
        s
    }
}

/// `str::trim`.
pub open spec fn trim(s: Seq<char>) -> Seq<char> {
    trim_end(trim_start(s))
}

proof fn lemma_trim_start_skip(s: Seq<char>, i: int)
    requires
        0 <= i <= s.len(),
        forall|j: int| 0 <= j < i ==> is_whitespace(s[j]),
    ensures
        trim_start(s) == trim_start(s.skip(i)),
    decreases i,
{
    if i > 0 {
        lemma_trim_start_skip(s.drop_first(), i - 1);
        assert(s.drop_first().skip(i - 1) =~= s.skip(i));
    } else {
        assert(s.skip(0) =~= s);
    }
}

proof fn lemma_trim_end_take(s: Seq<char>, i: int)
    requires
        0 <= i <= s.len(),
        forall|j: int| i <= j < s.len() ==> is_whitespace(s[j]),
    ensures
        trim_end(s) == trim_end(s.take(i)),
    decreases s.len() - i,
{
    if i < s.len() {
        lemma_trim_end_take(s.drop_last(), i);
        assert(s.drop_last().take(i) =~= s.take(i));
    } else {
        assert(s.take(i) =~= s);
    }
}

/// The range `[start, end)` that `trim` keeps.
pub fn trim_bounds(s: &[char]) -> (r: (usize, usize))
    ensures
        r.0 <= r.1 <= s@.len(),
        trim(s@) == s@.subrange(r.0 as int, r.1 as int),
{
    let mut i: usize = 0;
    while i < s.len() && is_whitespace_char(s[i])
        invariant
            i <= s@.len(),
            forall|j: int| 0 <= j < i ==> is_whitespace(s@[j]),
        decreases s@.len() - i,
    {
        i = i + 1;
    }
    proof {
        lemma_trim_start_skip(s@, i as int);
    }
    if i == s.len() {
        assert(s@.skip(i as int) =~= Seq::<char>::empty());
        assert(s@.subrange(i as int, i as int) =~= Seq::<char>::empty());
        return (i, i);
    }
    let mut j: usize = s.len();
    while j > i + 1 && is_whitespace_char(s[j - 1])
        invariant
            i < j <= s@.len(),
            forall|k: int| j <= k < s@.len() ==> is_whitespace(s@[k]),
        decreases j,
    {
        j = j - 1;
    }
    proof {
        let t = s@.skip(i as int);
        lemma_trim_end_take(t, j - i);
        let u = t.take(j - i);
        assert(u =~= s@.subrange(i as int, j as int));
        assert(!is_whitespace(u.last()));
    }
    (i, j)
}

/// `str::trim` on a character sequence.
pub fn trim_chars(s: &[char]) -> (t: Vec<char>)
    ensures
        t@ == trim(s@),
{
    let (a, b) = trim_bounds(s);
    copy_range(s, a, b)
}

/// Whether `s` begins with `prefix`.
pub fn starts_with(s: &[char], prefix: &[char]) -> (r: bool)
    ensures
        r == (prefix@.len() <= s@.len() && s@.take(prefix@.len() as int) == prefix@),
{
    if prefix.len() > s.len() {
        return false;
    }
    let mut i: usize = 0;
    while i < prefix.len()
        invariant
            prefix@.len() <= s@.len(),
            i <= prefix@.len(),
            forall|j: int| 0 <= j < i ==> s@[j] == prefix@[j],
        decreases prefix@.len() - i,
    {
        if s[i] != prefix[i] {
            assert(s@.take(prefix@.len() as int)[i as int] != prefix@[i as int]);
            return false;
        }
        i = i + 1;
    }
    assert(s@.take(prefix@.len() as int) =~= prefix@);
    true
}

/// Whether two character sequences are equal.
pub fn chars_eq(a: &[char], b: &[char]) -> (r: bool)
    ensures
        r == (a@ == b@),
{
    if a.len() != b.len() {
        return false;
    }
    assert(a@.take(b@.len() as int) =~= a@);
    starts_with(a, b)
}


/// Appends all of `s` to `v`.
pub fn push_all(v: &mut Vec<char>, s: &[char])
    ensures
        final(v)@ == old(v)@ + s@,
{
    let mut i: usize = 0;
    while i < s.len()
        invariant
            i <= s@.len(),
            v@ == old(v)@ + s@.take(i as int),
        decreases s@.len() - i,
    {
        v.push(s[i]);
        assert(s@.take(i + 1) =~= s@.take(i as int).push(s@[i as int]));
        i = i + 1;
    }
    assert(s@.take(s@.len() as int) =~= s@);
}

/// Appends the characters of `s` to `v`.
pub fn push_str(v: &mut Vec<char>, s: &str)
    ensures
        final(v)@ == old(v)@ + s@,
{
    let c = chars_of(s);
    push_all(v, c.as_slice());
}


/// The texts of `parts`, one after another.
pub open spec fn concat_all(parts: Seq<&str>) -> Seq<char>
    decreases parts.len(),
{
    if parts.len() == 0 {
        Seq::empty()
    } else {
        concat_all(parts.drop_last()) + parts.last()@
    }
}

/// The characters of `parts`, one after another.
pub fn concat_parts(parts: &[&str]) -> (v: Vec<char>)
    ensures
        v@ == concat_all(parts@),
{
    let mut v: Vec<char> = Vec::new();
    let mut i: usize = 0;
    while i < parts.len()
        invariant
            i <= parts@.len(),
            v@ == concat_all(parts@.take(i as int)),
        decreases parts@.len() - i,
    {
        push_str(&mut v, parts[i]);
        assert(parts@.take(i + 1).drop_last() =~= parts@.take(i as int));
        i = i + 1;
    }
    assert(parts@.take(parts@.len() as int) =~= parts@);
    v
}

/// Uppercase hexadecimal digit.
pub open spec fn hex_digit_upper(n: int) -> char {
    if n < 10 {
        (n + 48) as char
    } else {
        (n + 55) as char
    }
}

pub fn upper_hex_digit(n: u8) -> (c: char)
    requires
        n < 16,
    ensures
        c == hex_digit_upper(n as int),
{
    if n < 10 {
        digit_to_char(n as u64)
    } else if n == 10 {
        'A'
    } else if n == 11 {
        'B'
    } else if n == 12 {
        'C'
    } else if n == 13 {
        'D'
    } else if n == 14 {
        'E'
    } else {
        'F'
    }
}

/// Percent-encoding of one byte value: `%XY` with uppercase hex digits.
pub open spec fn percent_byte(b: u8) -> Seq<char> {
    seq!['%', hex_digit_upper(b as int / 16), hex_digit_upper(b as int % 16)]
}

pub fn push_percent(v: &mut Vec<char>, b: u8)
    ensures
        final(v)@ == old(v)@ + percent_byte(b),
{
    v.push('%');
    let hi = upper_hex_digit(b / 16);
    let lo = upper_hex_digit(b % 16);
    v.push(hi);
    v.push(lo);
    assert(final(v)@ =~= old(v)@ + percent_byte(b));
}

/// RFC 3986 unreserved characters.
pub open spec fn is_unreserved(c: char) -> bool {
    ('A' <= c <= 'Z') || ('a' <= c <= 'z') || ('0' <= c <= '9') || c == '-' || c == '_' || c
        == '.' || c == '~'
}

pub fn is_unreserved_char(c: char) -> (r: bool)
    ensures
        r == is_unreserved(c),
{
    ('A' <= c && c <= 'Z') || ('a' <= c && c <= 'z') || ('0' <= c && c <= '9') || c == '-' || c
        == '_' || c == '.' || c == '~'
}


/// Whether `pat` occurs in `s`.
pub open spec fn contains_seq(s: Seq<char>, pat: Seq<char>) -> bool {
    exists|i: int| 0 <= i && i + pat.len() <= s.len() && #[trigger] s.subrange(i, i + pat.len()) == pat
}

/// `str::contains` for a pattern string.
pub fn contains_chars(s: &[char], pat: &[char]) -> (r: bool)
    ensures
        r == contains_seq(s@, pat@),
{
    if pat.len() > s.len() {
        return false;
    }
    let last = s.len() - pat.len();
    let mut i: usize = 0;
    while i <= last
        invariant
            pat@.len() <= s@.len(),
            last == s@.len() - pat@.len(),
            i <= last + 1,
            forall|j: int| 0 <= j < i ==> #[trigger] s@.subrange(j, j + pat@.len()) != pat@,
        decreases last + 1 - i,
    {
        let rest = &s[i..s.len()];
        if starts_with(rest, pat) {
            assert(rest@.take(pat@.len() as int) =~= s@.subrange(i as int, i + pat@.len()));
            return true;
        }
        assert(rest@.take(pat@.len() as int) =~= s@.subrange(i as int, i + pat@.len()));
        if i == last {
            return false;
        }
        i = i + 1;
    }
    false
}


/// `str::to_lowercase`: the Unicode lowercase mapping of each character.
pub uninterp spec fn lowercase_spec(s: Seq<char>) -> Seq<char>;

/// `str::to_lowercase` (std): its result is named `lowercase_spec`; the Unicode case
/// tables it follows are not restated here.
#[verifier::external_body]
pub(crate) fn to_lowercase(s: &str) -> (r: String)
    ensures
        r@ == lowercase_spec(s@),
{
    s.to_lowercase()
}

/// Whether `pat` occurs in `s` (`str::contains`).
pub fn str_contains(s: &str, pat: &str) -> (r: bool)
    ensures
        r == contains_seq(s@, pat@),
{
    let a = chars_of(s);
    let b = chars_of(pat);
    contains_chars(a.as_slice(), b.as_slice())
}


/// The day number of a `YYYY-MM-DD` date (`NaiveDate::parse_from_str` with `%Y-%m-%d`,
/// then `num_days_from_ce`, which counts 1 January of year 1 as day 1); `None` when the
/// text is not such a date.
pub uninterp spec fn ymd_day_number_spec(s: Seq<char>) -> Option<int>;

/// `chrono::NaiveDate::parse_from_str(s, "%Y-%m-%d")` and `Datelike::num_days_from_ce`:
/// the result is named `ymd_day_number_spec`. Consecutive calendar days have consecutive
/// numbers, so a difference of one is the `NaiveDate` difference of one day.
#[verifier::external_body]
pub(crate) fn ymd_day_number(s: &str) -> (r: Option<i64>)
    ensures
        match r {
            Some(n) => ymd_day_number_spec(s@) == Some(n as int),
            None => ymd_day_number_spec(s@) is None,
        },
{
    chrono::NaiveDate::parse_from_str(s, "%Y-%m-%d").ok().map(|d| d.num_days_from_ce() as i64)
}


/// The Unix time of a `YYYY-MM-DD HH:MM:SS` timestamp read as UTC
/// (`NaiveDateTime::parse_from_str` with `%Y-%m-%d %H:%M:%S`, then `and_utc().timestamp()`);
/// `None` when the text is not such a timestamp.
pub uninterp spec fn sql_datetime_secs_spec(s: Seq<char>) -> Option<int>;

/// `chrono::NaiveDateTime::parse_from_str(s, "%Y-%m-%d %H:%M:%S")` and `and_utc().timestamp()`:
/// the result is named `sql_datetime_secs_spec`.
#[verifier::external_body]
pub(crate) fn sql_datetime_secs(s: &str) -> (r: Option<i64>)
    ensures
        match r {
            Some(n) => sql_datetime_secs_spec(s@) == Some(n as int),
            None => sql_datetime_secs_spec(s@) is None,
        },
{
    chrono::NaiveDateTime::parse_from_str(s, "%Y-%m-%d %H:%M:%S").ok().map(|t| t.and_utc().timestamp())
}


/// `s` without every leading `c` (`trim_start_matches(c)`).
pub open spec fn trim_char_start(s: Seq<char>, c: char) -> Seq<char>
    decreases s.len(),
{
    if s.len() > 0 && s[0] == c {
        trim_char_start(s.drop_first(), c)
    } else {
        s
    }
}

/// `s` without every trailing `c` (`trim_end_matches(c)`).
pub open spec fn trim_char_end(s: Seq<char>, c: char) -> Seq<char>
    decreases s.len(),
{
    if s.len() > 0 && s.last() == c {
        trim_char_end(s.drop_last(), c)
    } else {
        s
    }
}

/// `s` without every leading and trailing `c` (`trim_matches(c)`).
pub open spec fn trim_char(s: Seq<char>, c: char) -> Seq<char> {
    trim_char_end(trim_char_start(s, c), c)
}

/// `trim_end_matches(c)`.
pub fn strip_char_end(s: &[char], c: char) -> (r: Vec<char>)
    ensures
        r@ == trim_char_end(s@, c),
{
    let mut j: usize = s.len();
    assert(s@.take(j as int) =~= s@);
    while j > 0 && s[j - 1] == c
        invariant
            j <= s@.len(),
            trim_char_end(s@, c) == trim_char_end(s@.take(j as int), c),
        decreases j,
    {
        assert(s@.take(j as int).drop_last() =~= s@.take(j - 1));
        j = j - 1;
    }
    assert(s@.take(j as int).len() == 0 || s@.take(j as int).last() != c);
    copy_range(s, 0, j)
}

/// `trim_matches(c)`.
pub fn strip_char(s: &[char], c: char) -> (r: Vec<char>)
    ensures
        r@ == trim_char(s@, c),
{
    let mut i: usize = 0;
    assert(s@.skip(0) =~= s@);
    while i < s.len() && s[i] == c
        invariant
            i <= s@.len(),
            trim_char_start(s@, c) == trim_char_start(s@.skip(i as int), c),
        decreases s@.len() - i,
    {
        assert(s@.skip(i as int).drop_first() =~= s@.skip(i + 1));
        i = i + 1;
    }
    let rest = copy_range(s, i, s.len());
    assert(rest@ =~= s@.skip(i as int));
    strip_char_end(rest.as_slice(), c)
}

/// The lines of `s`: the pieces between `\n`, without a last empty piece after a final `\n`
/// (`str::lines`, up to the `\r` before a `\n`, which callers trim away).
pub open spec fn split_lines(s: Seq<char>) -> Seq<Seq<char>>
    decreases s.len(),
{
    if s.len() == 0 {
        Seq::empty()
    } else {
        let p = first_pos(s, '\n');
        if p < 0 {
            seq![s]
        } else {
            proof {
                lemma_first_pos_bounds(s, '\n');
            }
            seq![s.take(p)] + split_lines(s.skip(p + 1))
        }
    }
}

/// The lines of `s`.
pub fn lines_of(s: &str) -> (r: Vec<Vec<char>>)
    ensures
        r@.len() == split_lines(s@).len(),
        forall|i: int| 0 <= i < r@.len() ==> (#[trigger] r@[i])@ == split_lines(s@)[i],
{
    let cs = chars_of(s);
    let mut out: Vec<Vec<char>> = Vec::new();
    let mut pos: usize = 0;
    let ghost mut done: Seq<Seq<char>> = Seq::empty();
    assert(cs@.skip(0) =~= cs@);
    while pos < cs.len()
        invariant
            pos <= cs@.len(),
            cs@ == s@,
            split_lines(s@) == done + split_lines(cs@.skip(pos as int)),
            out@.len() == done.len(),
            forall|i: int| 0 <= i < out@.len() ==> (#[trigger] out@[i])@ == done[i],
        decreases cs@.len() - pos,
    {
        let rest = &cs.as_slice()[pos..cs.len()];
        assert(rest@ =~= cs@.skip(pos as int));
        let p = find_first(rest, '\n');
        proof {
            lemma_first_pos_bounds(rest@, '\n');
        }
        match p {
            None => {
                let line = copy_range(rest, 0, rest.len());
                assert(line@ =~= rest@);
                out.push(line);
                proof {
                    done = done.push(rest@);
                }
                assert(cs@.skip(cs@.len() as int) =~= Seq::<char>::empty());
                assert(split_lines(s@) =~= done + split_lines(cs@.skip(cs@.len() as int)));
                pos = cs.len();
            },
            Some(k) => {
                let line = copy_range(rest, 0, k);
                assert(line@ =~= rest@.take(k as int));
                out.push(line);
                proof {
                    done = done.push(rest@.take(k as int));
                }
                assert(rest@.skip(k + 1) =~= cs@.skip(pos + k + 1));
                assert(split_lines(s@) =~= done + split_lines(cs@.skip(pos + k + 1)));
                pos = pos + k + 1;
            },
        }
    }
    assert(cs@.skip(pos as int) =~= Seq::<char>::empty());
    assert(done + Seq::<Seq<char>>::empty() =~= done);
    out
}


/// UTF-8 encoding of a concatenation is the concatenation of the encodings.
pub proof fn lemma_encode_utf8_concat(a: Seq<char>, b: Seq<char>)
    ensures
        encode_utf8(a + b) == encode_utf8(a) + encode_utf8(b),
    decreases a.len(),
{
    if a.len() == 0 {
        assert(a + b =~= b);
        assert(encode_utf8(a) =~= Seq::<u8>::empty());
        assert(encode_utf8(a) + encode_utf8(b) =~= encode_utf8(b));
    } else {
        assert((a + b).drop_first() =~= a.drop_first() + b);
        assert((a + b)[0] == a[0]);
        lemma_encode_utf8_concat(a.drop_first(), b);
        assert(encode_utf8(a + b) =~= encode_utf8(a) + encode_utf8(b));
    }
}

/// The UTF-8 length of a text's first `k` characters grows with `k`, one character's width
/// at a time.
pub proof fn lemma_encode_utf8_take(s: Seq<char>, k: int)
    requires
        0 <= k < s.len(),
    ensures
        encode_utf8(s.take(k + 1)).len() == encode_utf8(s.take(k)).len() + vstd::utf8::encode_scalar(s[k] as u32).len(),
        vstd::utf8::encode_scalar(s[k] as u32).len() >= 1,
{
    assert(s.take(k + 1) =~= s.take(k) + seq![s[k]]);
    lemma_encode_utf8_concat(s.take(k), seq![s[k]]);
    assert(seq![s[k]].drop_first() =~= Seq::<char>::empty());
    assert(encode_utf8(seq![s[k]]) =~= vstd::utf8::encode_scalar(s[k] as u32) + encode_utf8(Seq::<char>::empty()));
}

/// The number of bytes `c` takes in UTF-8 (`char::len_utf8`).
pub fn utf8_width(c: char) -> (w: usize)
    ensures
        w == vstd::utf8::encode_scalar(c as u32).len(),
        1 <= w <= 4,
{
    let v = c as u32;
    proof {
        vstd::utf8::char_is_scalar(c);
    }
    if v <= 0x7f {
        1
    } else if v <= 0x7ff {
        2
    } else if v <= 0xffff {
        3
    } else {
        4
    }
}


/// The instant of an RFC 3339 timestamp (`DateTime::parse_from_rfc3339`): its Unix timestamp
/// in seconds and the nanoseconds within that second; `None` when the text is not RFC 3339.
pub uninterp spec fn rfc3339_instant_spec(s: Seq<char>) -> Option<(int, int)>;

/// The instant of an RFC 3339 timestamp in nanoseconds since the Unix epoch.
pub open spec fn rfc3339_nanos_spec(s: Seq<char>) -> Option<int> {
    match rfc3339_instant_spec(s) {
        Some((secs, nanos)) => Some(secs * 1_000_000_000 + nanos),
        None => None,
    }
}

/// `chrono::DateTime::parse_from_rfc3339`, then `timestamp` and `timestamp_subsec_nanos`: the
/// pair is named `rfc3339_instant_spec`. The nanoseconds stay below two billion (they pass
/// one billion only within a leap second).
#[verifier::external_body]
fn rfc3339_instant(s: &str) -> (r: Option<(i64, u32)>)
    ensures
        match r {
            Some((secs, nanos)) => rfc3339_instant_spec(s@) == Some((secs as int, nanos as int)) && nanos
                < 2_000_000_000,
            None => rfc3339_instant_spec(s@) is None,
        },
{
    chrono::DateTime::parse_from_rfc3339(s).ok().map(|t| (t.timestamp(), t.timestamp_subsec_nanos()))
}

/// The instant of an RFC 3339 timestamp in nanoseconds since the Unix epoch.
pub(crate) fn rfc3339_nanos(s: &str) -> (r: Option<i128>)
    ensures
        match r {
            Some(n) => rfc3339_nanos_spec(s@) == Some(n as int),
            None => rfc3339_nanos_spec(s@) is None,
        },
{
    match rfc3339_instant(s) {
        Some((secs, nanos)) => {
            assert(-0x8000_0000_0000_0000 * 1_000_000_000 <= secs * 1_000_000_000 <= 0x7fff_ffff_ffff_ffff
                * 1_000_000_000) by (nonlinear_arith)
                requires
                    -0x8000_0000_0000_0000 <= secs <= 0x7fff_ffff_ffff_ffff,
            ;
            Some(secs as i128 * 1_000_000_000 + nanos as i128)
        },
        None => None,
    }
}

/// Whether two strings are equal.
pub fn str_eq(a: &str, b: &str) -> (r: bool)
    ensures
        r == (a@ == b@),
{
    let x = chars_of(a);
    let y = chars_of(b);
    chars_eq(x.as_slice(), y.as_slice())
}


/// What `str::parse::<u32>` accepts.
pub open spec fn parse_u32_spec(s: Seq<char>) -> Option<u32> {
    let b = unsigned_body(s);
    if b.len() > 0 && all_digits(b) && digits_value(b) <= u32::MAX {
        Some(digits_value(b) as u32)
    } else {
        None
    }
}

/// `str::parse::<u32>` on a character sequence.
pub fn parse_u32(s: &[char]) -> (r: Option<u32>)
    ensures
        r == parse_u32_spec(s@),
{
    let body: &[char] = if s.len() > 0 && s[0] == '+' {
        &s[1..s.len()]
    } else {
        s
    };
    assert(body@ =~= unsigned_body(s@));
    match parse_digits(body, u32::MAX as u64) {
        Some(v) => Some(v as u32),
        None => None,
    }
}

/// The nonempty trimmed pieces of `s` between commas, in order.
pub open spec fn comma_list(s: Seq<char>) -> Seq<Seq<char>>
    decreases s.len(),
{
    let p = first_pos(s, ',');
    let seg = if p < 0 {
        s
    } else {
        s.take(p)
    };
    let t = trim(seg);
    let head = if t.len() > 0 {
        seq![t]
    } else {
        Seq::empty()
    };
    if p < 0 {
        head
    } else {
        proof {
            lemma_first_pos_bounds(s, ',');
        }
        head + comma_list(s.skip(p + 1))
    }
}

/// Splits `s` at commas, trims each piece and drops the empty ones.
pub fn split_comma_list(s: &str) -> (items: Vec<String>)
    ensures
        items@.len() == comma_list(s@).len(),
        forall|i: int| 0 <= i < items@.len() ==> #[trigger] items@[i]@ == comma_list(s@)[i],
{
    let cs = chars_of(s);
    let mut out: Vec<String> = Vec::new();
    let mut pos: usize = 0;
    let ghost mut done: Seq<Seq<char>> = Seq::empty();
    assert(cs@.skip(0) =~= cs@);
    loop
        invariant
            pos <= cs@.len(),
            cs@ == s@,
            comma_list(s@) == done + comma_list(cs@.skip(pos as int)),
            out@.len() == done.len(),
            forall|i: int| 0 <= i < out@.len() ==> #[trigger] out@[i]@ == done[i],
        decreases cs@.len() + 1 - pos,
    {
        let rest = &cs.as_slice()[pos..cs.len()];
        assert(rest@ =~= cs@.skip(pos as int));
        let p = find_first(rest, ',');
        proof {
            lemma_first_pos_bounds(rest@, ',');
        }
        let end = match p {
            Some(k) => k,
            None => rest.len(),
        };
        let seg = &rest[0..end];
        proof {
            if p is None {
                assert(seg@ =~= rest@);
            } else {
                assert(seg@ =~= rest@.take(end as int));
            }
        }
        let t = trim_chars(seg);
        let ghost head: Seq<Seq<char>> = if t@.len() > 0 {
            seq![t@]
        } else {
            Seq::empty()
        };
        if t.len() > 0 {
            out.push(string_of(t.as_slice()));
        }
        proof {
            done = done + head;
        }
        match p {
            None => {
                assert(comma_list(s@) == done);
                assert(done + Seq::<Seq<char>>::empty() =~= done);
                return out;
            },
            Some(k) => {
                assert(rest@.skip(k + 1) =~= cs@.skip(pos + k + 1));
                assert(comma_list(s@) =~= done + comma_list(cs@.skip(pos + k + 1)));
                pos = pos + k + 1;
            },
        }
    }
}


/// `str::replace`: every non-overlapping occurrence of `pat`, scanning from the left,
/// replaced by `with`.
pub open spec fn replace_all(s: Seq<char>, pat: Seq<char>, with: Seq<char>) -> Seq<char>
    decreases s.len(),
{
    if pat.len() == 0 || s.len() < pat.len() {
        s
    } else if s.take(pat.len() as int) == pat {
        with + replace_all(s.skip(pat.len() as int), pat, with)
    } else {
        seq![s[0]] + replace_all(s.drop_first(), pat, with)
    }
}

/// Replaces every occurrence of a nonempty `pat` in `s` by `with`.
pub fn replace_chars(s: &[char], pat: &[char], with: &[char]) -> (r: Vec<char>)
    requires
        pat@.len() > 0,
    ensures
        r@ == replace_all(s@, pat@, with@),
{
    let mut out: Vec<char> = Vec::new();
    let mut i: usize = 0;
    assert(s@.skip(0) =~= s@);
    while i < s.len()
        invariant
            i <= s@.len(),
            pat@.len() > 0,
            replace_all(s@, pat@, with@) == out@ + replace_all(s@.skip(i as int), pat@, with@),
        decreases s@.len() - i,
    {
        let rest = &s[i..s.len()];
        assert(rest@ =~= s@.skip(i as int));
        if rest.len() >= pat.len() && starts_with(rest, pat) {
            push_all(&mut out, with);
            assert(rest@.skip(pat@.len() as int) =~= s@.skip(i + pat@.len()));
            i = i + pat.len();
        } else {
            out.push(s[i]);
            assert(rest@.drop_first() =~= s@.skip(i + 1));
            i = i + 1;
        }
    }
    assert(s@.skip(i as int) =~= Seq::<char>::empty());
    assert(out@ + Seq::<char>::empty() =~= out@);
    out
}


/// `words.join(sep)`.
pub open spec fn join(words: Seq<Seq<char>>, sep: Seq<char>) -> Seq<char>
    decreases words.len(),
{
    if words.len() == 0 {
        Seq::empty()
    } else if words.len() == 1 {
        words[0]
    } else {
        join(words.drop_last(), sep) + sep + words.last()
    }
}

/// The texts of a list of strings.
pub open spec fn texts(v: Seq<String>) -> Seq<Seq<char>> {
    Seq::new(v.len(), |i: int| v[i]@)
}

/// Appends the strings of `words` with `sep` between each two.
pub fn push_joined(out: &mut Vec<char>, words: &[String], sep: &str)
    ensures
        final(out)@ == old(out)@ + join(texts(words@), sep@),
{
    let ghost start = out@;
    let ghost ws = texts(words@);
    let mut i: usize = 0;
    while i < words.len()
        invariant
            i <= words@.len(),
            ws == texts(words@),
            out@ == start + join(ws.take(i as int), sep@),
        decreases words@.len() - i,
    {
        assert(ws.take(i + 1).drop_last() =~= ws.take(i as int));
        assert(ws.take(i + 1).last() == words@[i as int]@);
        if i > 0 {
            push_str(out, sep);
        }
        let c = chars_of(words[i].as_str());
        push_all(out, c.as_slice());
        proof {
            if i == 0 {
                assert(ws.take(1) =~= seq![words@[0]@]);
            }
            assert(out@ =~= start + join(ws.take(i + 1), sep@));
        }
        i = i + 1;
    }
    assert(ws.take(words@.len() as int) =~= ws);
}


/// The UTF-8 length of a prefix grows by at least one byte per character.
pub proof fn lemma_encode_utf8_take_grows(s: Seq<char>, a: int, b: int)
    requires
        0 <= a <= b <= s.len(),
    ensures
        encode_utf8(s.take(a)).len() + (b - a) <= encode_utf8(s.take(b)).len(),
    decreases b - a,
{
    if a < b {
        lemma_encode_utf8_take_grows(s, a, b - 1);
        lemma_encode_utf8_take(s, b - 1);
    }
}

/// The leading characters of `s` that make up its first `n` bytes in UTF-8: all of `s` when
/// it has no more than `n` bytes, `None` when byte `n` falls inside a character (where
/// slicing `&s[..n]` panics).
pub open spec fn utf8_cut(s: Seq<char>, n: int) -> Option<Seq<char>> {
    if encode_utf8(s).len() <= n {
        Some(s)
    } else if exists|k: int| 0 <= k <= s.len() && #[trigger] encode_utf8(s.take(k)).len() == n {
        Some(s.take(choose|k: int| 0 <= k <= s.len() && #[trigger] encode_utf8(s.take(k)).len() == n))
    } else {
        None
    }
}

/// `&s[..n.min(s.len())]` when it does not panic, as `utf8_cut` describes it.
pub fn utf8_prefix(s: &str, n: usize) -> (r: Option<String>)
    ensures
        opt_string_view(r) == utf8_cut(s@, n as int),
{
    let cs = chars_of(s);
    let mut bytes: usize = 0;
    let mut i: usize = 0;
    assert(cs@.take(0) =~= Seq::<char>::empty());
    while i < cs.len() && bytes < n
        invariant
            cs@ == s@,
            i <= cs@.len(),
            bytes == encode_utf8(cs@.take(i as int)).len(),
            bytes <= n,
        decreases cs@.len() - i,
    {
        proof {
            lemma_encode_utf8_take(cs@, i as int);
        }
        let w = utf8_width(cs[i]);
        if w > n - bytes {
            proof {
                assert forall|k: int| 0 <= k <= s@.len() implies #[trigger] encode_utf8(s@.take(k)).len() != n by {
                    if k <= i {
                        lemma_encode_utf8_take_grows(s@, k, i as int);
                    } else {
                        lemma_encode_utf8_take_grows(s@, (i + 1) as int, k);
                    }
                }
                lemma_encode_utf8_take_grows(s@, (i + 1) as int, s@.len() as int);
                assert(s@.take(s@.len() as int) =~= s@);
            }
            return None;
        }
        bytes = bytes + w;
        i = i + 1;
    }
    if i == cs.len() {
        assert(cs@.take(i as int) =~= s@);
        return Some(string_of(cs.as_slice()));
    }
    // bytes == n here, with i characters before byte n
    proof {
        lemma_encode_utf8_take_grows(s@, i as int, s@.len() as int);
        assert(s@.take(s@.len() as int) =~= s@);
        assert(encode_utf8(s@.take(i as int)).len() == n);
        let k = choose|k: int| 0 <= k <= s@.len() && #[trigger] encode_utf8(s@.take(k)).len() == n;
        if k < i {
            lemma_encode_utf8_take_grows(s@, k, i as int);
        } else if k > i {
            lemma_encode_utf8_take_grows(s@, i as int, k);
        }
        assert(k == i);
    }
    let prefix = copy_range(cs.as_slice(), 0, i);
    assert(prefix@ =~= s@.take(i as int));
    Some(string_of(prefix.as_slice()))
}

/// The text of an optional string.
pub open spec fn opt_string_view(o: Option<String>) -> Option<Seq<char>> {
    match o {
        Some(s) => Some(s@),
        None => None,
    }
}


/// `s.trim_start_matches(c)`.
pub fn strip_char_start(s: &[char], c: char) -> (r: Vec<char>)
    ensures
        r@ == trim_char_start(s@, c),
{
    let mut i: usize = 0;
    assert(s@.skip(0) =~= s@);
    while i < s.len() && s[i] == c
        invariant
            i <= s@.len(),
            trim_char_start(s@, c) == trim_char_start(s@.skip(i as int), c),
        decreases s@.len() - i,
    {
        assert(s@.skip(i as int).drop_first() =~= s@.skip(i + 1));
        i = i + 1;
    }
    let r = copy_range(s, i, s.len());
    assert(r@ =~= s@.skip(i as int));
    r
}


/// Whether `s` takes more than `n` bytes in UTF-8 (`s.len() > n`).
pub fn utf8_len_exceeds(s: &str, n: usize) -> (r: bool)
    requires
        n <= 0xffff,
    ensures
        r == (encode_utf8(s@).len() > n),
{
    let cs = chars_of(s);
    let mut bytes: usize = 0;
    let mut i: usize = 0;
    assert(cs@.take(0) =~= Seq::<char>::empty());
    while i < cs.len() && bytes <= n
        invariant
            cs@ == s@,
            n <= 0xffff,
            i <= cs@.len(),
            bytes == encode_utf8(cs@.take(i as int)).len(),
            bytes <= n + 4,
        decreases cs@.len() - i,
    {
        proof {
            lemma_encode_utf8_take(cs@, i as int);
        }
        bytes = bytes + utf8_width(cs[i]);
        i = i + 1;
    }
    proof {
        lemma_encode_utf8_take_grows(s@, i as int, s@.len() as int);
        assert(s@.take(s@.len() as int) =~= s@);
    }
    bytes > n
}

} // verus!
