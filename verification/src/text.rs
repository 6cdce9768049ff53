//! Text as sequences of characters: decimal numbers, whitespace-delimited
//! tokens and hexadecimal digits, each with its mathematical meaning.

use vstd::prelude::*;

verus! {

/// `String::push` of std appends one character to the end of the string.
pub assume_specification[ std::string::String::push ](s: &mut std::string::String, ch: char)
    ensures
        final(s)@ == old(s)@.push(ch),
;

/// `String::from_utf8` of std turns bytes into a string exactly where they
/// are valid UTF-8; the string then holds the characters that they encode.
pub assume_specification[ std::string::String::from_utf8 ](vec: Vec<u8>) -> (result: Result<
    std::string::String,
    std::string::FromUtf8Error,
>)
    ensures
        result is Ok <==> vstd::utf8::valid_utf8(vec@),
        result matches Ok(text) ==> text@ == vstd::utf8::decode_utf8(vec@),
;

/// The characters of a string, in order.
pub fn chars_of(s: &str) -> (v: Vec<char>)
    ensures
        v@ == s@,
{
    let mut v: Vec<char> = Vec::new();
    for c in it: s.chars()
        invariant
            v@ == it.seq().take(it.index() as int),
            it.seq() == s@,
    {
        v.push(c);
    }
    v
}

/// Whether two strings hold the same characters.
pub fn same_text(a: &str, b: &str) -> (same: bool)
    ensures
        same == (a@ == b@),
{
    let x = chars_of(a);
    let y = chars_of(b);
    if x.len() != y.len() {
        return false;
    }
    let mut i: usize = 0;
    while i < x.len()
        invariant
            i <= x.len(),
            x.len() == y.len(),
            x@ == a@,
            y@ == b@,
            x@.take(i as int) == y@.take(i as int),
        decreases x.len() - i,
    {
        if x[i] != y[i] {
            return false;
        }
        assert(x@.take(i + 1) == x@.take(i as int).push(x@[i as int]));
        assert(y@.take(i + 1) == y@.take(i as int).push(y@[i as int]));
        i = i + 1;
    }
    assert(x@ == x@.take(x.len() as int));
    assert(y@ == y@.take(y.len() as int));
    true
}

/// Whether `s` ends with `suffix`.
pub open spec fn has_suffix(s: Seq<char>, suffix: Seq<char>) -> bool {
    suffix.len() <= s.len() && s.subrange(s.len() - suffix.len(), s.len() as int) == suffix
}

/// Whether `s` ends with `suffix`, character by character.
pub fn ends_with(s: &str, suffix: &str) -> (found: bool)
    ensures
        found == has_suffix(s@, suffix@),
{
    let x = chars_of(s);
    let y = chars_of(suffix);
    if y.len() > x.len() {
        return false;
    }
    let start = x.len() - y.len();
    let ghost tail = x@.subrange(start as int, x.len() as int);
    let mut i: usize = 0;
    while i < y.len()
        invariant
            i <= y.len() <= x.len(),
            x@ == s@,
            y@ == suffix@,
            start == x.len() - y.len(),
            tail == x@.subrange(start as int, x.len() as int),
            tail.take(i as int) == y@.take(i as int),
        decreases y.len() - i,
    {
        if x[start + i] != y[i] {
            assert(tail[i as int] != y@[i as int]);
            return false;
        }
        assert(tail.take(i + 1) == tail.take(i as int).push(tail[i as int]));
        assert(y@.take(i + 1) == y@.take(i as int).push(y@[i as int]));
        i = i + 1;
    }
    assert(tail == tail.take(tail.len() as int));
    assert(y@ == y@.take(y.len() as int));
    true
}

/// Whether `s` starts with `prefix`.
pub open spec fn has_prefix(s: Seq<char>, prefix: Seq<char>) -> bool {
    prefix.len() <= s.len() && s.subrange(0, prefix.len() as int) == prefix
}

/// Whether `s` starts with `prefix`, character by character.
pub fn starts_with(s: &str, prefix: &str) -> (found: bool)
    ensures
        found == has_prefix(s@, prefix@),
{
    let x = chars_of(s);
    let y = chars_of(prefix);
    if y.len() > x.len() {
        return false;
    }
    let ghost head = x@.subrange(0, y.len() as int);
    let mut i: usize = 0;
    while i < y.len()
        invariant
            i <= y.len() <= x.len(),
            x@ == s@,
            y@ == prefix@,
            head == x@.subrange(0, y.len() as int),
            head.take(i as int) == y@.take(i as int),
        decreases y.len() - i,
    {
        if x[i] != y[i] {
            assert(head[i as int] != y@[i as int]);
            return false;
        }
        assert(head.take(i + 1) == head.take(i as int).push(head[i as int]));
        assert(y@.take(i + 1) == y@.take(i as int).push(y@[i as int]));
        i = i + 1;
    }
    assert(head == head.take(head.len() as int));
    assert(y@ == y@.take(y.len() as int));
    true
}

/// The character of a decimal digit `d < 10`.
pub open spec fn digit_char(d: nat) -> char {
    (d + 48) as char
}

/// Whether `c` is one of `0` to `9`.
pub open spec fn is_digit(c: char) -> bool {
    48 <= c as nat <= 57
}

/// The value of a decimal digit.
pub open spec fn digit_value(c: char) -> nat {
    (c as nat - 48) as nat
}

/// The decimal notation of `n`, without sign or leading zeros.
pub open spec fn decimal(n: nat) -> Seq<char>
    decreases n,
{
    if n < 10 {
        seq![digit_char(n)]
    } else {
        decimal(n / 10).push(digit_char(n % 10))
    }
}

/// The number that a run of decimal digits denotes.
pub open spec fn digits_value(s: Seq<char>) -> nat
    decreases s.len(),
{
    if s.len() == 0 {
        0
    } else {
        digits_value(s.drop_last()) * 10 + digit_value(s.last())
    }
}

/// Whether every character of `s` is a decimal digit.
pub open spec fn all_digits(s: Seq<char>) -> bool {
    forall|i: int| 0 <= i < s.len() ==> is_digit(#[trigger] s[i])
}

/// What `s` denotes as an unsigned 64-bit decimal: an optional `+`, then one
/// or more digits whose value fits; `None` for anything else.
pub open spec fn parse_u64(s: Seq<char>) -> Option<u64> {
    let digits = if s.len() > 0 && s[0] == '+' {
        s.subrange(1, s.len() as int)
    } else {
        s
    };
    if digits.len() > 0 && all_digits(digits) && digits_value(digits) <= u64::MAX {
        Some(digits_value(digits) as u64)
    } else {
        None
    }
}

/// The code points that Unicode marks as White_Space.
pub open spec fn is_whitespace(c: char) -> bool {
    let u = c as nat;
    ||| 0x09 <= u <= 0x0d
    ||| u == 0x20
    ||| u == 0x85
    ||| u == 0xa0
    ||| u == 0x1680
    ||| 0x2000 <= u <= 0x200a
    ||| u == 0x2028
    ||| u == 0x2029
    ||| u == 0x202f
    ||| u == 0x205f
    ||| u == 0x3000
}

/// The first index at or after `from` that holds no whitespace; the length
/// of `s` if there is none.
pub open spec fn skip_whitespace(s: Seq<char>, from: int) -> int
    decreases s.len() - from,
{
    if 0 <= from < s.len() && is_whitespace(s[from]) {
        skip_whitespace(s, from + 1)
    } else {
        from
    }
}

/// The first index at or after `from` that holds whitespace; the length of
/// `s` if there is none.
pub open spec fn skip_token(s: Seq<char>, from: int) -> int
    decreases s.len() - from,
{
    if 0 <= from < s.len() && !is_whitespace(s[from]) {
        skip_token(s, from + 1)
    } else {
        from
    }
}

/// The first whitespace-delimited token of `s`; empty if `s` holds only
/// whitespace.
pub open spec fn first_token(s: Seq<char>) -> Seq<char> {
    let start = skip_whitespace(s, 0);
    s.subrange(start, skip_token(s, start))
}

/// Whether Unicode marks `c` as White_Space.
pub fn char_is_whitespace(c: char) -> (w: bool)
    ensures
        w == is_whitespace(c),
{
    let u: u32 = c as u32;
    (0x09 <= u && u <= 0x0d) || u == 0x20 || u == 0x85 || u == 0xa0 || u == 0x1680 || (0x2000 <= u
        && u <= 0x200a) || u == 0x2028 || u == 0x2029 || u == 0x202f || u == 0x205f || u == 0x3000
}

/// Where the first token of `v` starts and ends.
pub fn first_token_range(v: &Vec<char>) -> (range: (usize, usize))
    ensures
        range.0 <= range.1 <= v.len(),
        range.0 == skip_whitespace(v@, 0),
        range.1 == skip_token(v@, range.0 as int),
        v@.subrange(range.0 as int, range.1 as int) == first_token(v@),
{
    let mut start: usize = 0;
    while start < v.len() && char_is_whitespace(v[start])
        invariant
            start <= v.len(),
            skip_whitespace(v@, 0) == skip_whitespace(v@, start as int),
        decreases v.len() - start,
    {
        start = start + 1;
    }
    let mut end: usize = start;
    while end < v.len() && !char_is_whitespace(v[end])
        invariant
            start <= end <= v.len(),
            skip_token(v@, start as int) == skip_token(v@, end as int),
        decreases v.len() - end,
    {
        end = end + 1;
    }
    (start, end)
}

/// A longer run of digits denotes at least as much as each of its prefixes.
pub proof fn lemma_digits_value_grows(s: Seq<char>, k: int)
    requires
        0 <= k <= s.len(),
    ensures
        digits_value(s.take(k)) <= digits_value(s),
    decreases s.len(),
{
    if k == s.len() {
        assert(s.take(k) == s);
    } else {
        assert(s.drop_last().take(k) == s.take(k));
        lemma_digits_value_grows(s.drop_last(), k);
    }
}

/// The value of `c` if it is a decimal digit.
pub fn digit_of(c: char) -> (d: Option<u64>)
    ensures
        d is Some == is_digit(c),
        d matches Some(x) ==> x == digit_value(c),
{
    let u: u32 = c as u32;
    if 48 <= u && u <= 57 {
        Some((u - 48) as u64)
    } else {
        None
    }
}

/// Reads `v[from..to]` as an unsigned 64-bit decimal.
pub fn parse_decimal(v: &Vec<char>, from: usize, to: usize) -> (n: Option<u64>)
    requires
        from <= to <= v.len(),
    ensures
        n == parse_u64(v@.subrange(from as int, to as int)),
{
    let ghost s = v@.subrange(from as int, to as int);
    let begin: usize = if from < to && v[from] == '+' {
        from + 1
    } else {
        from
    };
    let ghost digits = v@.subrange(begin as int, to as int);
    assert(digits == if s.len() > 0 && s[0] == '+' {
        s.subrange(1, s.len() as int)
    } else {
        s
    });
    if begin == to {
        return None;
    }
    let mut acc: u64 = 0;
    let mut i: usize = begin;
    while i < to
        invariant
            begin <= i <= to <= v.len(),
            digits == v@.subrange(begin as int, to as int),
            parse_u64(v@.subrange(from as int, to as int)) == if digits.len() > 0 && all_digits(
                digits,
            ) && digits_value(digits) <= u64::MAX {
                Some(digits_value(digits) as u64)
            } else {
                None
            },
            all_digits(digits.take(i - begin)),
            acc == digits_value(digits.take(i - begin)),
        decreases to - i,
    {
        let ghost seen = digits.take(i - begin);
        let ghost next = digits.take(i - begin + 1);
        assert(digits[i - begin] == v@[i as int]);
        assert(next.drop_last() == seen);
        assert(next.last() == v@[i as int]);
        match digit_of(v[i]) {
            None => {
                return None;
            },
            Some(d) => {
                assert(digits_value(next) == acc * 10 + d);
                if acc > (u64::MAX - d) / 10 {
                    proof {
                        if all_digits(digits) {
                            lemma_digits_value_grows(digits, i - begin + 1);
                        }
                    }
                    return None;
                }
                acc = acc * 10 + d;
                assert forall|j: int| 0 <= j < next.len() implies is_digit(#[trigger] next[j]) by {
                    if j < next.len() - 1 {
                        assert(next[j] == seen[j]);
                    }
                }
                i = i + 1;
            },
        }
    }
    assert(digits.take(to - begin) == digits);
    Some(acc)
}

/// Appends the decimal notation of `n` to `s`.
pub fn push_decimal(s: &mut String, n: u64)
    ensures
        final(s)@ == old(s)@ + decimal(n as nat),
    decreases n,
{
    if n >= 10 {
        push_decimal(s, n / 10);
    }
    let d: u8 = (n % 10) as u8;
    s.push((48 + d) as char);
}

/// What the decimal notation of a number looks like, and that reading it
/// gives the number back.
pub proof fn lemma_decimal_digits(n: nat)
    ensures
        decimal(n).len() > 0,
        all_digits(decimal(n)),
        digits_value(decimal(n)) == n,
    decreases n,
{
    if n < 10 {
        assert(decimal(n).drop_last() == Seq::<char>::empty());
        assert(digits_value(decimal(n).drop_last()) == 0);
    } else {
        lemma_decimal_digits(n / 10);
        assert(decimal(n).drop_last() == decimal(n / 10));
    }
}

/// Reading the decimal notation of a 64-bit number gives that number.
pub proof fn lemma_parse_decimal(n: u64)
    ensures
        parse_u64(decimal(n as nat)) == Some(n),
{
    lemma_decimal_digits(n as nat);
    assert(is_digit(decimal(n as nat)[0]));
}

/// The lowercase hexadecimal digit for `d < 16`.
pub open spec fn hex_digit(d: nat) -> char {
    if d < 10 {
        (d + 48) as char
    } else {
        (d + 87) as char
    }
}

/// The lowercase hexadecimal notation of `bytes`, two digits for each byte.
pub open spec fn hex(bytes: Seq<u8>) -> Seq<char> {
    Seq::new(
        2 * bytes.len(),
        |i: int|
            if i % 2 == 0 {
                hex_digit(bytes[i / 2] as nat / 16)
            } else {
                hex_digit(bytes[i / 2] as nat % 16)
            },
    )
}

fn hex_digit_of(d: u8) -> (c: char)
    requires
        d < 16,
    ensures
        c == hex_digit(d as nat),
{
    if d < 10 {
        (48 + d) as char
    } else {
        (87 + d) as char
    }
}

/// Appends the lowercase hexadecimal notation of `bytes` to `s`.
pub fn push_hex(s: &mut String, bytes: &[u8])
    ensures
        final(s)@ == old(s)@ + hex(bytes@),
{
    let mut i: usize = 0;
    while i < bytes.len()
        invariant
            i <= bytes.len(),
            s@ == old(s)@ + hex(bytes@.take(i as int)),
        decreases bytes.len() - i,
    {
        let b = bytes[i];
        s.push(hex_digit_of(b / 16));
        s.push(hex_digit_of(b % 16));
        assert(hex(bytes@.take(i + 1)) == hex(bytes@.take(i as int)).push(
            hex_digit(b as nat / 16),
        ).push(hex_digit(b as nat % 16)));
        i = i + 1;
    }
    assert(bytes@.take(bytes.len() as int) == bytes@);
}

} // verus!
