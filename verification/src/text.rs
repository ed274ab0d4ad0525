//! Text helpers on `String` and `str`: UTF-8 decoding of stored bytes,
//! trimming of trailing characters, and decimal rendering of integers.

use vstd::prelude::*;
use vstd::string::*;
use vstd::utf8::*;

verus! {

/// Calls `String::from_utf8`. The standard library documents that it fails
/// exactly when the bytes are not valid UTF-8; on success the string holds the
/// characters that the bytes encode, and nothing else.
#[verifier::external_body]
pub(crate) fn string_from_utf8(bytes: Vec<u8>) -> (r: Option<String>)
    ensures
        r is Some <==> valid_utf8(bytes@),
        r matches Some(s) ==> s@ == decode_utf8(bytes@),
{
    String::from_utf8(bytes).ok()
}

/// The bytes of a string, in UTF-8.
pub fn string_bytes(s: &String) -> (r: Vec<u8>)
    ensures
        r@ == encode_utf8(s@),
{
    let bytes = s.as_str().as_bytes();
    vstd::slice::slice_to_vec(bytes)
}

/// The byte length of a string, in UTF-8.
pub fn string_byte_len(s: &String) -> (r: usize)
    ensures
        r == encode_utf8(s@).len(),
{
    s.as_str().as_bytes().len()
}

/// Whether `c` has the Unicode `White_Space` property, which is what
/// `char::is_whitespace` tests.
pub open spec fn is_white_space(c: char) -> bool {
    ||| ('\u{9}' <= c && c <= '\u{d}')
    ||| c == ' '
    ||| c == '\u{85}'
    ||| c == '\u{a0}'
    ||| c == '\u{1680}'
    ||| ('\u{2000}' <= c && c <= '\u{200a}')
    ||| c == '\u{2028}'
    ||| c == '\u{2029}'
    ||| c == '\u{202f}'
    ||| c == '\u{205f}'
    ||| c == '\u{3000}'
}

/// `chars` without its trailing white space (what `str::trim_end` leaves).
pub open spec fn trim_end_white(chars: Seq<char>) -> Seq<char>
    decreases chars.len(),
{
    if chars.len() > 0 && is_white_space(chars.last()) {
        trim_end_white(chars.drop_last())
    } else {
        chars
    }
}

/// `chars` without the run of `c` at its end (what `str::trim_end_matches`
/// leaves for a one-character pattern).
pub open spec fn trim_end_char(chars: Seq<char>, c: char) -> Seq<char>
    decreases chars.len(),
{
    if chars.len() > 0 && chars.last() == c {
        trim_end_char(chars.drop_last(), c)
    } else {
        chars
    }
}

/// The character of the decimal digit `d`.
pub open spec fn digit_char(d: nat) -> char {
    if d == 0 { '0' }
    else if d == 1 { '1' }
    else if d == 2 { '2' }
    else if d == 3 { '3' }
    else if d == 4 { '4' }
    else if d == 5 { '5' }
    else if d == 6 { '6' }
    else if d == 7 { '7' }
    else if d == 8 { '8' }
    else { '9' }
}

/// The decimal digits of `n`, without leading zeros (as `Display` writes an
/// unsigned integer).
pub open spec fn decimal(n: nat) -> Seq<char>
    decreases n,
{
    if n < 10 {
        seq![digit_char(n)]
    } else {
        decimal(n / 10).push(digit_char(n % 10))
    }
}

pub fn char_is_whitespace(c: char) -> (r: bool)
    ensures
        r == is_white_space(c),
{
    ('\u{9}' <= c && c <= '\u{d}') || c == ' ' || c == '\u{85}' || c == '\u{a0}'
        || c == '\u{1680}' || ('\u{2000}' <= c && c <= '\u{200a}') || c == '\u{2028}'
        || c == '\u{2029}' || c == '\u{202f}' || c == '\u{205f}' || c == '\u{3000}'
}

proof fn lemma_trim_end_white_prefix(chars: Seq<char>, k: int)
    requires
        0 < k <= chars.len(),
        is_white_space(chars[k - 1]),
    ensures
        trim_end_white(chars.subrange(0, k)) == trim_end_white(chars.subrange(0, k - 1)),
{
    assert(chars.subrange(0, k).drop_last() == chars.subrange(0, k - 1));
}

proof fn lemma_trim_end_char_prefix(chars: Seq<char>, k: int, c: char)
    requires
        0 < k <= chars.len(),
        chars[k - 1] == c,
    ensures
        trim_end_char(chars.subrange(0, k), c) == trim_end_char(chars.subrange(0, k - 1), c),
{
    assert(chars.subrange(0, k).drop_last() == chars.subrange(0, k - 1));
}

/// `s` without its trailing white space, as `str::trim_end` gives it.
pub fn trim_end(s: &str) -> (r: &str)
    ensures
        r@ == trim_end_white(s@),
{
    let n = s.unicode_len();
    let mut k = n;
    assert(s@.subrange(0, n as int) == s@);
    loop
        invariant
            k <= n,
            n == s@.len(),
            trim_end_white(s@.subrange(0, k as int)) == trim_end_white(s@),
        ensures
            k <= n,
            trim_end_white(s@.subrange(0, k as int)) == trim_end_white(s@),
            trim_end_white(s@.subrange(0, k as int)) == s@.subrange(0, k as int),
        decreases k,
    {
        if k == 0 {
            assert(s@.subrange(0, 0) == Seq::<char>::empty());
            break;
        }
        let c = s.get_char(k - 1);
        if !char_is_whitespace(c) {
            assert(s@.subrange(0, k as int).last() == c);
            break;
        }
        proof {
            lemma_trim_end_white_prefix(s@, k as int);
        }
        k = k - 1;
    }
    s.substring_char(0, k)
}

/// `s` without the run of `c` at its end, as `str::trim_end_matches` gives
/// it for a pattern of one character.
pub fn trim_end_matches_char(s: &str, c: char) -> (r: &str)
    ensures
        r@ == trim_end_char(s@, c),
{
    let n = s.unicode_len();
    let mut k = n;
    assert(s@.subrange(0, n as int) == s@);
    loop
        invariant
            k <= n,
            n == s@.len(),
            trim_end_char(s@.subrange(0, k as int), c) == trim_end_char(s@, c),
        ensures
            k <= n,
            trim_end_char(s@.subrange(0, k as int), c) == trim_end_char(s@, c),
            trim_end_char(s@.subrange(0, k as int), c) == s@.subrange(0, k as int),
        decreases k,
    {
        if k == 0 {
            assert(s@.subrange(0, 0) == Seq::<char>::empty());
            break;
        }
        let d = s.get_char(k - 1);
        if d != c {
            assert(s@.subrange(0, k as int).last() == d);
            break;
        }
        proof {
            lemma_trim_end_char_prefix(s@, k as int, c);
        }
        k = k - 1;
    }
    s.substring_char(0, k)
}

fn digit_str(d: u128) -> (r: &'static str)
    requires
        d < 10,
    ensures
        r@ == seq![digit_char(d as nat)],
{
    if d == 0 {
        proof { reveal_strlit("0"); }
        "0"
    } else if d == 1 {
        proof { reveal_strlit("1"); }
        "1"
    } else if d == 2 {
        proof { reveal_strlit("2"); }
        "2"
    } else if d == 3 {
        proof { reveal_strlit("3"); }
        "3"
    } else if d == 4 {
        proof { reveal_strlit("4"); }
        "4"
    } else if d == 5 {
        proof { reveal_strlit("5"); }
        "5"
    } else if d == 6 {
        proof { reveal_strlit("6"); }
        "6"
    } else if d == 7 {
        proof { reveal_strlit("7"); }
        "7"
    } else if d == 8 {
        proof { reveal_strlit("8"); }
        "8"
    } else {
        proof { reveal_strlit("9"); }
        "9"
    }
}

/// The decimal rendering of `n`, as `format!("{}", n)` writes it.
pub fn decimal_string(n: u128) -> (r: String)
    ensures
        r@ == decimal(n as nat),
    decreases n,
{
    if n < 10 {
        String::from_str(digit_str(n))
    } else {
        let mut s = decimal_string(n / 10);
        s.append(digit_str(n % 10));
        s
    }
}

/// Whether `c` is an ASCII decimal digit.
pub open spec fn is_ascii_digit(c: char) -> bool {
    '0' <= c && c <= '9'
}

/// The number that a sequence of ASCII decimal digits denotes.
pub open spec fn digits_value(digits: Seq<char>) -> nat
    decreases digits.len(),
{
    if digits.len() == 0 {
        0
    } else {
        digits_value(digits.drop_last()) * 10 + ((digits.last() as nat) - ('0' as nat)) as nat
    }
}

/// The digits of a number's text: the text without one leading `+`.
pub open spec fn unsigned_digits(s: Seq<char>) -> Seq<char> {
    if s.len() > 0 && s[0] == '+' {
        s.drop_first()
    } else {
        s
    }
}

/// What `str::parse::<u64>` gives for a text: the number that its digits
/// denote, after one optional `+`, if there is at least one digit, every
/// character is an ASCII digit, and the number fits in a `u64`.
pub open spec fn parse_u64_spec(s: Seq<char>) -> Option<u64> {
    let digits = unsigned_digits(s);
    if digits.len() == 0 {
        None
    } else if exists|i: int| 0 <= i < digits.len() && !is_ascii_digit(#[trigger] digits[i]) {
        None
    } else if digits_value(digits) > u64::MAX {
        None
    } else {
        Some(digits_value(digits) as u64)
    }
}

/// The `u64` that a text denotes, as `str::parse::<u64>` reads it.
pub fn parse_u64(s: &str) -> (r: Option<u64>)
    ensures
        r == parse_u64_spec(s@),
{
    let n = s.unicode_len();
    let mut start: usize = 0;
    if n > 0 {
        let c = s.get_char(0);
        if c == '+' {
            start = 1;
        }
    }
    let ghost digits = unsigned_digits(s@);
    assert(digits == s@.subrange(start as int, n as int));
    if start == n {
        return None;
    }
    let mut acc: u64 = 0;
    let mut overflow = false;
    let mut i = start;
    while i < n
        invariant
            n == s@.len(),
            start <= i <= n,
            start < n,
            digits == s@.subrange(start as int, n as int),
            digits == unsigned_digits(s@),
            forall|j: int| 0 <= j < i - start ==> is_ascii_digit(#[trigger] digits[j]),
            !overflow ==> acc == digits_value(digits.subrange(0, i - start)),
            overflow ==> digits_value(digits.subrange(0, i - start)) > u64::MAX,
        decreases n - i,
    {
        let c = s.get_char(i);
        assert(c == digits[i - start]);
        if !('0' <= c && c <= '9') {
            assert(!is_ascii_digit(digits[i - start]));
            assert(exists|j: int| 0 <= j < digits.len() && !is_ascii_digit(#[trigger] digits[j]));
            return None;
        }
        let d = (c as u32 - '0' as u32) as u64;
        let ghost prefix = digits.subrange(0, i - start + 1);
        assert(prefix.drop_last() == digits.subrange(0, i - start));
        assert(prefix.last() == c);
        if !overflow {
            match acc.checked_mul(10) {
                Some(m) => match m.checked_add(d) {
                    Some(v) => {
                        acc = v;
                    },
                    None => {
                        overflow = true;
                    },
                },
                None => {
                    overflow = true;
                    assert(digits_value(prefix) >= acc * 10);
                },
            }
        } else {
            assert(digits_value(prefix) >= digits_value(digits.subrange(0, i - start)) * 10)
                by (nonlinear_arith)
                requires
                    digits_value(prefix) == digits_value(digits.subrange(0, i - start)) * 10
                        + ((c as nat) - ('0' as nat)) as nat,
            ;
        }
        i = i + 1;
    }
    assert(digits.subrange(0, n - start) == digits);
    if overflow {
        None
    } else {
        Some(acc)
    }
}

} // verus!
