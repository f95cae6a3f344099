//! Text helpers shared by the rest of the crate, each stated over `Seq<char>`.

use vstd::prelude::*;
use vstd::string::StringExecFns;

verus! {

/// The characters of `text`, in order, as a vector that can be indexed in constant time.
pub fn chars_of(text: &str) -> (r: Vec<char>)
    ensures
        r@ == text@,
{
    broadcast use vstd::string::group_string_axioms;

    let mut out: Vec<char> = Vec::new();
    for c in it: text.chars()
        invariant
            it.seq() == text@,
            out@ == it.seq().take(it.index() as int),
    {
        out.push(c);
    }
    assert(out@ == text@.take(text@.len() as int));
    out
}

/// The character that writes the decimal digit `d`.
pub open spec fn digit_char(d: nat) -> char {
    if d == 0 {
        '0'
    } else if d == 1 {
        '1'
    } else if d == 2 {
        '2'
    } else if d == 3 {
        '3'
    } else if d == 4 {
        '4'
    } else if d == 5 {
        '5'
    } else if d == 6 {
        '6'
    } else if d == 7 {
        '7'
    } else if d == 8 {
        '8'
    } else {
        '9'
    }
}

/// True of the ten characters `'0'` to `'9'`.
pub open spec fn is_digit(c: char) -> bool {
    '0' <= c && c <= '9'
}

/// `n` written in decimal, most significant digit first, without leading zeros.
pub open spec fn decimal(n: nat) -> Seq<char>
    decreases n,
{
    if n < 10 {
        seq![digit_char(n)]
    } else {
        decimal(n / 10).push(digit_char(n % 10))
    }
}

/// Every character of a decimal rendering is a digit, and there is at least one.
pub proof fn lemma_decimal_digits(n: nat)
    ensures
        decimal(n).len() >= 1,
        forall|i: int| 0 <= i < decimal(n).len() ==> is_digit(#[trigger] decimal(n)[i]),
    decreases n,
{
    if n >= 10 {
        lemma_decimal_digits(n / 10);
    }
}

fn digit_str(d: u64) -> (r: &'static str)
    requires
        d < 10,
    ensures
        r@ == seq![digit_char(d as nat)],
{
    proof {
        reveal_strlit("0");
        reveal_strlit("1");
        reveal_strlit("2");
        reveal_strlit("3");
        reveal_strlit("4");
        reveal_strlit("5");
        reveal_strlit("6");
        reveal_strlit("7");
        reveal_strlit("8");
        reveal_strlit("9");
    }
    if d == 0 {
        "0"
    } else if d == 1 {
        "1"
    } else if d == 2 {
        "2"
    } else if d == 3 {
        "3"
    } else if d == 4 {
        "4"
    } else if d == 5 {
        "5"
    } else if d == 6 {
        "6"
    } else if d == 7 {
        "7"
    } else if d == 8 {
        "8"
    } else {
        "9"
    }
}

/// Appends `n` in decimal to `out`.
pub fn push_decimal(out: &mut String, n: u64)
    ensures
        final(out)@ == old(out)@ + decimal(n as nat),
    decreases n,
{
    if n >= 10 {
        push_decimal(out, n / 10);
    }
    out.append(digit_str(n % 10));
}

/// True of the characters that count as white space.
pub open spec fn is_space(c: char) -> bool {
    ||| '\u{9}' <= c <= '\u{d}'
    ||| c == ' '
    ||| c == '\u{85}'
    ||| c == '\u{a0}'
    ||| c == '\u{1680}'
    ||| '\u{2000}' <= c <= '\u{200a}'
    ||| c == '\u{2028}'
    ||| c == '\u{2029}'
    ||| c == '\u{202f}'
    ||| c == '\u{205f}'
    ||| c == '\u{3000}'
}

/// The number of white-space characters that `text` begins with.
pub open spec fn leading_spaces(text: Seq<char>) -> nat
    decreases text.len(),
{
    if text.len() > 0 && is_space(text[0]) {
        1 + leading_spaces(text.drop_first())
    } else {
        0
    }
}

/// The number of white-space characters that `text` ends with.
pub open spec fn trailing_spaces(text: Seq<char>) -> nat
    decreases text.len(),
{
    if text.len() > 0 && is_space(text.last()) {
        1 + trailing_spaces(text.drop_last())
    } else {
        0
    }
}

/// `text` without the white space at its beginning and at its end.
pub open spec fn trimmed(text: Seq<char>) -> Seq<char> {
    let rest = text.skip(leading_spaces(text) as int);
    rest.take(rest.len() - trailing_spaces(rest))
}

/// The lower-case form of an upper-case letter of the alphabet of 26; any other
/// character as it is.
pub open spec fn lower(c: char) -> char {
    if 'A' <= c <= 'Z' {
        ((c as u8) + 32) as char
    } else {
        c
    }
}

/// The form in which a character is compared: its lower-case form, and, where the
/// comparison is `wide`, a small k for the Kelvin sign, which is what a capital K is in
/// lower case where every script is looked at.
pub open spec fn fold(c: char, wide: bool) -> char {
    if wide && c == '\u{212a}' {
        'k'
    } else {
        lower(c)
    }
}

/// True when `a` and `b` are the same once each character is folded.
pub open spec fn same_folded(a: Seq<char>, b: Seq<char>, wide: bool) -> bool {
    &&& a.len() == b.len()
    &&& forall|i: int| 0 <= i < a.len() ==> fold(#[trigger] a[i], wide) == fold(b[i], wide)
}

/// True when `a` and `b` are the same but for the case of the letters of the
/// alphabet of 26.
pub open spec fn same_word(a: Seq<char>, b: Seq<char>) -> bool {
    same_folded(a, b, false)
}

/// True when `a` and `b` are the same but for the case of the letters of the
/// alphabet of 26, the Kelvin sign counting as a K. For a word `b` of small letters of
/// that alphabet this is to say that `a`, put in lower case in every script, is `b`.
pub open spec fn same_word_wide(a: Seq<char>, b: Seq<char>) -> bool {
    same_folded(a, b, true)
}

/// True when `c` counts as white space.
pub fn space(c: char) -> (r: bool)
    ensures
        r == is_space(c),
{
    ('\u{9}' <= c && c <= '\u{d}') || c == ' ' || c == '\u{85}' || c == '\u{a0}' || c
        == '\u{1680}' || ('\u{2000}' <= c && c <= '\u{200a}') || c == '\u{2028}' || c
        == '\u{2029}' || c == '\u{202f}' || c == '\u{205f}' || c == '\u{3000}'
}

/// The lower-case form of `c`, as `lower` defines it.
pub fn to_lower(c: char) -> (r: char)
    ensures
        r == lower(c),
{
    if 'A' <= c && c <= 'Z' {
        ((c as u8) + 32) as char
    } else {
        c
    }
}

/// The folded form of `c`, as `fold` defines it.
pub fn to_fold(c: char, wide: bool) -> (r: char)
    ensures
        r == fold(c, wide),
{
    if wide && c == '\u{212a}' {
        'k'
    } else {
        to_lower(c)
    }
}

/// The white space at the beginning of a text ends where its first other character
/// stands.
proof fn lemma_leading_spaces(text: Seq<char>, k: int)
    requires
        0 <= k <= text.len(),
        forall|i: int| 0 <= i < k ==> is_space(#[trigger] text[i]),
        k == text.len() || !is_space(text[k]),
    ensures
        leading_spaces(text) == k,
    decreases k,
{
    if k > 0 {
        assert(is_space(text[0]));
        assert forall|i: int| 0 <= i < k - 1 implies is_space(#[trigger] text.drop_first()[i]) by {
            assert(text.drop_first()[i] == text[i + 1]);
        }
        lemma_leading_spaces(text.drop_first(), k - 1);
    }
}

/// The white space at the end of a text begins behind its last other character.
proof fn lemma_trailing_spaces(text: Seq<char>, k: int)
    requires
        0 <= k <= text.len(),
        forall|i: int| text.len() - k <= i < text.len() ==> is_space(#[trigger] text[i]),
        k == text.len() || !is_space(text[text.len() - k - 1]),
    ensures
        trailing_spaces(text) == k,
    decreases k,
{
    if k > 0 {
        assert(is_space(text[text.len() - 1]));
        assert forall|i: int| text.drop_last().len() - (k - 1) <= i < text.drop_last().len() implies is_space(#[trigger] text.drop_last()[i]) by {
            assert(text.drop_last()[i] == text[i]);
        }
        lemma_trailing_spaces(text.drop_last(), k - 1);
    }
}

/// True when `text`, without the white space around it, is `word` but for the case
/// of letters.
pub fn is_word(text: &str, word: &str) -> (r: bool)
    ensures
        r == same_word(trimmed(text@), word@),
{
    word_matches(text, word, false)
}

/// True when `text`, without the white space around it, is `word` but for the case
/// of letters, the Kelvin sign counting as a K.
pub fn is_word_wide(text: &str, word: &str) -> (r: bool)
    ensures
        r == same_word_wide(trimmed(text@), word@),
{
    word_matches(text, word, true)
}

fn word_matches(text: &str, word: &str, wide: bool) -> (r: bool)
    ensures
        r == same_folded(trimmed(text@), word@, wide),
{
    let chars = chars_of(text);
    let wanted = chars_of(word);
    let n = chars.len();
    let mut begin: usize = 0;
    while begin < n && space(chars[begin])
        invariant
            n == chars@.len(),
            begin <= n,
            forall|i: int| 0 <= i < begin ==> is_space(#[trigger] chars@[i]),
        decreases n - begin,
    {
        begin = begin + 1;
    }
    let mut end: usize = n;
    while end > begin && space(chars[end - 1])
        invariant
            n == chars@.len(),
            begin <= end <= n,
            forall|i: int| end <= i < n ==> is_space(#[trigger] chars@[i]),
        decreases end,
    {
        end = end - 1;
    }
    let ghost rest = chars@.skip(begin as int);
    let ghost core = chars@.subrange(begin as int, end as int);
    proof {
        lemma_leading_spaces(chars@, begin as int);
        assert forall|i: int| rest.len() - (n - end) <= i < rest.len() implies is_space(
            #[trigger] rest[i],
        ) by {
            assert(rest[i] == chars@[i + begin]);
        }
        if n - end < rest.len() {
            assert(rest[rest.len() - (n - end) - 1] == chars@[end - 1]);
        }
        lemma_trailing_spaces(rest, (n - end) as int);
        assert(trimmed(chars@) =~= core);
    }
    if end - begin != wanted.len() {
        return false;
    }
    let len = wanted.len();
    let mut i: usize = 0;
    while i < len
        invariant
            n == chars@.len(),
            begin <= end <= n,
            len == wanted@.len(),
            len == end - begin,
            i <= len,
            core == chars@.subrange(begin as int, end as int),
            core == trimmed(text@),
            wanted@ == word@,
            forall|j: int|
                0 <= j < i ==> fold(#[trigger] core[j], wide) == fold(wanted@[j], wide),
        decreases len - i,
    {
        if to_fold(chars[begin + i], wide) != to_fold(wanted[i], wide) {
            assert(fold(core[i as int], wide) != fold(wanted@[i as int], wide));
            return false;
        }
        i = i + 1;
    }
    true
}

/// True of the bytes that write a decimal digit.
pub open spec fn is_digit_byte(b: u8) -> bool {
    48 <= b <= 57
}

/// True when every byte of `digits` writes a decimal digit.
pub open spec fn all_digit_bytes(digits: Seq<u8>) -> bool {
    forall|i: int| 0 <= i < digits.len() ==> is_digit_byte(#[trigger] digits[i])
}

/// The number that `digits` write in decimal, most significant digit first.
pub open spec fn digits_value(digits: Seq<u8>) -> nat
    decreases digits.len(),
{
    if digits.len() == 0 {
        0
    } else {
        digits_value(digits.drop_last()) * 10 + (digits.last() - 48) as nat
    }
}

/// What a text means as an unsigned 64-bit number: an optional plus sign, then one
/// decimal digit or more, whose value fits 64 bits. Any other text means nothing.
pub open spec fn parse_decimal(text: Seq<u8>) -> Option<u64> {
    let digits = if text.len() > 0 && text[0] == 43 {
        text.drop_first()
    } else {
        text
    };
    if digits.len() > 0 && all_digit_bytes(digits) && digits_value(digits) <= u64::MAX {
        Some(digits_value(digits) as u64)
    } else {
        None
    }
}

/// A longer run of digits does not write a smaller number than its beginning.
pub proof fn lemma_digits_value_grows(digits: Seq<u8>, k: int)
    requires
        all_digit_bytes(digits),
        0 <= k <= digits.len(),
    ensures
        digits_value(digits.take(k)) <= digits_value(digits),
    decreases digits.len() - k,
{
    if k < digits.len() {
        lemma_digits_value_grows(digits, k + 1);
        assert(digits.take(k + 1).drop_last() == digits.take(k));
    } else {
        assert(digits.take(k) == digits);
    }
}

/// Reads an unsigned 64-bit number written in decimal.
pub fn parse_u64(text: &[u8]) -> (r: Option<u64>)
    ensures
        r == parse_decimal(text@),
{
    let n = text.len();
    let begin: usize = if n > 0 && text[0] == 43 {
        1
    } else {
        0
    };
    let ghost digits = text@.subrange(begin as int, n as int);
    assert(begin == 1 ==> digits == text@.drop_first());
    assert(begin == 0 ==> digits == text@);
    if begin == n {
        return None;
    }
    let mut value: u64 = 0;
    let mut i: usize = begin;
    while i < n
        invariant
            begin <= i <= n,
            n == text@.len(),
            digits == text@.subrange(begin as int, n as int),
            digits == if text@.len() > 0 && text@[0] == 43 {
                text@.drop_first()
            } else {
                text@
            },
            all_digit_bytes(digits.take(i - begin)),
            value == digits_value(digits.take(i - begin)),
        decreases n - i,
    {
        let b = text[i];
        let ghost upto = digits.take(i - begin + 1);
        assert(upto.drop_last() == digits.take(i - begin));
        assert(upto.last() == b);
        if b < 48 || b > 57 {
            assert(!is_digit_byte(digits[i - begin]));
            return None;
        }
        assert(all_digit_bytes(upto)) by {
            assert forall|j: int| 0 <= j < upto.len() implies is_digit_byte(#[trigger] upto[j]) by {
                if j < upto.len() - 1 {
                    assert(upto[j] == digits.take(i - begin)[j]);
                }
            }
        }
        let digit: u64 = (b - 48) as u64;
        let next = match value.checked_mul(10) {
            Some(tens) => tens.checked_add(digit),
            None => None,
        };
        match next {
            Some(v) => {
                value = v;
            },
            None => {
                proof {
                    assert(digits_value(upto) > u64::MAX);
                    if all_digit_bytes(digits) {
                        lemma_digits_value_grows(digits, i - begin + 1);
                    }
                }
                return None;
            },
        }
        i = i + 1;
    }
    assert(digits.take(n - begin) == digits);
    Some(value)
}

} // verus!
