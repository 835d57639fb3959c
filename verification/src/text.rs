//! Character-level helpers on strings, stated over their views.
//!
//! Every function here takes strings as they are and speaks of them as
//! sequences of characters, so that the rules built on top can be stated
//! without reference to an encoding.

use vstd::prelude::*;
use vstd::string::StringExecFns;

verus! {

/// `suffix` is the tail of `s`.
pub open spec fn is_suffix_of(suffix: Seq<char>, s: Seq<char>) -> bool {
    suffix.len() <= s.len() && s.subrange(s.len() - suffix.len(), s.len() as int) == suffix
}

/// `needle` stands in `hay` at offset `i`.
pub open spec fn occurs_at(needle: Seq<char>, hay: Seq<char>, i: int) -> bool {
    0 <= i && i + needle.len() <= hay.len() && hay.subrange(i, i + needle.len()) == needle
}

/// `needle` stands somewhere in `hay`.
pub open spec fn occurs_in(needle: Seq<char>, hay: Seq<char>) -> bool {
    exists|i: int| occurs_at(needle, hay, i)
}

/// What follows the last `delimiter` in `s`; all of `s` where it holds none.
pub open spec fn after_last(s: Seq<char>, delimiter: char) -> Seq<char>
    decreases s.len(),
{
    if s.len() == 0 {
        s
    } else if s.last() == delimiter {
        Seq::empty()
    } else {
        after_last(s.drop_last(), delimiter).push(s.last())
    }
}

/// The value of `c` as a digit in `radix`: `0`-`9`, then the letters in either
/// case from ten upwards.
pub open spec fn digit_value(c: char, radix: nat) -> Option<nat> {
    let v: int = if '0' <= c <= '9' {
        c as int - '0' as int
    } else if 'a' <= c <= 'z' {
        c as int - 'a' as int + 10
    } else if 'A' <= c <= 'Z' {
        c as int - 'A' as int + 10
    } else {
        radix as int
    };
    if v < radix {
        Some(v as nat)
    } else {
        None
    }
}

/// The number that the digits `s` write in `radix`, most significant first;
/// `None` where a character is no digit. The empty sequence writes zero.
pub open spec fn digits_value(s: Seq<char>, radix: nat) -> Option<nat>
    decreases s.len(),
{
    if s.len() == 0 {
        Some(0)
    } else {
        match (digits_value(s.drop_last(), radix), digit_value(s.last(), radix)) {
            (Some(high), Some(low)) => Some(high * radix + low),
            _ => None,
        }
    }
}

/// An unsigned number as text: an optional `+`, then at least one digit of
/// `radix`, with a value of at most `max`.
pub open spec fn unsigned_value(s: Seq<char>, radix: nat, max: nat) -> Option<nat> {
    let digits = if s.len() > 0 && s[0] == '+' {
        s.skip(1)
    } else {
        s
    };
    if digits.len() == 0 {
        None
    } else {
        match digits_value(digits, radix) {
            Some(v) => if v <= max {
                Some(v)
            } else {
                None
            },
            None => None,
        }
    }
}

/// Why text is no unsigned number.
#[derive(Debug, Clone, Copy, PartialEq, Eq, Structural)]
pub enum NumberError {
    /// The text is empty.
    Empty,
    /// A character is no digit, or a sign stands alone.
    InvalidDigit,
    /// The number is above the largest that is admitted.
    TooLarge,
}

/// What goes wrong first when the digits `s` are read from the left with a
/// limit of `max`: a character that is no digit, or a value above the limit.
pub open spec fn digits_failure(s: Seq<char>, radix: nat, max: nat) -> Option<NumberError>
    decreases s.len(),
{
    if s.len() == 0 {
        None
    } else {
        match digits_failure(s.drop_last(), radix, max) {
            Some(e) => Some(e),
            None => match (digits_value(s.drop_last(), radix), digit_value(s.last(), radix)) {
                (Some(high), Some(low)) => if high * radix + low > max {
                    Some(NumberError::TooLarge)
                } else {
                    None
                },
                _ => Some(NumberError::InvalidDigit),
            },
        }
    }
}

/// Why `s` is no unsigned number of at most `max`, if it is none: it is
/// empty, it is a lone sign, or its digits fail.
pub open spec fn unsigned_failure(s: Seq<char>, radix: nat, max: nat) -> Option<NumberError> {
    let digits = if s.len() > 0 && s[0] == '+' {
        s.skip(1)
    } else {
        s
    };
    if s.len() == 0 {
        Some(NumberError::Empty)
    } else if digits.len() == 0 {
        Some(NumberError::InvalidDigit)
    } else {
        digits_failure(digits, radix, max)
    }
}

/// The number that `s` writes, or why it writes none.
pub open spec fn unsigned_outcome(s: Seq<char>, radix: nat, max: nat) -> Result<nat, NumberError> {
    match unsigned_failure(s, radix, max) {
        Some(e) => Err(e),
        None => match unsigned_value(s, radix, max) {
            Some(v) => Ok(v),
            None => Err(NumberError::InvalidDigit),
        },
    }
}

/// A failure in words.
pub open spec fn number_message(error: NumberError) -> Seq<char> {
    match error {
        NumberError::Empty => "cannot parse integer from empty string"@,
        NumberError::InvalidDigit => "invalid digit found in string"@,
        NumberError::TooLarge => "number too large to fit in target type"@,
    }
}

/// `n` in decimal, without leading zeros.
pub open spec fn decimal(n: nat) -> Seq<char>
    decreases n,
{
    if n < 10 {
        seq![hex_digit(n as int)]
    } else {
        decimal(n / 10).push(hex_digit((n % 10) as int))
    }
}

/// The lower-case hexadecimal digit for `d`.
pub open spec fn hex_digit(d: int) -> char {
    if d == 0 {
        '0'
    } else if d == 1 {
        '1'
    } else if d == 2 {
        '2'
    } else if d == 3 {
        '3'
    } else if d == 4 {
        '4'
    } else if d == 5 {
        '5'
    } else if d == 6 {
        '6'
    } else if d == 7 {
        '7'
    } else if d == 8 {
        '8'
    } else if d == 9 {
        '9'
    } else if d == 10 {
        'a'
    } else if d == 11 {
        'b'
    } else if d == 12 {
        'c'
    } else if d == 13 {
        'd'
    } else if d == 14 {
        'e'
    } else {
        'f'
    }
}

/// `v` as four lower-case hexadecimal digits, zero-padded.
pub open spec fn hex4(v: u16) -> Seq<char> {
    seq![
        hex_digit(v as int / 4096),
        hex_digit((v as int / 256) % 16),
        hex_digit((v as int / 16) % 16),
        hex_digit(v as int % 16),
    ]
}

/// Every prefix of a digit string is a digit string, and writes no more than the whole.
pub proof fn lemma_digits_prefix(s: Seq<char>, radix: nat, n: int)
    requires
        0 <= n <= s.len(),
        digits_value(s, radix) is Some,
    ensures
        digits_value(s.take(n), radix) is Some,
        digits_value(s.take(n), radix).unwrap() <= digits_value(s, radix).unwrap(),
    decreases s.len(),
{
    if n == s.len() {
        assert(s.take(n) == s);
    } else {
        let front = s.drop_last();
        assert(front.take(n) == s.take(n));
        lemma_digits_prefix(front, radix, n);
        let high = digits_value(front, radix).unwrap();
        assert(high <= high * radix) by (nonlinear_arith)
            requires
                radix >= 1,
                high >= 0,
        ;
    }
}

/// Digits fail exactly if they write no number within the limit.
pub proof fn lemma_digits_failure(s: Seq<char>, radix: nat, max: nat)
    requires
        radix >= 1,
    ensures
        digits_failure(s, radix, max) is None <==> digits_value(s, radix) is Some && digits_value(
            s,
            radix,
        ).unwrap() <= max,
    decreases s.len(),
{
    if s.len() > 0 {
        lemma_digits_failure(s.drop_last(), radix, max);
        match digits_value(s.drop_last(), radix) {
            Some(high) => {
                assert(high <= high * radix) by (nonlinear_arith)
                    requires
                        radix >= 1,
                        high >= 0,
                ;
            },
            None => {},
        }
    }
}

/// Text is a number exactly if nothing about it fails: the outcome of
/// reading it is its value or its failure, never neither.
pub proof fn lemma_unsigned_outcome(s: Seq<char>, radix: nat, max: nat)
    requires
        radix >= 1,
    ensures
        unsigned_failure(s, radix, max) is None <==> unsigned_value(s, radix, max) is Some,
        unsigned_value(s, radix, max) matches Some(v) ==> unsigned_outcome(s, radix, max) == Ok::<
            nat,
            NumberError,
        >(v),
        unsigned_value(s, radix, max) is None ==> unsigned_outcome(s, radix, max) is Err,
{
    let digits = if s.len() > 0 && s[0] == '+' {
        s.skip(1)
    } else {
        s
    };
    lemma_digits_failure(digits, radix, max);
}

/// A failure among the first digits is the failure of them all.
proof fn lemma_digits_failure_stays(s: Seq<char>, radix: nat, max: nat, n: int)
    requires
        0 <= n <= s.len(),
        digits_failure(s.take(n), radix, max) is Some,
    ensures
        digits_failure(s, radix, max) == digits_failure(s.take(n), radix, max),
    decreases s.len(),
{
    if n == s.len() {
        assert(s.take(n) == s);
    } else {
        assert(s.drop_last().take(n) == s.take(n));
        lemma_digits_failure_stays(s.drop_last(), radix, max, n);
    }
}

/// What follows the last delimiter holds no delimiter, is the tail of the
/// string, and is preceded by a delimiter unless it is the whole string.
pub proof fn lemma_after_last(s: Seq<char>, delimiter: char)
    ensures
        is_suffix_of(after_last(s, delimiter), s),
        !after_last(s, delimiter).contains(delimiter),
        after_last(s, delimiter).len() < s.len() ==> s[s.len() - after_last(s, delimiter).len()
            - 1] == delimiter,
    decreases s.len(),
{
    let tail = after_last(s, delimiter);
    if s.len() == 0 {
        assert(s.subrange(0, 0) == s);
    } else if s.last() == delimiter {
        assert(s.subrange(s.len() as int, s.len() as int) == Seq::<char>::empty());
    } else {
        let front = s.drop_last();
        lemma_after_last(front, delimiter);
        let inner = after_last(front, delimiter);
        assert(s.subrange(s.len() - tail.len(), s.len() as int) == tail);
        assert forall|i: int| 0 <= i < tail.len() implies tail[i] != delimiter by {
            if i < inner.len() {
                assert(inner.contains(inner[i]));
            }
        }
    }
}

/// The characters of `s`, in order.
pub fn chars_of(s: &str) -> (out: Vec<char>)
    ensures
        out@ == s@,
{
    let mut out: Vec<char> = Vec::new();
    for c in it: s.chars()
        invariant
            it.seq() == s@,
            out@ == s@.take(it.index()),
    {
        out.push(c);
    }
    out
}

/// Whether two strings hold the same characters.
pub fn same_text(a: &str, b: &str) -> (same: bool)
    ensures
        same == (a@ == b@),
{
    let x = chars_of(a);
    spells(&x, b)
}

/// Whether `chars` spell `text`.
pub fn spells(chars: &Vec<char>, text: &str) -> (same: bool)
    ensures
        same == (chars@ == text@),
{
    let other = chars_of(text);
    if chars.len() != other.len() {
        return false;
    }
    assert(other@.subrange(0, other.len() as int) == other@);
    matches_at(&other, chars, 0)
}

/// Whether `needle` stands in `hay` at offset `at`.
fn matches_at(hay: &Vec<char>, needle: &Vec<char>, at: usize) -> (found: bool)
    requires
        at + needle.len() <= hay.len(),
    ensures
        found == occurs_at(needle@, hay@, at as int),
{
    let mut j: usize = 0;
    while j < needle.len()
        invariant
            j <= needle.len(),
            at + needle.len() <= hay.len(),
            hay@.subrange(at as int, at + j) == needle@.take(j as int),
        decreases needle.len() - j,
    {
        if hay[at + j] != needle[j] {
            assert(hay@.subrange(at as int, at + needle.len())[j as int] != needle@[j as int]);
            return false;
        }
        assert(hay@.subrange(at as int, at + j + 1) == hay@.subrange(at as int, at + j).push(
            hay@[at + j],
        ));
        assert(needle@.take(j + 1) == needle@.take(j as int).push(needle@[j as int]));
        j += 1;
    }
    assert(needle@.take(needle.len() as int) == needle@);
    true
}

/// Whether `s` ends with `suffix`.
pub fn ends_with(s: &str, suffix: &str) -> (found: bool)
    ensures
        found == is_suffix_of(suffix@, s@),
{
    let hay = chars_of(s);
    let needle = chars_of(suffix);
    if needle.len() > hay.len() {
        return false;
    }
    matches_at(&hay, &needle, hay.len() - needle.len())
}

/// Whether `needle` occurs in `hay`.
pub fn contains(hay: &str, needle: &str) -> (found: bool)
    ensures
        found == occurs_in(needle@, hay@),
{
    let h = chars_of(hay);
    let n = chars_of(needle);
    if n.len() > h.len() {
        return false;
    }
    let last: usize = h.len() - n.len();
    let mut i: usize = 0;
    while i < last
        invariant
            i <= last,
            last == h.len() - n.len(),
            n.len() <= h.len(),
            h@ == hay@,
            n@ == needle@,
            forall|k: int| 0 <= k < i ==> !occurs_at(n@, h@, k),
        decreases last - i,
    {
        if matches_at(&h, &n, i) {
            return true;
        }
        i += 1;
    }
    matches_at(&h, &n, last)
}

/// The part of `s` behind its last `delimiter`, as characters.
pub fn tail_after_last(s: &str, delimiter: char) -> (tail: Vec<char>)
    ensures
        tail@ == after_last(s@, delimiter),
{
    let all = chars_of(s);
    let mut start: usize = all.len();
    while start > 0 && all[start - 1] != delimiter
        invariant
            start <= all.len(),
            forall|k: int| start <= k < all.len() ==> all@[k] != delimiter,
        decreases start,
    {
        start -= 1;
    }
    let mut tail: Vec<char> = Vec::new();
    let mut i: usize = start;
    while i < all.len()
        invariant
            start <= i <= all.len(),
            tail@ == all@.subrange(start as int, i as int),
        decreases all.len() - i,
    {
        tail.push(all[i]);
        i += 1;
    }
    proof {
        lemma_tail_is_after_last(all@, delimiter, start as int);
    }
    tail
}

/// A tail without delimiter that a delimiter precedes is what follows the last delimiter.
proof fn lemma_tail_is_after_last(s: Seq<char>, delimiter: char, start: int)
    requires
        0 <= start <= s.len(),
        forall|k: int| start <= k < s.len() ==> s[k] != delimiter,
        start > 0 ==> s[start - 1] == delimiter,
    ensures
        after_last(s, delimiter) == s.subrange(start, s.len() as int),
    decreases s.len(),
{
    if s.len() == 0 {
        assert(s.subrange(0, 0) == s);
    } else if start == s.len() {
        assert(s.subrange(start, s.len() as int) == Seq::<char>::empty());
    } else {
        let front = s.drop_last();
        lemma_tail_is_after_last(front, delimiter, start);
        assert(s.subrange(start, s.len() as int) == front.subrange(start, front.len() as int).push(
            s.last(),
        ));
    }
}

/// The digit that `c` is in `radix`.
fn digit_of(c: char, radix: u32) -> (d: Option<u32>)
    requires
        2 <= radix <= 36,
    ensures
        d is Some == digit_value(c, radix as nat) is Some,
        d matches Some(v) ==> v == digit_value(c, radix as nat).unwrap() && v < radix,
{
    let code: u32 = c as u32;
    let v: u32 = if '0' <= c && c <= '9' {
        code - 48
    } else if 'a' <= c && c <= 'z' {
        code - 97 + 10
    } else if 'A' <= c && c <= 'Z' {
        code - 65 + 10
    } else {
        radix
    };
    if v < radix {
        Some(v)
    } else {
        None
    }
}

/// Reads an unsigned number in `radix` that is at most `max`.
fn parse_unsigned(s: &str, radix: u32, max: u64) -> (value: Result<u64, NumberError>)
    requires
        2 <= radix <= 36,
    ensures
        value is Ok == unsigned_value(s@, radix as nat, max as nat) is Some,
        value matches Ok(v) ==> v == unsigned_value(s@, radix as nat, max as nat).unwrap(),
        value matches Err(e) ==> unsigned_failure(s@, radix as nat, max as nat) == Some(e),
{
    let all = chars_of(s);
    if all.len() == 0 {
        return Err(NumberError::Empty);
    }
    let start: usize = if all[0] == '+' {
        1
    } else {
        0
    };
    if start == all.len() {
        return Err(NumberError::InvalidDigit);
    }
    let ghost digits = all@.skip(start as int);
    assert(all@.skip(0) == all@);
    let mut acc: u64 = 0;
    let mut i: usize = start;
    while i < all.len()
        invariant
            2 <= radix <= 36,
            start <= i <= all.len(),
            digits.len() == all.len() - start,
            digits.len() > 0,
            digits == all@.skip(start as int),
            digits == if s@.len() > 0 && s@[0] == '+' {
                s@.skip(1)
            } else {
                s@
            },
            s@.len() > 0,
            digits_value(digits.take(i - start), radix as nat) == Some(acc as nat),
            digits_failure(digits.take(i - start), radix as nat, max as nat) is None,
            acc <= max,
        decreases all.len() - i,
    {
        let ghost seen = digits.take(i - start);
        let ghost next = digits.take(i - start + 1);
        proof {
            assert(next.drop_last() == seen);
            assert(next.last() == all@[i as int]);
        }
        match digit_of(all[i], radix) {
            None => {
                proof {
                    assert(digits_value(next, radix as nat) is None);
                    if digits_value(digits, radix as nat) is Some {
                        lemma_digits_prefix(digits, radix as nat, i - start + 1);
                    }
                    assert(digits_failure(next, radix as nat, max as nat) == Some(
                        NumberError::InvalidDigit,
                    ));
                    lemma_digits_failure_stays(digits, radix as nat, max as nat, i - start + 1);
                }
                return Err(NumberError::InvalidDigit);
            },
            Some(d) => {
                assert(acc * radix <= 0xffff_ffff_ffff_ffff * 36) by (nonlinear_arith)
                    requires
                        0 <= acc <= 0xffff_ffff_ffff_ffff,
                        0 <= radix <= 36,
                ;
                let wide: u128 = (acc as u128) * (radix as u128) + (d as u128);
                assert(digits_value(next, radix as nat) == Some(wide as nat));
                if wide > max as u128 {
                    proof {
                        if digits_value(digits, radix as nat) is Some {
                            lemma_digits_prefix(digits, radix as nat, i - start + 1);
                        }
                        assert(digits_failure(next, radix as nat, max as nat) == Some(
                            NumberError::TooLarge,
                        ));
                        lemma_digits_failure_stays(digits, radix as nat, max as nat, i - start + 1);
                    }
                    return Err(NumberError::TooLarge);
                }
                assert(digits_failure(next, radix as nat, max as nat) is None);
                acc = wide as u64;
            },
        }
        i += 1;
    }
    assert(digits.take(all.len() - start) == digits);
    Ok(acc)
}

/// Reads a size written in decimal: an optional `+`, then digits. Where
/// the text is no size, says what is wrong with it.
pub fn parse_size(s: &str) -> (value: Result<usize, NumberError>)
    ensures
        match value {
            Ok(v) => unsigned_outcome(s@, 10, usize::MAX as nat) == Ok::<nat, NumberError>(
                v as nat,
            ),
            Err(e) => unsigned_outcome(s@, 10, usize::MAX as nat) == Err::<nat, NumberError>(e),
        },
        value is Ok == unsigned_value(s@, 10, usize::MAX as nat) is Some,
        value matches Ok(v) ==> v == unsigned_value(s@, 10, usize::MAX as nat).unwrap(),
{
    proof {
        lemma_unsigned_outcome(s@, 10, usize::MAX as nat);
    }
    match parse_unsigned(s, 10, usize::MAX as u64) {
        Ok(v) => Ok(v as usize),
        Err(e) => Err(e),
    }
}

/// Reads a 16-bit identifier written in hexadecimal: an optional `+`, then
/// digits in either case.
pub fn parse_hex_u16(s: &str) -> (value: Option<u16>)
    ensures
        value is Some == unsigned_value(s@, 16, 0xffff) is Some,
        value matches Some(v) ==> v == unsigned_value(s@, 16, 0xffff).unwrap(),
{
    match parse_unsigned(s, 16, 0xffff) {
        Ok(v) => Some(v as u16),
        Err(_) => None,
    }
}

/// The one-character text of a hexadecimal digit.
fn hex_digit_text(d: u16) -> (text: &'static str)
    requires
        d < 16,
    ensures
        text@ == seq![hex_digit(d as int)],
{
    proof {
        reveal_strlit("0");
        reveal_strlit("1");
        reveal_strlit("2");
        reveal_strlit("3");
        reveal_strlit("4");
        reveal_strlit("5");
        reveal_strlit("6");
        reveal_strlit("7");
        reveal_strlit("8");
        reveal_strlit("9");
        reveal_strlit("a");
        reveal_strlit("b");
        reveal_strlit("c");
        reveal_strlit("d");
        reveal_strlit("e");
        reveal_strlit("f");
    }
    let text = if d == 0 {
        "0"
    } else if d == 1 {
        "1"
    } else if d == 2 {
        "2"
    } else if d == 3 {
        "3"
    } else if d == 4 {
        "4"
    } else if d == 5 {
        "5"
    } else if d == 6 {
        "6"
    } else if d == 7 {
        "7"
    } else if d == 8 {
        "8"
    } else if d == 9 {
        "9"
    } else if d == 10 {
        "a"
    } else if d == 11 {
        "b"
    } else if d == 12 {
        "c"
    } else if d == 13 {
        "d"
    } else if d == 14 {
        "e"
    } else {
        "f"
    };
    assert(text@ =~= seq![hex_digit(d as int)]);
    text
}

/// Writes a 16-bit identifier as four lower-case hexadecimal digits.
pub fn format_hex4(v: u16) -> (text: String)
    ensures
        text@ == hex4(v),
{
    let mut text = String::new();
    text.append(hex_digit_text(v / 4096));
    text.append(hex_digit_text((v / 256) % 16));
    text.append(hex_digit_text((v / 16) % 16));
    text.append(hex_digit_text(v % 16));
    assert(text@ =~= hex4(v));
    text
}

/// Appends `n` in decimal.
fn append_decimal(text: &mut String, n: usize)
    ensures
        final(text)@ == old(text)@ + decimal(n as nat),
    decreases n,
{
    if n >= 10 {
        append_decimal(text, n / 10);
    }
    let digit: u16 = (n % 10) as u16;
    text.append(hex_digit_text(digit));
    assert(text@ =~= old(text)@ + decimal(n as nat));
}

/// Writes a size in decimal, without leading zeros.
pub fn format_decimal(n: usize) -> (text: String)
    ensures
        text@ == decimal(n as nat),
{
    let mut text = String::new();
    append_decimal(&mut text, n);
    assert(text@ =~= decimal(n as nat));
    text
}

impl NumberError {
    /// The failure in words.
    pub fn message(&self) -> (text: String)
        ensures
            text@ == number_message(*self),
    {
        match self {
            NumberError::Empty => String::from_str("cannot parse integer from empty string"),
            NumberError::InvalidDigit => String::from_str("invalid digit found in string"),
            NumberError::TooLarge => String::from_str("number too large to fit in target type"),
        }
    }
}

} // verus!
