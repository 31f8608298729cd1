//! Text utilities: equality of strings, and the decimal notation of integers.
//!
//! Identifiers of choices, segments of paths and the textual form of scalar values are all
//! strings. Everything here is stated over the sequence of `char`s that a string holds.

use vstd::prelude::*;
use vstd::string::*;
use vstd::utf8::*;

verus! {

/// Whether two string slices hold the same text.
pub fn str_eq(a: &str, b: &str) -> (r: bool)
    ensures
        r == (a@ == b@),
{
    let x = a.as_bytes();
    let y = b.as_bytes();
    proof {
        encode_utf8_decode_utf8(a@);
        encode_utf8_decode_utf8(b@);
        assert(x@ == encode_utf8(a@));
        assert(y@ == encode_utf8(b@));
    }
    if x.len() != y.len() {
        return false;
    }
    let mut i: usize = 0;
    while i < x.len()
        invariant
            i <= x@.len(),
            x@.len() == y@.len(),
            x@ == encode_utf8(a@),
            y@ == encode_utf8(b@),
            forall|j: int| 0 <= j < i ==> x@[j] == y@[j],
        decreases x@.len() - i,
    {
        if x[i] != y[i] {
            return false;
        }
        i = i + 1;
    }
    assert(x@ =~= y@);
    true
}

/// A copy of a string.
pub fn copy_string(s: &String) -> (r: String)
    ensures
        r@ == s@,
{
    s.clone()
}

/// A string that holds the text of a slice.
pub fn new_string(s: &str) -> (r: String)
    ensures
        r@ == s@,
{
    String::from_str(s)
}

/// The texts of a sequence of strings.
pub open spec fn texts(s: Seq<String>) -> Seq<Seq<char>> {
    Seq::new(s.len(), |i: int| s[i]@)
}

/// Whether a character is one of the ten decimal digits.
pub open spec fn is_digit(c: char) -> bool {
    '0' <= c <= '9'
}

/// The number that a decimal digit stands for.
pub open spec fn digit_value(c: char) -> int {
    c as int - '0' as int
}

/// The decimal digit that stands for a number below ten.
pub open spec fn digit_char(d: int) -> char {
    if d == 0 {
        '0'
    } else if d == 1 {
        '1'
    } else if d == 2 {
        '2'
    } else if d == 3 {
        '3'
    } else if d == 4 {
        '4'
    } else if d == 5 {
        '5'
    } else if d == 6 {
        '6'
    } else if d == 7 {
        '7'
    } else if d == 8 {
        '8'
    } else {
        '9'
    }
}

/// The decimal notation of a natural number, without leading zeros.
pub open spec fn nat_text(n: nat) -> Seq<char>
    decreases n,
{
    if n < 10 {
        seq![digit_char(n as int)]
    } else {
        nat_text(n / 10).push(digit_char((n % 10) as int))
    }
}

/// The decimal notation of an integer: a minus sign for a negative number, then its digits.
pub open spec fn int_text(v: int) -> Seq<char> {
    if v < 0 {
        seq!['-'] + nat_text((-v) as nat)
    } else {
        nat_text(v as nat)
    }
}

/// Why a text is not the decimal notation of an integer of some type.
#[derive(Debug, Clone, Copy, PartialEq, Eq, Structural)]
pub enum IntError {
    /// The text is empty.
    Empty,
    /// The text holds a character that is no digit where a digit is expected.
    InvalidDigit,
    /// The number is larger than the type's largest value.
    PosOverflow,
    /// The number is smaller than the type's smallest value.
    NegOverflow,
}

/// What reading the first `n` characters of `digits` gives, from left to right: the number
/// read so far, or the first thing that went wrong. With `negative` the digits are those of a
/// negative number.
pub open spec fn scan_digits(digits: Seq<char>, n: int, negative: bool, min: int, max: int)
    -> Result<int, IntError>
    decreases n,
{
    if n <= 0 {
        Ok(0)
    } else {
        match scan_digits(digits, n - 1, negative, min, max) {
            Err(e) => Err(e),
            Ok(acc) => {
                let c = digits[n - 1];
                if !is_digit(c) {
                    Err(IntError::InvalidDigit)
                } else if negative {
                    let v = acc * 10 - digit_value(c);
                    if v < min {
                        Err(IntError::NegOverflow)
                    } else {
                        Ok(v)
                    }
                } else {
                    let v = acc * 10 + digit_value(c);
                    if v > max {
                        Err(IntError::PosOverflow)
                    } else {
                        Ok(v)
                    }
                }
            },
        }
    }
}

/// The integer between `min` and `max` that a text denotes in decimal notation.
///
/// A text is an optional sign followed by digits, at least one. A plus sign is always
/// accepted; a minus sign only where `signed` holds.
pub open spec fn parse_int(s: Seq<char>, signed: bool, min: int, max: int) -> Result<
    int,
    IntError,
> {
    if s.len() == 0 {
        Err(IntError::Empty)
    } else if s.len() == 1 && (s[0] == '+' || s[0] == '-') {
        Err(IntError::InvalidDigit)
    } else if s[0] == '+' {
        scan_digits(s.skip(1), s.len() - 1, false, min, max)
    } else if s[0] == '-' && signed {
        scan_digits(s.skip(1), s.len() - 1, true, min, max)
    } else {
        scan_digits(s, s.len() as int, false, min, max)
    }
}

/// The index that a text denotes: a natural number that fits in `usize`.
pub open spec fn parse_index(s: Seq<char>) -> Option<int> {
    match parse_int(s, false, 0, usize::MAX as int) {
        Ok(v) => Some(v),
        Err(_) => None,
    }
}

/// The number of characters of a text.
fn char_count(s: &str, ascii: bool) -> (n: usize)
    requires
        ascii == is_ascii(s),
    ensures
        n == s@.len(),
{
    if ascii {
        let n = s.as_bytes().len();
        proof {
            is_ascii_spec_bytes(s);
            assert(s.spec_bytes().len() == s@.len());
        }
        n
    } else {
        s.unicode_len()
    }
}

/// The character at a position of a text.
fn char_at(s: &str, ascii: bool, i: usize) -> (c: char)
    requires
        ascii == is_ascii(s),
        i < s@.len(),
    ensures
        c == s@[i as int],
{
    if ascii {
        let b = s.get_ascii(i);
        proof {
            is_ascii_chars_nat_bound(s@);
            let ch = s@[i as int];
            assert(ch as nat <= 127);
            char_u32_cast(ch, ch as u32);
            assert(b as u32 == ch as u32);
        }
        b as char
    } else {
        s.get_char(i)
    }
}

/// The value of a decimal digit, if the character is one.
fn digit_of(c: char) -> (d: Option<u8>)
    ensures
        d is Some == is_digit(c),
        d matches Some(v) ==> v == digit_value(c) && v <= 9,
{
    if '0' <= c && c <= '9' {
        Some(((c as u32) - ('0' as u32)) as u8)
    } else {
        None
    }
}

/// Reads an integer between `min` and `max` from its decimal notation.
pub fn read_int(s: &str, signed: bool, min: i128, max: i128) -> (r: Result<i128, IntError>)
    requires
        -0x8000_0000_0000_0000 <= min <= 0 <= max <= 0xffff_ffff_ffff_ffff,
    ensures
        r matches Ok(v) ==> min <= v <= max && parse_int(s@, signed, min as int, max as int)
            == Ok::<int, IntError>(v as int),
        r matches Err(e) ==> parse_int(s@, signed, min as int, max as int) == Err::<
            int,
            IntError,
        >(e),
{
    let ascii = s.is_ascii();
    let n = char_count(s, ascii);
    if n == 0 {
        return Err(IntError::Empty);
    }
    let first = char_at(s, ascii, 0);
    if n == 1 && (first == '+' || first == '-') {
        return Err(IntError::InvalidDigit);
    }
    let negative = first == '-' && signed;
    let start: usize = if first == '+' || negative {
        1
    } else {
        0
    };
    let ghost digits = s@.skip(start as int);
    proof {
        assert(s@.skip(0) =~= s@);
        assert(parse_int(s@, signed, min as int, max as int) == scan_digits(
            digits,
            n - start,
            negative,
            min as int,
            max as int,
        ));
    }
    let mut acc: i128 = 0;
    let mut i: usize = start;
    while i < n
        invariant
            start <= i <= n,
            n == s@.len(),
            ascii == is_ascii(s),
            digits == s@.skip(start as int),
            parse_int(s@, signed, min as int, max as int) == scan_digits(
                digits,
                n - start,
                negative,
                min as int,
                max as int,
            ),
            min <= acc <= max,
            negative ==> acc <= 0,
            !negative ==> acc >= 0,
            -0x8000_0000_0000_0000 <= min <= 0 <= max <= 0xffff_ffff_ffff_ffff,
            scan_digits(digits, i - start, negative, min as int, max as int) == Ok::<
                int,
                IntError,
            >(acc as int),
        decreases n - i,
    {
        let c = char_at(s, ascii, i);
        assert(digits[i - start] == c);
        let ghost next = scan_digits(digits, i - start + 1, negative, min as int, max as int);
        match digit_of(c) {
            None => {
                proof {
                    lemma_scan_error_stays(digits, i - start + 1, n - start, negative, min as int, max as int);
                }
                return Err(IntError::InvalidDigit);
            },
            Some(d) => {
                if negative {
                    let v: i128 = acc * 10 - d as i128;
                    if v < min {
                        proof {
                            lemma_scan_error_stays(digits, i - start + 1, n - start, negative, min as int, max as int);
                        }
                        return Err(IntError::NegOverflow);
                    }
                    acc = v;
                } else {
                    let v: i128 = acc * 10 + d as i128;
                    if v > max {
                        proof {
                            lemma_scan_error_stays(digits, i - start + 1, n - start, negative, min as int, max as int);
                        }
                        return Err(IntError::PosOverflow);
                    }
                    acc = v;
                }
            },
        }
        i = i + 1;
    }
    Ok(acc)
}

/// Once reading has failed, reading further gives the same failure.
pub proof fn lemma_scan_error_stays(
    digits: Seq<char>,
    n: int,
    m: int,
    negative: bool,
    min: int,
    max: int,
)
    requires
        0 <= n <= m,
        scan_digits(digits, n, negative, min, max) is Err,
    ensures
        scan_digits(digits, m, negative, min, max) == scan_digits(digits, n, negative, min, max),
    decreases m - n,
{
    if n < m {
        lemma_scan_error_stays(digits, n, m - 1, negative, min, max);
    }
}

/// Reads an index from its decimal notation.
pub fn read_index(s: &str) -> (r: Option<usize>)
    ensures
        r matches Some(i) ==> parse_index(s@) == Some(i as int),
        r is None ==> parse_index(s@) is None,
{
    match read_int(s, false, 0, usize::MAX as i128) {
        Ok(v) => Some(v as usize),
        Err(_) => None,
    }
}

/// The text of a decimal digit.
fn digit_str(d: u8) -> (r: &'static str)
    requires
        d <= 9,
    ensures
        r@ == seq![digit_char(d as int)],
{
    proof {
        reveal_strlit("0");
        reveal_strlit("1");
        reveal_strlit("2");
        reveal_strlit("3");
        reveal_strlit("4");
        reveal_strlit("5");
        reveal_strlit("6");
        reveal_strlit("7");
        reveal_strlit("8");
        reveal_strlit("9");
    }
    let r = if d == 0 {
        "0"
    } else if d == 1 {
        "1"
    } else if d == 2 {
        "2"
    } else if d == 3 {
        "3"
    } else if d == 4 {
        "4"
    } else if d == 5 {
        "5"
    } else if d == 6 {
        "6"
    } else if d == 7 {
        "7"
    } else if d == 8 {
        "8"
    } else {
        "9"
    };
    assert(r@ =~= seq![digit_char(d as int)]);
    r
}

/// Writes a natural number in decimal notation.
pub fn nat_to_string(n: u128) -> (r: String)
    ensures
        r@ == nat_text(n as nat),
    decreases n,
{
    if n < 10 {
        new_string(digit_str(n as u8))
    } else {
        let mut r = nat_to_string(n / 10);
        r.append(digit_str((n % 10) as u8));
        assert(r@ =~= nat_text(n as nat));
        r
    }
}

/// Writes an integer in decimal notation.
pub fn int_to_string(v: i128) -> (r: String)
    ensures
        r@ == int_text(v as int),
{
    if v < 0 {
        let magnitude: u128 = (-(v + 1)) as u128 + 1;
        let mut r = new_string("-");
        let digits = nat_to_string(magnitude);
        r.append(digits.as_str());
        proof {
            reveal_strlit("-");
            assert("-"@ =~= seq!['-']);
        }
        r
    } else {
        nat_to_string(v as u128)
    }
}

/// Writes an index in decimal notation.
pub fn index_to_string(i: usize) -> (r: String)
    ensures
        r@ == nat_text(i as nat),
{
    nat_to_string(i as u128)
}

/// Reading depends only on the characters read.
pub proof fn lemma_scan_prefix(
    a: Seq<char>,
    b: Seq<char>,
    n: int,
    negative: bool,
    min: int,
    max: int,
)
    requires
        0 <= n <= a.len(),
        n <= b.len(),
        forall|i: int| 0 <= i < n ==> a[i] == b[i],
    ensures
        scan_digits(a, n, negative, min, max) == scan_digits(b, n, negative, min, max),
    decreases n,
{
    if n > 0 {
        lemma_scan_prefix(a, b, n - 1, negative, min, max);
    }
}

/// Where reading succeeds, every character read is a digit.
pub proof fn lemma_scan_ok_digits(
    digits: Seq<char>,
    n: int,
    negative: bool,
    min: int,
    max: int,
)
    requires
        scan_digits(digits, n, negative, min, max) is Ok,
    ensures
        forall|i: int| 0 <= i < n ==> is_digit(#[trigger] digits[i]),
    decreases n,
{
    if n > 0 {
        lemma_scan_ok_digits(digits, n - 1, negative, min, max);
    }
}

/// The notation of a natural number holds at least one character.
pub proof fn lemma_nat_text_len(n: nat)
    ensures
        nat_text(n).len() >= 1,
    decreases n,
{
    if n >= 10 {
        lemma_nat_text_len(n / 10);
    }
}

/// Reading the notation of a natural number gives the number back.
pub proof fn lemma_scan_nat_text(n: nat, max: int)
    requires
        n <= max,
    ensures
        scan_digits(nat_text(n), nat_text(n).len() as int, false, 0, max) == Ok::<int, IntError>(
            n as int,
        ),
        is_digit(nat_text(n)[0]),
    decreases n,
{
    let s = nat_text(n);
    if n < 10 {
        assert(scan_digits(s, 0, false, 0, max) == Ok::<int, IntError>(0));
        assert(s[0] == digit_char(n as int));
    } else {
        let head = nat_text(n / 10);
        lemma_scan_nat_text(n / 10, max);
        lemma_nat_text_len(n / 10);
        lemma_scan_prefix(head, s, head.len() as int, false, 0, max);
        assert(s[head.len() as int] == digit_char((n % 10) as int));
        assert(s.len() == head.len() + 1);
        assert(s[0] == head[0]);
    }
}

/// An index is read back from its decimal notation.
pub proof fn lemma_index_round_trip(i: nat)
    requires
        i <= usize::MAX,
    ensures
        parse_index(nat_text(i)) == Some(i as int),
{
    lemma_scan_nat_text(i, usize::MAX as int);
    lemma_nat_text_len(i);
}

/// A text that denotes an index starts with a digit or a plus sign.
pub proof fn lemma_index_first_char(s: Seq<char>)
    requires
        parse_index(s) is Some,
    ensures
        s.len() > 0,
        is_digit(s[0]) || s[0] == '+',
{
    if s[0] != '+' {
        lemma_scan_ok_digits(s, s.len() as int, false, 0, usize::MAX as int);
    }
}

/// Two indices with the same decimal notation are the same index.
pub proof fn lemma_nat_text_injective(a: nat, b: nat)
    requires
        nat_text(a) == nat_text(b),
    ensures
        a == b,
{
    let max = if a > b { a as int } else { b as int };
    lemma_scan_nat_text(a, max);
    lemma_scan_nat_text(b, max);
}

} // verus!
