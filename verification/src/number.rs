//! Decimal parsing of integers with the rules of `str::parse`, and decimal and
//! hexadecimal rendering of integers.
use vstd::prelude::*;

verus! {

/// Why a decimal text is not an integer of the requested type; the variants
/// are the kinds that `str::parse` reports for the integer types.
#[derive(Clone, Copy, Debug, PartialEq, Eq, Structural)]
pub enum ParseIntError {
    Empty,
    InvalidDigit,
    PosOverflow,
    NegOverflow,
}

/// The message that `str::parse` shows for each kind of failure.
pub open spec fn spec_error_description(error: ParseIntError) -> Seq<char> {
    match error {
        ParseIntError::Empty => "cannot parse integer from empty string"@,
        ParseIntError::InvalidDigit => "invalid digit found in string"@,
        ParseIntError::PosOverflow => "number too large to fit in target type"@,
        ParseIntError::NegOverflow => "number too small to fit in target type"@,
    }
}

impl ParseIntError {
    /// The message that describes this error.
    pub fn description(&self) -> (text: &'static str)
        ensures
            text@ == spec_error_description(*self),
    {
        match self {
            ParseIntError::Empty => "cannot parse integer from empty string",
            ParseIntError::InvalidDigit => "invalid digit found in string",
            ParseIntError::PosOverflow => "number too large to fit in target type",
            ParseIntError::NegOverflow => "number too small to fit in target type",
        }
    }
}

pub open spec fn is_decimal_digit(c: char) -> bool {
    48 <= (c as u32) <= 57
}

pub open spec fn digit_value(c: char) -> int {
    (c as u32) - 48
}

/// Scans `digits` from left to right, as `str::parse` does, accumulating the
/// value towards the sign given by `negative`; the first character that is
/// not a digit, or the first step that leaves `lo..=hi`, decides the error.
pub open spec fn scan_digits(digits: Seq<char>, negative: bool, lo: int, hi: int) -> Result<
    int,
    ParseIntError,
>
    decreases digits.len(),
{
    if digits.len() == 0 {
        Ok(0)
    } else {
        match scan_digits(digits.drop_last(), negative, lo, hi) {
            Err(e) => Err(e),
            Ok(v) => {
                let c = digits.last();
                if !is_decimal_digit(c) {
                    Err(ParseIntError::InvalidDigit)
                } else {
                    let w = if negative {
                        v * 10 - digit_value(c)
                    } else {
                        v * 10 + digit_value(c)
                    };
                    if w < lo || w > hi {
                        Err(
                            if negative {
                                ParseIntError::NegOverflow
                            } else {
                                ParseIntError::PosOverflow
                            },
                        )
                    } else {
                        Ok(w)
                    }
                }
            },
        }
    }
}

/// What `str::parse` gives for an integer type whose range is `lo..=hi`:
/// an optional `+` (or `-` where `signed`) followed by decimal digits.
pub open spec fn spec_parse_int(text: Seq<char>, signed: bool, lo: int, hi: int) -> Result<
    int,
    ParseIntError,
> {
    if text.len() == 0 {
        Err(ParseIntError::Empty)
    } else if (text[0] == '+' || text[0] == '-') && text.len() == 1 {
        Err(ParseIntError::InvalidDigit)
    } else if text[0] == '+' {
        scan_digits(text.drop_first(), false, lo, hi)
    } else if text[0] == '-' && signed {
        scan_digits(text.drop_first(), true, lo, hi)
    } else {
        scan_digits(text, false, lo, hi)
    }
}

pub open spec fn spec_parse_u64(text: Seq<char>) -> Result<u64, ParseIntError> {
    match spec_parse_int(text, false, 0, u64::MAX as int) {
        Ok(v) => Ok(v as u64),
        Err(e) => Err(e),
    }
}

pub open spec fn spec_parse_u32(text: Seq<char>) -> Result<u32, ParseIntError> {
    match spec_parse_int(text, false, 0, u32::MAX as int) {
        Ok(v) => Ok(v as u32),
        Err(e) => Err(e),
    }
}

pub open spec fn spec_parse_i64(text: Seq<char>) -> Result<i64, ParseIntError> {
    match spec_parse_int(text, true, i64::MIN as int, i64::MAX as int) {
        Ok(v) => Ok(v as i64),
        Err(e) => Err(e),
    }
}

/// Once the scan of a prefix has failed, every longer prefix fails the same way.
proof fn lemma_scan_error_persists(digits: Seq<char>, j: int, k: int, negative: bool, lo: int, hi: int)
    requires
        0 <= j <= k <= digits.len(),
        scan_digits(digits.take(j), negative, lo, hi) is Err,
    ensures
        scan_digits(digits.take(k), negative, lo, hi) == scan_digits(
            digits.take(j),
            negative,
            lo,
            hi,
        ),
    decreases k - j,
{
    if k > j {
        lemma_scan_error_persists(digits, j, k - 1, negative, lo, hi);
        assert(digits.take(k).drop_last() =~= digits.take(k - 1));
    }
}

/// Every successful scan stays inside `lo..=hi`.
proof fn lemma_scan_in_range(digits: Seq<char>, negative: bool, lo: int, hi: int)
    requires
        lo <= 0 <= hi,
    ensures
        scan_digits(digits, negative, lo, hi) matches Ok(v) ==> lo <= v <= hi,
    decreases digits.len(),
{
    if digits.len() > 0 {
        lemma_scan_in_range(digits.drop_last(), negative, lo, hi);
    }
}

/// Scans `chars[start..end]` as the digits of an integer in `lo..=hi`.
fn scan_digit_range(
    chars: &Vec<char>,
    start: usize,
    end: usize,
    negative: bool,
    lo: i128,
    hi: i128,
) -> (r: Result<i128, ParseIntError>)
    requires
        start <= end <= chars.len(),
        -0x8000_0000_0000_0000 <= lo <= 0 <= hi <= 0xffff_ffff_ffff_ffff,
    ensures
        r == (match scan_digits(chars@.subrange(start as int, end as int), negative, lo as int, hi as int) {
            Ok(v) => Ok(v as i128),
            Err(e) => Err(e),
        }),
{
    let ghost digits = chars@.subrange(start as int, end as int);
    let mut acc: i128 = 0;
    let mut i: usize = start;
    assert(digits.take(0) =~= Seq::<char>::empty());
    while i < end
        invariant
            start <= i <= end <= chars.len(),
            digits == chars@.subrange(start as int, end as int),
            -0x8000_0000_0000_0000 <= lo <= 0 <= hi <= 0xffff_ffff_ffff_ffff,
            scan_digits(digits.take(i - start), negative, lo as int, hi as int) == Ok::<int, ParseIntError>(acc as int),
            lo <= acc <= hi,
        decreases end - i,
    {
        let c = chars[i];
        let code: u32 = c as u32;
        assert(digits.take(i - start + 1).drop_last() =~= digits.take(i - start));
        assert(digits.take(i - start + 1).last() == c);
        if code < 48 || code > 57 {
            proof {
                lemma_scan_error_persists(digits, i - start + 1, digits.len() as int, negative, lo as int, hi as int);
                assert(digits.take(digits.len() as int) =~= digits);
            }
            return Err(ParseIntError::InvalidDigit);
        }
        let d: i128 = (code - 48) as i128;
        let w: i128 = if negative {
            acc * 10 - d
        } else {
            acc * 10 + d
        };
        if w < lo || w > hi {
            proof {
                lemma_scan_error_persists(digits, i - start + 1, digits.len() as int, negative, lo as int, hi as int);
                assert(digits.take(digits.len() as int) =~= digits);
            }
            if negative {
                return Err(ParseIntError::NegOverflow);
            } else {
                return Err(ParseIntError::PosOverflow);
            }
        }
        acc = w;
        i = i + 1;
    }
    assert(digits.take(digits.len() as int) =~= digits);
    Ok(acc)
}

/// Parses `chars[start..end]` as `str::parse` parses an integer type whose
/// range is `lo..=hi`.
pub fn parse_int_range(
    chars: &Vec<char>,
    start: usize,
    end: usize,
    signed: bool,
    lo: i128,
    hi: i128,
) -> (r: Result<i128, ParseIntError>)
    requires
        start <= end <= chars.len(),
        -0x8000_0000_0000_0000 <= lo <= 0 <= hi <= 0xffff_ffff_ffff_ffff,
    ensures
        r == (match spec_parse_int(chars@.subrange(start as int, end as int), signed, lo as int, hi as int) {
            Ok(v) => Ok(v as i128),
            Err(e) => Err(e),
        }),
        r matches Ok(v) ==> lo <= v <= hi,
{
    let ghost text = chars@.subrange(start as int, end as int);
    if start == end {
        return Err(ParseIntError::Empty);
    }
    let first = chars[start];
    assert(text[0] == first);
    if (first == '+' || first == '-') && end - start == 1 {
        return Err(ParseIntError::InvalidDigit);
    }
    assert(text.drop_first() =~= chars@.subrange(start + 1, end as int));
    let r = if first == '+' {
        proof { lemma_scan_in_range(text.drop_first(), false, lo as int, hi as int); }
        scan_digit_range(chars, start + 1, end, false, lo, hi)
    } else if first == '-' && signed {
        proof { lemma_scan_in_range(text.drop_first(), true, lo as int, hi as int); }
        scan_digit_range(chars, start + 1, end, true, lo, hi)
    } else {
        proof { lemma_scan_in_range(text, false, lo as int, hi as int); }
        scan_digit_range(chars, start, end, false, lo, hi)
    };
    r
}

/// The lower-case hexadecimal digit (and, below ten, the decimal digit) of `d`.
pub open spec fn digit_char(d: nat) -> char {
    if d < 10 {
        (48 + d) as char
    } else {
        (87 + d) as char
    }
}

/// The decimal representation of `n`, without leading zeros.
pub open spec fn decimal(n: nat) -> Seq<char>
    decreases n,
{
    if n < 10 {
        seq![digit_char(n)]
    } else {
        decimal(n / 10).push(digit_char(n % 10))
    }
}

/// The decimal representation of a signed `n`, with a leading `-` when negative.
pub open spec fn signed_decimal(n: int) -> Seq<char> {
    if n < 0 {
        seq!['-'] + decimal((-n) as nat)
    } else {
        decimal(n as nat)
    }
}

/// The lower-case hexadecimal representation of `n`, without leading zeros.
pub open spec fn hexadecimal(n: nat) -> Seq<char>
    decreases n,
{
    if n < 16 {
        seq![digit_char(n)]
    } else {
        hexadecimal(n / 16).push(digit_char(n % 16))
    }
}

/// What `format!("{:#x}", n)` shows: `0x` and the hexadecimal digits.
pub open spec fn prefixed_hex(n: nat) -> Seq<char> {
    seq!['0', 'x'] + hexadecimal(n)
}

/// The one-character text of the digit `d`.
fn digit_text(d: u64) -> (text: &'static str)
    requires
        d < 16,
    ensures
        text@ == seq![digit_char(d as nat)],
{
    proof {
        reveal_strlit("0");
        reveal_strlit("1");
        reveal_strlit("2");
        reveal_strlit("3");
        reveal_strlit("4");
        reveal_strlit("5");
        reveal_strlit("6");
        reveal_strlit("7");
        reveal_strlit("8");
        reveal_strlit("9");
        reveal_strlit("a");
        reveal_strlit("b");
        reveal_strlit("c");
        reveal_strlit("d");
        reveal_strlit("e");
        reveal_strlit("f");
    }
    let text = match d {
        0 => "0",
        1 => "1",
        2 => "2",
        3 => "3",
        4 => "4",
        5 => "5",
        6 => "6",
        7 => "7",
        8 => "8",
        9 => "9",
        10 => "a",
        11 => "b",
        12 => "c",
        13 => "d",
        14 => "e",
        _ => "f",
    };
    assert(text@ =~= seq![digit_char(d as nat)]);
    text
}

/// Appends the decimal digits of `n` to `out`.
pub fn push_decimal(out: &mut String, n: u64)
    ensures
        final(out)@ == old(out)@ + decimal(n as nat),
    decreases n,
{
    if n >= 10 {
        push_decimal(out, n / 10);
    }
    out.append(digit_text(n % 10));
    proof {
        if n >= 10 {
            assert(old(out)@ + decimal((n / 10) as nat) + seq![digit_char((n % 10) as nat)] =~= old(out)@ + decimal(n as nat));
        } else {
            assert(old(out)@ + seq![digit_char((n % 10) as nat)] =~= old(out)@ + decimal(n as nat));
        }
    }
}

/// Appends the decimal representation of a signed `n` to `out`.
pub fn push_signed_decimal(out: &mut String, n: i64)
    ensures
        final(out)@ == old(out)@ + signed_decimal(n as int),
{
    if n < 0 {
        out.append("-");
        proof { reveal_strlit("-"); }
        let magnitude: u64 = (0i128 - (n as i128)) as u64;
        push_decimal(out, magnitude);
        assert(out@ =~= old(out)@ + signed_decimal(n as int));
    } else {
        push_decimal(out, n as u64);
    }
}

/// Appends the hexadecimal digits of `n` to `out`.
pub fn push_hex_digits(out: &mut String, n: u64)
    ensures
        final(out)@ == old(out)@ + hexadecimal(n as nat),
    decreases n,
{
    if n >= 16 {
        push_hex_digits(out, n / 16);
    }
    out.append(digit_text(n % 16));
    proof {
        if n >= 16 {
            assert(old(out)@ + hexadecimal((n / 16) as nat) + seq![digit_char((n % 16) as nat)] =~= old(out)@ + hexadecimal(n as nat));
        } else {
            assert(old(out)@ + seq![digit_char((n % 16) as nat)] =~= old(out)@ + hexadecimal(n as nat));
        }
    }
}

/// The decimal text of `n`, as `n.to_string()` gives it.
pub fn to_decimal(n: u64) -> (text: String)
    ensures
        text@ == decimal(n as nat),
{
    let mut text = String::new();
    push_decimal(&mut text, n);
    assert(text@ =~= decimal(n as nat));
    text
}

/// The text `format!("{:#x}", n)` gives: `0x` and the lower-case hexadecimal digits.
pub fn to_prefixed_hex(n: u64) -> (text: String)
    ensures
        text@ == prefixed_hex(n as nat),
{
    let mut text = String::from_str("0x");
    proof { reveal_strlit("0x"); }
    push_hex_digits(&mut text, n);
    assert(text@ =~= prefixed_hex(n as nat));
    text
}

proof fn lemma_digit_char_value(d: nat)
    requires
        d < 10,
    ensures
        is_decimal_digit(digit_char(d)),
        digit_value(digit_char(d)) == d,
{
}

/// Every character of a decimal representation is a digit.
pub proof fn lemma_decimal_digits(n: nat)
    ensures
        decimal(n).len() >= 1,
        forall|i: int| 0 <= i < decimal(n).len() ==> is_decimal_digit(#[trigger] decimal(n)[i]),
    decreases n,
{
    if n < 10 {
        lemma_digit_char_value(n);
    } else {
        lemma_decimal_digits(n / 10);
        lemma_digit_char_value(n % 10);
    }
}

/// Parsing the decimal representation of a value gives the value back, for
/// every integer type whose range holds it.
pub proof fn lemma_parse_decimal(n: nat, signed: bool, lo: int, hi: int)
    requires
        lo <= 0,
        n <= hi,
    ensures
        spec_parse_int(decimal(n), signed, lo, hi) == Ok::<int, ParseIntError>(n as int),
{
    lemma_decimal_digits(n);
    assert(is_decimal_digit(decimal(n)[0]));
    lemma_scan_decimal_lo(n, lo, hi);
}

proof fn lemma_scan_decimal_lo(n: nat, lo: int, hi: int)
    requires
        lo <= 0,
        n <= hi,
    ensures
        scan_digits(decimal(n), false, lo, hi) == Ok::<int, ParseIntError>(n as int),
    decreases n,
{
    if n < 10 {
        lemma_digit_char_value(n);
        assert(decimal(n).drop_last() =~= Seq::<char>::empty());
        assert(scan_digits(Seq::<char>::empty(), false, lo, hi) == Ok::<int, ParseIntError>(0));
        assert(decimal(n).last() == digit_char(n));
    } else {
        lemma_scan_decimal_lo(n / 10, lo, hi);
        lemma_digit_char_value(n % 10);
        assert(decimal(n).drop_last() =~= decimal(n / 10));
        assert(decimal(n).last() == digit_char(n % 10));
        assert((n / 10) * 10 + n % 10 == n);
    }
}

proof fn lemma_scan_negative_decimal(n: nat, lo: int, hi: int)
    requires
        lo <= -(n as int),
        0 <= hi,
    ensures
        scan_digits(decimal(n), true, lo, hi) == Ok::<int, ParseIntError>(-(n as int)),
    decreases n,
{
    if n < 10 {
        lemma_digit_char_value(n);
        assert(decimal(n).drop_last() =~= Seq::<char>::empty());
        assert(scan_digits(Seq::<char>::empty(), true, lo, hi) == Ok::<int, ParseIntError>(0));
        assert(decimal(n).last() == digit_char(n));
    } else {
        lemma_scan_negative_decimal(n / 10, lo, hi);
        lemma_digit_char_value(n % 10);
        assert(decimal(n).drop_last() =~= decimal(n / 10));
        assert(decimal(n).last() == digit_char(n % 10));
        assert((n / 10) * 10 + n % 10 == n);
    }
}

/// Parsing the signed decimal representation of a value gives the value
/// back, for every signed integer type whose range holds it.
pub proof fn lemma_parse_signed_decimal(n: int, lo: int, hi: int)
    requires
        lo <= n <= hi,
        lo <= 0 <= hi,
    ensures
        spec_parse_int(signed_decimal(n), true, lo, hi) == Ok::<int, ParseIntError>(n),
{
    if n < 0 {
        let m = (-n) as nat;
        lemma_decimal_digits(m);
        lemma_scan_negative_decimal(m, lo, hi);
        assert(signed_decimal(n).drop_first() =~= decimal(m));
        assert(signed_decimal(n)[0] == '-');
    } else {
        lemma_parse_decimal(n as nat, true, lo, hi);
    }
}

/// The value of a digit of a lower-case hexadecimal text.
pub open spec fn hex_digit_value(c: char) -> int {
    if is_decimal_digit(c) {
        (c as u32) - 48
    } else {
        (c as u32) - 87
    }
}

/// The value that the lower-case hexadecimal digits `digits` stand for.
pub open spec fn hex_value(digits: Seq<char>) -> int
    decreases digits.len(),
{
    if digits.len() == 0 {
        0
    } else {
        hex_value(digits.drop_last()) * 16 + hex_digit_value(digits.last())
    }
}

proof fn lemma_hex_digit(d: nat)
    requires
        d < 16,
    ensures
        hex_digit_value(digit_char(d)) == d,
{
    if d < 10 {
        lemma_digit_char_value(d);
    } else {
        assert(((87 + d) as char) as u32 == 87 + d);
    }
}

proof fn lemma_hex_value(n: nat)
    ensures
        hex_value(hexadecimal(n)) == n,
    decreases n,
{
    if n < 16 {
        assert(hexadecimal(n).drop_last() =~= Seq::<char>::empty());
        assert(hexadecimal(n).last() == digit_char(n));
        assert(hex_value(Seq::<char>::empty()) == 0);
        lemma_hex_digit(n);
    } else {
        lemma_hex_digit(n % 16);
        lemma_hex_value(n / 16);
        assert(hexadecimal(n).drop_last() =~= hexadecimal(n / 16));
        assert(hexadecimal(n).last() == digit_char(n % 16));
        assert((n / 16) * 16 + n % 16 == n);
    }
}

/// The `0x` text of a value stands for that value alone: two values have
/// the same text exactly when they are equal, so no register value is lost
/// or confused in the report.
pub proof fn hex_text_is_exact(a: u64, b: u64)
    ensures
        (prefixed_hex(a as nat) == prefixed_hex(b as nat)) <==> (a == b),
{
    if prefixed_hex(a as nat) == prefixed_hex(b as nat) {
        lemma_hex_value(a as nat);
        lemma_hex_value(b as nat);
        assert(prefixed_hex(a as nat).skip(2) =~= hexadecimal(a as nat));
        assert(prefixed_hex(b as nat).skip(2) =~= hexadecimal(b as nat));
    }
}

} // verus!
