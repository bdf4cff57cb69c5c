//! Decimal numbers as whole counts of millionths: their text form, read and written.

use vstd::prelude::*;

verus! {

/// How many millionths make one unit.
pub const MICROS: u64 = 1_000_000;

/// Ten to the power `k`.
pub open spec fn pow10(k: nat) -> nat
    decreases k,
{
    if k == 0 {
        1
    } else {
        10 * pow10((k - 1) as nat)
    }
}

/// The character that writes the digit `d`.
pub open spec fn digit_char(d: int) -> char
    recommends
        0 <= d < 10,
{
    ((48 + d) as u8) as char
}

/// A natural number in decimal, without leading zeros.
pub open spec fn nat_text(n: nat) -> Seq<char>
    decreases n,
{
    if n < 10 {
        seq![digit_char(n as int)]
    } else {
        nat_text(n / 10).push(digit_char((n % 10) as int))
    }
}

/// The first `places` decimal digits of `fraction / 10^places`, without trailing zeros.
pub open spec fn fraction_text(fraction: nat, places: nat) -> Seq<char>
    recommends
        fraction < pow10(places),
    decreases places,
{
    if fraction == 0 || places == 0 {
        Seq::empty()
    } else {
        let place = pow10((places - 1) as nat);
        seq![digit_char((fraction / place) as int)] + fraction_text(
            fraction % place,
            (places - 1) as nat,
        )
    }
}

/// A count of millionths written as a decimal number: a minus sign if it is negative, the
/// whole part, and, unless the fraction is zero, a point and the fraction's digits up to the
/// last one that is not zero.
pub open spec fn decimal_text(micros: int) -> Seq<char> {
    let size = if micros < 0 {
        -micros
    } else {
        micros
    };
    let whole = nat_text((size / 1_000_000) as nat);
    let fraction = (size % 1_000_000) as nat;
    let unsigned = if fraction == 0 {
        whole
    } else {
        whole + seq!['.'] + fraction_text(fraction, 6)
    };
    if micros < 0 {
        seq!['-'] + unsigned
    } else {
        unsigned
    }
}

/// The character of a digit.
fn digit(d: u8) -> (c: char)
    requires
        d < 10,
    ensures
        c == digit_char(d as int),
{
    (d + 48) as char
}

/// Appends a natural number in decimal to `out`.
pub fn push_nat(out: &mut String, n: u128)
    ensures
        final(out)@ == old(out)@ + nat_text(n as nat),
    decreases n,
{
    if n >= 10 {
        push_nat(out, n / 10);
    }
    out.push(digit((n % 10) as u8));
    assert(out@ =~= old(out)@ + nat_text(n as nat));
}

/// Ten to the power `places`, for the places of a millionth.
fn place_value(places: u8) -> (place: u64)
    requires
        places < 6,
    ensures
        place == pow10(places as nat),
{
    reveal_with_fuel(pow10, 7);
    if places == 0 {
        1
    } else if places == 1 {
        10
    } else if places == 2 {
        100
    } else if places == 3 {
        1_000
    } else if places == 4 {
        10_000
    } else {
        100_000
    }
}

/// Appends the digits of a fraction of `places` places to `out`, up to the last that is not
/// zero.
fn push_fraction(out: &mut String, fraction: u64, places: u8)
    requires
        places <= 6,
        fraction < pow10(places as nat),
    ensures
        final(out)@ == old(out)@ + fraction_text(fraction as nat, places as nat),
    decreases places,
{
    if fraction != 0 && places != 0 {
        let place = place_value(places - 1);
        assert(fraction / place < 10 && fraction % place < place) by (nonlinear_arith)
            requires
                fraction < 10 * place,
                place > 0,
        ;
        out.push(digit((fraction / place) as u8));
        push_fraction(out, fraction % place, places - 1);
    }
    assert(out@ =~= old(out)@ + fraction_text(fraction as nat, places as nat));
}

/// Writes a count of millionths as a decimal number.
pub fn format_decimal(micros: i128) -> (text: String)
    ensures
        text@ == decimal_text(micros as int),
{
    let mut text = String::new();
    let size: u128 = if micros < 0 {
        text.push('-');
        (-(micros + 1)) as u128 + 1
    } else {
        micros as u128
    };
    push_nat(&mut text, size / 1_000_000);
    let fraction: u64 = (size % 1_000_000) as u64;
    if fraction != 0 {
        text.push('.');
        proof {
            reveal_with_fuel(pow10, 7);
        }
        push_fraction(&mut text, fraction, 6);
    }
    assert(text@ =~= decimal_text(micros as int));
    text
}

/// Why a text could not be read as a number.
#[derive(Clone, Copy, Debug, PartialEq, Eq, Structural)]
pub enum ParseError {
    /// The text is not digits with at most one decimal point among them.
    Malformed,
    /// The number does not fit a 64-bit count of millionths.
    OutOfRange,
}

/// Whether `c` is one of the digits `0` to `9`.
pub open spec fn is_digit(c: char) -> bool {
    48 <= c as u32 <= 57
}

/// The digit that `c` writes.
pub open spec fn digit_of(c: char) -> nat
    recommends
        is_digit(c),
{
    (c as u32 - 48) as nat
}

/// Whether `text` holds digits only.
pub open spec fn all_digits(text: Seq<char>) -> bool {
    forall|i: int| 0 <= i < text.len() ==> is_digit(#[trigger] text[i])
}

/// The number that a run of digits writes; zero for the empty run.
pub open spec fn digits_value(digits: Seq<char>) -> nat
    decreases digits.len(),
{
    if digits.len() == 0 {
        0
    } else {
        digits_value(digits.drop_last()) * 10 + digit_of(digits.last())
    }
}

/// The first `places` digits after a decimal point, as a count of `10^-places`: digits that
/// are missing count as zero, digits beyond `places` are cut off.
pub open spec fn fraction_value(digits: Seq<char>, places: nat) -> nat
    decreases places,
{
    if places == 0 || digits.len() == 0 {
        0
    } else {
        digit_of(digits[0]) * pow10((places - 1) as nat) + fraction_value(
            digits.drop_first(),
            (places - 1) as nat,
        )
    }
}

/// Where the first decimal point of `text` stands; its length if it has none.
pub open spec fn point_at(text: Seq<char>) -> int
    decreases text.len(),
{
    if text.len() == 0 || text[0] == '.' {
        0
    } else {
        1 + point_at(text.drop_first())
    }
}

/// The digits before the first decimal point.
pub open spec fn whole_digits(text: Seq<char>) -> Seq<char> {
    text.take(point_at(text))
}

/// What follows the first decimal point; nothing if there is none.
pub open spec fn fraction_digits(text: Seq<char>) -> Seq<char> {
    if point_at(text) < text.len() {
        text.skip(point_at(text) + 1)
    } else {
        Seq::empty()
    }
}

/// The count of millionths that `text` writes, if it is a decimal number: digits, with at
/// most one decimal point before, among or after them, and at least one digit. Digits past
/// the sixth after the point are cut off.
pub open spec fn decimal_value(text: Seq<char>) -> Option<nat> {
    let whole = whole_digits(text);
    let fraction = fraction_digits(text);
    if all_digits(whole) && all_digits(fraction) && whole.len() + fraction.len() > 0 {
        Some(digits_value(whole) * 1_000_000 + fraction_value(fraction, 6))
    } else {
        None
    }
}

/// What reading `text` as a 64-bit count of millionths gives.
pub open spec fn parsed_decimal(text: Seq<char>) -> Result<u64, ParseError> {
    match decimal_value(text) {
        None => Err(ParseError::Malformed),
        Some(value) => if value <= u64::MAX {
            Ok(value as u64)
        } else {
            Err(ParseError::OutOfRange)
        },
    }
}

/// Where a point, or the end, is at `k` and no point is before it, the first decimal point
/// stands at `k`.
pub proof fn lemma_point_at(text: Seq<char>, k: int)
    requires
        0 <= k <= text.len(),
        forall|j: int| 0 <= j < k ==> text[j] != '.',
        k < text.len() ==> text[k] == '.',
    ensures
        point_at(text) == k,
    decreases text.len(),
{
    if k > 0 {
        lemma_point_at(text.drop_first(), k - 1);
    }
}

/// The digit that `c` writes, if it is one.
fn digit_value(c: char) -> (d: Option<u8>)
    ensures
        d is Some == is_digit(c),
        d matches Some(v) ==> v == digit_of(c),
{
    let code: u32 = c as u32;
    if 48 <= code && code <= 57 {
        Some((code - 48) as u8)
    } else {
        None
    }
}

/// A whole part from which on a number is out of range, whatever its fraction.
const WHOLE_CAP: u128 = 0x1_0000_0000_0000_0000;

/// A whole part as the reader holds it: itself below the cap, the cap from there on.
spec fn capped(value: nat) -> nat {
    if value < WHOLE_CAP {
        value
    } else {
        WHOLE_CAP as nat
    }
}

/// Reads a decimal number as a count of millionths.
pub fn parse_decimal(text: &str) -> (parsed: Result<u64, ParseError>)
    ensures
        parsed == parsed_decimal(text@),
{
    let chars = crate::text::chars_of(text);
    let n = chars.len();
    let mut whole: u128 = 0;
    let mut i: usize = 0;
    assert(chars@.take(0) =~= Seq::<char>::empty());
    while i < n && chars[i] != '.'
        invariant
            chars@ == text@,
            n == chars.len(),
            i <= n,
            forall|j: int| 0 <= j < i ==> chars@[j] != '.',
            all_digits(chars@.take(i as int)),
            whole == capped(digits_value(chars@.take(i as int))),
        decreases n - i,
    {
        let seen = Ghost(chars@.take(i as int));
        let next = Ghost(chars@.take(i + 1));
        assert(next@.drop_last() =~= seen@);
        match digit_value(chars[i]) {
            Some(d) => {
                whole = whole * 10 + d as u128;
                if whole > WHOLE_CAP {
                    whole = WHOLE_CAP;
                }
            },
            None => {
                proof {
                    lemma_point_at_least(chars@, i as int + 1);
                    assert(whole_digits(chars@)[i as int] == chars@[i as int]);
                }
                return Err(ParseError::Malformed);
            },
        }
        i += 1;
    }
    proof {
        lemma_point_at(chars@, i as int);
    }
    let point = i;
    let mut fraction: u64 = 0;
    let mut places: u8 = 6;
    if i < n {
        i += 1;
    }
    let start = i;
    proof {
        reveal_with_fuel(pow10, 7);
    }
    assert(fraction_digits(chars@) =~= chars@.skip(start as int));
    while i < n
        invariant
            chars@ == text@,
            n == chars.len(),
            point <= n,
            start <= i <= n,
            start == if point < n { point + 1 } else { n as int },
            start <= n,
            places <= 6,
            i - start >= 6 ==> places == 0,
            i - start < 6 ==> places == 6 - (i - start),
            all_digits(chars@.subrange(start as int, i as int)),
            fraction_value(chars@.skip(start as int), 6) == fraction + fraction_value(
                chars@.skip(i as int),
                places as nat,
            ),
            fraction + pow10(places as nat) <= 1_000_000,
            point_at(chars@) == point,
            fraction_digits(chars@) == chars@.skip(start as int),
        decreases n - i,
    {
        let rest = Ghost(chars@.skip(i as int));
        assert(rest@.drop_first() =~= chars@.skip(i + 1));
        assert(rest@[0] == chars@[i as int]);
        match digit_value(chars[i]) {
            Some(d) => {
                if places > 0 {
                    let place = place_value(places - 1);
                    proof {
                        reveal_with_fuel(pow10, 7);
                    }
                    assert(d * place <= 9 * place) by (nonlinear_arith)
                        requires
                            d <= 9,
                            place >= 0,
                    ;
                    fraction = fraction + d as u64 * place;
                    places = places - 1;
                }
            },
            None => {
                assert(fraction_digits(chars@)[i - start] == chars@[i as int]);
                assert(!all_digits(fraction_digits(chars@)));
                return Err(ParseError::Malformed);
            },
        }
        assert(chars@.subrange(start as int, i + 1) =~= chars@.subrange(start as int, i as int).push(
            chars@[i as int],
        ));
        i += 1;
    }
    assert(chars@.subrange(start as int, n as int) =~= chars@.skip(start as int));
    assert(chars@.skip(n as int).len() == 0);
    if point == 0 && start == n {
        assert(whole_digits(chars@).len() + fraction_digits(chars@).len() == 0);
        return Err(ParseError::Malformed);
    }
    let value: u128 = whole * 1_000_000 + fraction as u128;
    if value > u64::MAX as u128 {
        Err(ParseError::OutOfRange)
    } else {
        Ok(value as u64)
    }
}

/// No decimal point among the first `k` characters puts the first one at `k` or later.
proof fn lemma_point_at_least(text: Seq<char>, k: int)
    requires
        0 <= k <= text.len(),
        forall|j: int| 0 <= j < k ==> text[j] != '.',
    ensures
        point_at(text) >= k,
        point_at(text) <= text.len(),
    decreases text.len(),
{
    if text.len() > 0 && text[0] != '.' {
        if k > 0 {
            lemma_point_at_least(text.drop_first(), k - 1);
        } else {
            lemma_point_at_least(text.drop_first(), 0);
        }
    }
}

/// A digit's character is a digit and writes that digit.
pub proof fn lemma_digit_char(d: int)
    requires
        0 <= d < 10,
    ensures
        is_digit(digit_char(d)),
        digit_of(digit_char(d)) == d,
{
}

/// A number's text is one or more digits, and they write the number.
pub proof fn lemma_nat_text(n: nat)
    ensures
        nat_text(n).len() >= 1,
        all_digits(nat_text(n)),
        digits_value(nat_text(n)) == n,
    decreases n,
{
    if n < 10 {
        lemma_digit_char(n as int);
        assert(nat_text(n).drop_last() =~= Seq::<char>::empty());
        assert(digits_value(Seq::<char>::empty()) == 0);
    } else {
        lemma_nat_text(n / 10);
        lemma_digit_char((n % 10) as int);
        assert(nat_text(n).drop_last() =~= nat_text(n / 10));
    }
}

/// A fraction's text is digits only, and read back to the same number of places they give
/// the fraction.
pub proof fn lemma_fraction_text(fraction: nat, places: nat)
    requires
        fraction < pow10(places),
    ensures
        all_digits(fraction_text(fraction, places)),
        fraction_value(fraction_text(fraction, places), places) == fraction,
        fraction > 0 ==> fraction_text(fraction, places).len() >= 1,
    decreases places,
{
    if fraction != 0 && places != 0 {
        let place = pow10((places - 1) as nat);
        let lead = fraction / place;
        let rest = fraction % place;
        lemma_pow10_positive((places - 1) as nat);
        assert(lead < 10 && rest < place && fraction == lead * place + rest)
            by (nonlinear_arith)
            requires
                fraction < 10 * place,
                place > 0,
                lead == fraction / place,
                rest == fraction % place,
        ;
        lemma_digit_char(lead as int);
        lemma_fraction_text(rest, (places - 1) as nat);
        let text = fraction_text(fraction, places);
        assert(text[0] == digit_char(lead as int));
        assert(text.drop_first() =~= fraction_text(rest, (places - 1) as nat));
    }
}

/// A power of ten is positive.
proof fn lemma_pow10_positive(k: nat)
    ensures
        pow10(k) > 0,
    decreases k,
{
    if k > 0 {
        lemma_pow10_positive((k - 1) as nat);
    }
}

/// What is written is read back: the text of a count of millionths that is not negative is
/// a decimal number, and its value is that count.
pub proof fn lemma_text_reads_back(micros: int)
    requires
        0 <= micros,
    ensures
        decimal_value(decimal_text(micros)) == Some(micros as nat),
{
    let whole = nat_text((micros / 1_000_000) as nat);
    let fraction = (micros % 1_000_000) as nat;
    let text = decimal_text(micros);
    lemma_nat_text((micros / 1_000_000) as nat);
    assert(forall|j: int| 0 <= j < whole.len() ==> whole[j] != '.') by {
        assert forall|j: int| 0 <= j < whole.len() implies whole[j] != '.' by {
            assert(is_digit(whole[j]));
        }
    }
    if fraction == 0 {
        lemma_point_at(text, text.len() as int);
        assert(whole_digits(text) =~= whole);
        assert(fraction_value(Seq::<char>::empty(), 6) == 0);
    } else {
        reveal_with_fuel(pow10, 7);
        lemma_fraction_text(fraction, 6);
        let digits = fraction_text(fraction, 6);
        assert(text =~= whole + seq!['.'] + digits);
        lemma_point_at(text, whole.len() as int);
        assert(whole_digits(text) =~= whole);
        assert(fraction_digits(text) =~= digits);
    }
}

} // verus!
