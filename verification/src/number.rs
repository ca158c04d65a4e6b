//! Decimal text: reading an unsigned number from characters and writing one out.
//!
//! Reading follows the rules of `u64`'s `FromStr`: an optional leading `+`,
//! then one or more ASCII digits, scanned from the left; the first character
//! that is no digit, or the first digit at which the value no longer fits,
//! decides the error.

use vstd::prelude::*;

verus! {

/// Why a piece of text is not a `u64`.
#[derive(Clone, Copy, Debug, PartialEq, Eq, Structural)]
pub enum NumberError {
    /// The text is empty.
    Empty,
    /// The text holds a character that is no decimal digit, or nothing but a sign.
    InvalidDigit,
    /// The digits stand for a number above `u64::MAX`.
    PosOverflow,
}

impl NumberError {
    /// The sentence that describes the error.
    pub open spec fn message_spec(self) -> Seq<char> {
        match self {
            NumberError::Empty => "cannot parse integer from empty string"@,
            NumberError::InvalidDigit => "invalid digit found in string"@,
            NumberError::PosOverflow => "number too large to fit in target type"@,
        }
    }

    /// The sentence that describes the error.
    pub fn message(&self) -> (message: &'static str)
        ensures
            message@ == self.message_spec(),
    {
        match self {
            NumberError::Empty => "cannot parse integer from empty string",
            NumberError::InvalidDigit => "invalid digit found in string",
            NumberError::PosOverflow => "number too large to fit in target type",
        }
    }
}

/// Whether `c` is one of the ten ASCII decimal digits.
pub open spec fn is_digit(c: char) -> bool {
    '0' <= c && c <= '9'
}

/// The number that the digit `c` stands for.
pub open spec fn digit_value(c: char) -> nat
    recommends
        is_digit(c),
{
    (c as u32 - '0' as u32) as nat
}

/// Whether every character of `s` is a decimal digit.
pub open spec fn all_digits(s: Seq<char>) -> bool {
    forall|i: int| 0 <= i < s.len() ==> is_digit(#[trigger] s[i])
}

/// The number that a sequence of digits stands for in base ten; zero for the
/// empty sequence.
pub open spec fn decimal_value(digits: Seq<char>) -> nat
    decreases digits.len(),
{
    if digits.len() == 0 {
        0
    } else {
        decimal_value(digits.drop_last()) * 10 + digit_value(digits.last())
    }
}

/// `s` without its leading `+`, if it has one.
pub open spec fn unsigned(s: Seq<char>) -> Seq<char> {
    if s.len() > 0 && s[0] == '+' {
        s.drop_first()
    } else {
        s
    }
}

/// Whether some run of digits at the start of `digits` already stands for a
/// number above `u64::MAX`.
pub open spec fn overflows(digits: Seq<char>) -> bool {
    exists|k: int|
        0 <= k <= digits.len() && all_digits(#[trigger] digits.take(k)) && decimal_value(
            digits.take(k),
        ) > u64::MAX
}

/// What reading `s` as a `u64` gives.
pub open spec fn parse_number_spec(s: Seq<char>) -> Result<nat, NumberError> {
    let digits = unsigned(s);
    if s.len() == 0 {
        Err(NumberError::Empty)
    } else if digits.len() == 0 {
        Err(NumberError::InvalidDigit)
    } else if overflows(digits) {
        Err(NumberError::PosOverflow)
    } else if !all_digits(digits) {
        Err(NumberError::InvalidDigit)
    } else {
        Ok(decimal_value(digits))
    }
}

/// The digits of `n` in base ten, most significant first, without leading zeros.
pub open spec fn decimal_digits(n: nat) -> Seq<char>
    decreases n,
{
    if n < 10 {
        seq![digit_char(n)]
    } else {
        decimal_digits(n / 10).push(digit_char(n % 10))
    }
}

/// The digit that stands for `d`.
pub open spec fn digit_char(d: nat) -> char
    recommends
        d < 10,
{
    ('0' as u32 + d as u32) as char
}

/// The characters of `s`, in order.
pub fn chars_of(s: &str) -> (chars: Vec<char>)
    ensures
        chars@ == s@,
{
    broadcast use vstd::string::group_string_axioms;

    let mut chars: Vec<char> = Vec::new();
    for c in it: s.chars()
        invariant
            it.seq() == s@,
            chars@ == s@.take(it.index()),
    {
        chars.push(c);
    }
    chars
}

/// The value of `c` as a decimal digit, if it is one.
pub fn digit_of(c: char) -> (d: Option<u64>)
    ensures
        d is Some <==> is_digit(c),
        d matches Some(v) ==> v == digit_value(c) && v < 10,
{
    if '0' <= c && c <= '9' {
        Some((c as u64) - ('0' as u64))
    } else {
        None
    }
}

/// Appending a digit to a run of digits multiplies its value by ten and adds
/// the digit.
proof fn lemma_value_step(digits: Seq<char>, k: int)
    requires
        0 <= k < digits.len(),
    ensures
        decimal_value(digits.take(k + 1)) == decimal_value(digits.take(k)) * 10 + digit_value(
            digits[k],
        ),
{
    let longer = digits.take(k + 1);
    assert(longer.drop_last() =~= digits.take(k));
    assert(longer.last() == digits[k]);
}

/// A run of digits stays one when a digit is appended.
proof fn lemma_digits_step(digits: Seq<char>, k: int)
    requires
        0 <= k < digits.len(),
        all_digits(digits.take(k)),
        is_digit(digits[k]),
    ensures
        all_digits(digits.take(k + 1)),
{
    let longer = digits.take(k + 1);
    assert forall|i: int| 0 <= i < longer.len() implies is_digit(#[trigger] longer[i]) by {
        if i < k {
            assert(longer[i] == digits.take(k)[i]);
        }
    }
}

/// A longer run of characters stands for no smaller number.
proof fn lemma_value_monotone(digits: Seq<char>, j: int, k: int)
    requires
        0 <= j <= k <= digits.len(),
    ensures
        decimal_value(digits.take(j)) <= decimal_value(digits.take(k)),
    decreases k - j,
{
    if j < k {
        lemma_value_monotone(digits, j, k - 1);
        lemma_value_step(digits, k - 1);
    }
}

/// Where the character at `at` is no digit and the digits before it fit,
/// the text is no run of digits and no run at its start overflows.
proof fn lemma_stops_at_invalid(digits: Seq<char>, at: int)
    requires
        0 <= at < digits.len(),
        !is_digit(digits[at]),
        decimal_value(digits.take(at)) <= u64::MAX,
    ensures
        !all_digits(digits),
        !overflows(digits),
{
    assert forall|k: int| 0 <= k <= digits.len() && all_digits(
        #[trigger] digits.take(k),
    ) implies decimal_value(digits.take(k)) <= u64::MAX by {
        if k > at {
            assert(digits.take(k)[at] == digits[at]);
        } else {
            lemma_value_monotone(digits, k, at);
        }
    }
}

/// A run of digits that fits has no run at its start that overflows.
proof fn lemma_fits(digits: Seq<char>)
    requires
        decimal_value(digits) <= u64::MAX,
    ensures
        !overflows(digits),
{
    assert(digits.take(digits.len() as int) =~= digits);
    assert forall|k: int| 0 <= k <= digits.len() implies decimal_value(
        #[trigger] digits.take(k),
    ) <= u64::MAX by {
        lemma_value_monotone(digits, k, digits.len() as int);
    }
}

/// Reads `text` as a `u64`.
pub fn parse_number(text: &Vec<char>) -> (r: Result<u64, NumberError>)
    ensures
        match r {
            Ok(v) => parse_number_spec(text@) == Ok::<nat, NumberError>(v as nat),
            Err(e) => parse_number_spec(text@) == Err::<nat, NumberError>(e),
        },
{
    let n = text.len();
    if n == 0 {
        return Err(NumberError::Empty);
    }
    let start: usize = if text[0] == '+' {
        1
    } else {
        0
    };
    if start == n {
        return Err(NumberError::InvalidDigit);
    }
    let ghost digits = unsigned(text@);
    assert(digits =~= text@.skip(start as int));
    let mut value: u64 = 0;
    let mut i: usize = start;
    assert(digits.take(0) =~= Seq::<char>::empty());
    while i < n
        invariant
            start <= i <= n,
            n == text.len(),
            n > 0,
            digits == unsigned(text@),
            digits.len() == n - start,
            forall|j: int| 0 <= j < digits.len() ==> digits[j] == text@[start + j],
            all_digits(digits.take(i - start)),
            value == decimal_value(digits.take(i - start)),
        decreases n - i,
    {
        let ghost at = i - start;
        let c = text[i];
        assert(digits[at] == c);
        match digit_of(c) {
            None => {
                proof {
                    lemma_stops_at_invalid(digits, at);
                }
                return Err(NumberError::InvalidDigit);
            },
            Some(d) => {
                proof {
                    lemma_value_step(digits, at);
                    lemma_digits_step(digits, at);
                }
                let next = match value.checked_mul(10) {
                    Some(tens) => tens.checked_add(d),
                    None => None,
                };
                match next {
                    None => {
                        assert(overflows(digits));
                        return Err(NumberError::PosOverflow);
                    },
                    Some(v) => {
                        value = v;
                    },
                }
            },
        }
        i += 1;
    }
    proof {
        assert(digits.take(n - start) =~= digits);
        lemma_fits(digits);
    }
    Ok(value)
}

/// A number that was read fits in 64 bits.
pub proof fn lemma_read_number_fits(text: Seq<char>)
    ensures
        parse_number_spec(text) matches Ok(value) ==> value <= u64::MAX,
{
    let digits = unsigned(text);
    if parse_number_spec(text) is Ok {
        assert(digits.take(digits.len() as int) =~= digits);
    }
}

/// A run of one or more digits whose number fits in 64 bits is read as that
/// number.
pub proof fn lemma_digits_are_read(digits: Seq<char>)
    requires
        digits.len() >= 1,
        all_digits(digits),
        decimal_value(digits) <= u64::MAX,
    ensures
        parse_number_spec(digits) == Ok::<nat, NumberError>(decimal_value(digits)),
{
    assert(is_digit(digits[0]));
    lemma_fits(digits);
}

/// Writing a number out and reading the digits back gives the number again:
/// the digits of `n` are digits, they stand for `n`, and where `n` fits in 64
/// bits they are read as `n`.
pub proof fn lemma_decimal_round_trip(n: nat)
    ensures
        decimal_digits(n).len() >= 1,
        all_digits(decimal_digits(n)),
        decimal_value(decimal_digits(n)) == n,
        n <= u64::MAX ==> parse_number_spec(decimal_digits(n)) == Ok::<nat, NumberError>(n),
    decreases n,
{
    let text = decimal_digits(n);
    if n < 10 {
        assert(text.drop_last() =~= Seq::<char>::empty());
        assert(decimal_value(text.drop_last()) == 0);
    } else {
        lemma_decimal_round_trip(n / 10);
        assert(text.drop_last() =~= decimal_digits(n / 10));
        assert(text.last() == digit_char(n % 10));
    }
    if n <= u64::MAX {
        lemma_digits_are_read(text);
    }
}

/// The one-character text of the digit `d`.
fn digit_text(d: u64) -> (text: &'static str)
    requires
        d < 10,
    ensures
        text@ == seq![digit_char(d as nat)],
{
    proof {
        reveal_strlit("0");
        reveal_strlit("1");
        reveal_strlit("2");
        reveal_strlit("3");
        reveal_strlit("4");
        reveal_strlit("5");
        reveal_strlit("6");
        reveal_strlit("7");
        reveal_strlit("8");
        reveal_strlit("9");
    }
    let text = if d == 0 {
        "0"
    } else if d == 1 {
        "1"
    } else if d == 2 {
        "2"
    } else if d == 3 {
        "3"
    } else if d == 4 {
        "4"
    } else if d == 5 {
        "5"
    } else if d == 6 {
        "6"
    } else if d == 7 {
        "7"
    } else if d == 8 {
        "8"
    } else {
        "9"
    };
    assert(text@ =~= seq![digit_char(d as nat)]);
    text
}

/// Appends the decimal digits of `n` to `out`.
pub fn push_decimal(out: &mut String, n: u64)
    ensures
        final(out)@ == old(out)@ + decimal_digits(n as nat),
    decreases n,
{
    if n >= 10 {
        push_decimal(out, n / 10);
    }
    out.append(digit_text(n % 10));
}

} // verus!
