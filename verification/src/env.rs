//! Settings that come either from the command line or from environment
//! variables, and the reading of unsigned decimal numbers from text.

use vstd::prelude::*;
use crate::strings::{chars_of, owned, spec_decimal, digit_char};

verus! {

/// The value of an environment variable as the process found it.
pub enum EnvVar {
    /// The variable is not set.
    Missing,
    /// The variable holds this text.
    Text(String),
    /// The variable is set but does not hold valid Unicode.
    NotUnicode,
}

/// Why a decimal number could not be read.
#[derive(PartialEq, Eq, Structural, Clone, Copy, Debug)]
pub enum IntErrorKind {
    /// The text is empty.
    Empty,
    /// A character is not a decimal digit.
    InvalidDigit,
    /// The number is larger than the type can hold.
    PosOverflow,
}

impl IntErrorKind {
    /// The standard message for this kind of error.
    pub fn message(&self) -> (r: &'static str)
        ensures
            r@ == spec_int_error_message(*self),
    {
        match self {
            IntErrorKind::Empty => "cannot parse integer from empty string",
            IntErrorKind::InvalidDigit => "invalid digit found in string",
            IntErrorKind::PosOverflow => "number too large to fit in target type",
        }
    }
}

/// The standard message for each kind of number error.
pub open spec fn spec_int_error_message(k: IntErrorKind) -> Seq<char> {
    match k {
        IntErrorKind::Empty => "cannot parse integer from empty string"@,
        IntErrorKind::InvalidDigit => "invalid digit found in string"@,
        IntErrorKind::PosOverflow => "number too large to fit in target type"@,
    }
}

/// `c` is an ASCII decimal digit.
pub open spec fn is_digit(c: char) -> bool {
    '0' <= c <= '9'
}

/// The value of a string of decimal digits.
pub open spec fn digits_value(s: Seq<char>) -> nat
    decreases s.len(),
{
    if s.len() == 0 {
        0
    } else {
        digits_value(s.drop_last()) * 10 + ((s.last() as int - 48) as nat)
    }
}

/// The digits of an unsigned number: the text without one leading `+`.
pub open spec fn unsigned_digits(s: Seq<char>) -> Seq<char> {
    if s.len() > 0 && s[0] == '+' {
        s.skip(1)
    } else {
        s
    }
}

/// Position `i` of the digits is where reading stops: the character is not a
/// digit, or the number read so far is larger than `max`.
pub open spec fn fails_at(d: Seq<char>, i: int, max: nat) -> bool {
    0 <= i < d.len() && (!is_digit(d[i]) || digits_value(d.take(i + 1)) > max)
}

/// Reading an unsigned decimal number no larger than `max`: an optional `+`,
/// then digits. Reading goes left to right and stops at the first character
/// that is not a digit or that makes the number too large.
pub open spec fn spec_parse_unsigned(s: Seq<char>, max: nat) -> Result<nat, IntErrorKind> {
    let d = unsigned_digits(s);
    if s.len() == 0 {
        Err(IntErrorKind::Empty)
    } else if s.len() == 1 && (s[0] == '+' || s[0] == '-') {
        Err(IntErrorKind::InvalidDigit)
    } else if exists|i: int| fails_at(d, i, max) {
        let i = choose|i: int| fails_at(d, i, max) && forall|j: int| 0 <= j < i ==> !fails_at(d, j, max);
        if !is_digit(d[i]) {
            Err(IntErrorKind::InvalidDigit)
        } else {
            Err(IntErrorKind::PosOverflow)
        }
    } else {
        Ok(digits_value(d))
    }
}

/// Reads an unsigned decimal number no larger than `max`, in the way of the
/// standard library's integer parsing.
pub fn parse_unsigned(s: &str, max: u64) -> (r: Result<u64, IntErrorKind>)
    ensures
        match spec_parse_unsigned(s@, max as nat) {
            Ok(n) => r == Ok::<u64, IntErrorKind>(n as u64),
            Err(k) => r == Err::<u64, IntErrorKind>(k),
        },
        r matches Ok(v) ==> v <= max,
        spec_parse_unsigned(s@, max as nat) matches Ok(n) ==> n <= max,
{
    let t = chars_of(s);
    if t.len() == 0 {
        return Err(IntErrorKind::Empty);
    }
    if t.len() == 1 && (t[0] == '+' || t[0] == '-') {
        return Err(IntErrorKind::InvalidDigit);
    }
    let start: usize = if t[0] == '+' { 1 } else { 0 };
    let ghost d = unsigned_digits(s@);
    assert(d =~= t@.skip(start as int));
    let mut value: u64 = 0;
    let mut i: usize = start;
    while i < t.len()
        invariant
            start <= i <= t.len(),
            t@ == s@,
            t@.len() > 0,
            !(t@.len() == 1 && (t@[0] == '+' || t@[0] == '-')),
            d == unsigned_digits(s@),
            d == t@.skip(start as int),
            value == digits_value(d.take(i - start)),
            value <= max,
            forall|j: int| 0 <= j < i - start ==> !fails_at(d, j, max as nat),
        decreases t.len() - i,
    {
        let c = t[i];
        let ghost k: int = i - start;
        assert(d[k] == c);
        assert(d.take(k + 1).drop_last() =~= d.take(k));
        if !('0' <= c && c <= '9') {
            proof {
                assert(fails_at(d, k, max as nat));
                let w = choose|w: int| fails_at(d, w, max as nat) && forall|j: int| 0 <= j < w ==> !fails_at(d, j, max as nat);
                assert(w == k) by {
                    if w < k {
                    } else if w > k {
                    }
                }
            }
            return Err(IntErrorKind::InvalidDigit);
        }
        let dv: u64 = ((c as u32) - 48) as u64;
        if dv > max || value > (max - dv) / 10 {
            proof {
                assert(digits_value(d.take(k + 1)) == value * 10 + dv);
                assert(value * 10 + dv > max) by (nonlinear_arith)
                    requires
                        dv > max || value > (max - dv) / 10,
                        dv <= 9,
                ;
                assert(fails_at(d, k, max as nat));
                let w = choose|w: int| fails_at(d, w, max as nat) && forall|j: int| 0 <= j < w ==> !fails_at(d, j, max as nat);
                assert(w == k) by {
                    if w < k {
                    } else if w > k {
                    }
                }
            }
            return Err(IntErrorKind::PosOverflow);
        }
        proof {
            assert(value * 10 + dv <= max) by (nonlinear_arith)
                requires
                    value <= (max - dv) / 10,
                    dv <= max,
            ;
        }
        value = value * 10 + dv;
        assert(digits_value(d.take(k + 1)) == value);
        assert(!fails_at(d, k, max as nat));
        i = i + 1;
    }
    assert(d.take(d.len() as int) =~= d);
    assert(!exists|j: int| fails_at(d, j, max as nat));
    Ok(value)
}

/// A setting that could not be read.
pub enum SettingError {
    /// The named variable does not hold valid Unicode.
    NotUnicode { name: String },
    /// The named variable holds text that is not a value of the setting.
    Invalid { name: String, reason: String },
    /// The setting is required and was given neither way.
    Required { message: String },
    /// The value given on the command line is not a value of the setting.
    Rejected { message: String },
}

impl SettingError {
    /// The text that describes the error.
    pub fn message(&self) -> (r: String)
        ensures
            r@ == match *self {
                SettingError::NotUnicode { name } => "$"@ + name@ + " is invalid: environment variable was not valid unicode"@,
                SettingError::Invalid { name, reason } => "parsing $"@ + name@ + ": "@ + reason@,
                SettingError::Required { message } => message@,
                SettingError::Rejected { message } => message@,
            },
    {
        match self {
            SettingError::NotUnicode { name } => {
                let a = crate::strings::concat_str("$", name.as_str());
                crate::strings::concat_str(a.as_str(), " is invalid: environment variable was not valid unicode")
            },
            SettingError::Invalid { name, reason } => {
                let a = crate::strings::concat_str("parsing $", name.as_str());
                let b = crate::strings::concat_str(a.as_str(), ": ");
                crate::strings::concat_str(b.as_str(), reason.as_str())
            },
            SettingError::Required { message } => owned(message.as_str()),
            SettingError::Rejected { message } => owned(message.as_str()),
        }
    }
}

/// The text of an optional setting: the argument when given, else the
/// environment variable `name`.
pub open spec fn spec_text_setting(arg: Option<String>, env: EnvVar) -> Option<Option<Seq<char>>> {
    match arg {
        Some(a) => Some(Some(a@)),
        None => match env {
            EnvVar::Missing => Some(None),
            EnvVar::Text(t) => Some(Some(t@)),
            EnvVar::NotUnicode => None,
        },
    }
}

/// The text of an optional setting: the argument when given, else the value
/// of the environment variable `name`; an error when that variable is not
/// valid Unicode.
pub fn text_setting(arg: &Option<String>, name: &str, env: &EnvVar) -> (r: Result<Option<String>, SettingError>)
    ensures
        match spec_text_setting(*arg, *env) {
            Some(v) => r is Ok && crate::device_database::opt_view(r->Ok_0) == v,
            None => r matches Err(SettingError::NotUnicode { name: n }) && n@ == name@,
        },
{
    match arg {
        Some(a) => Ok(Some(owned(a.as_str()))),
        None => match env {
            EnvVar::Missing => Ok(None),
            EnvVar::Text(t) => Ok(Some(owned(t.as_str()))),
            EnvVar::NotUnicode => Err(SettingError::NotUnicode { name: owned(name) }),
        },
    }
}

/// The decimal digits of a number are digits and read back as the number.
proof fn lemma_decimal_digits(n: nat)
    ensures
        spec_decimal(n).len() > 0,
        forall|i: int| 0 <= i < spec_decimal(n).len() ==> is_digit(#[trigger] spec_decimal(n)[i]),
        digits_value(spec_decimal(n)) == n,
    decreases n,
{
    let d = n % 10;
    assert((digit_char(d) as int) == 48 + d);
    if n >= 10 {
        lemma_decimal_digits(n / 10);
        let s = spec_decimal(n);
        assert(s.drop_last() =~= spec_decimal(n / 10));
        assert(s.last() == digit_char(n % 10));
        assert(forall|i: int| 0 <= i < s.len() - 1 ==> s[i] == spec_decimal(n / 10)[i]);
        assert(n == (n / 10) * 10 + n % 10);
        assert(digits_value(s.drop_last()) == n / 10);
        assert(digits_value(s) == digits_value(s.drop_last()) * 10 + ((s.last() as int - 48) as nat));
    } else {
        let s = spec_decimal(n);
        assert(s.drop_last().len() == 0);
        assert(digits_value(s.drop_last()) == 0);
        assert(d == n);
        assert(s.last() == digit_char(n));
        assert(digits_value(s) == digits_value(s.drop_last()) * 10 + ((s.last() as int - 48) as nat));
    }
}

/// No prefix of a string of digits reads as more than the whole.
proof fn lemma_prefix_value_le(s: Seq<char>, k: int)
    requires
        0 <= k <= s.len(),
        forall|i: int| 0 <= i < s.len() ==> is_digit(#[trigger] s[i]),
    ensures
        digits_value(s.take(k)) <= digits_value(s),
    decreases s.len(),
{
    if k < s.len() {
        let d = s.drop_last();
        assert(s.take(k) =~= d.take(k));
        assert forall|i: int| 0 <= i < d.len() implies is_digit(#[trigger] d[i]) by {
            assert(d[i] == s[i]);
        }
        lemma_prefix_value_le(d, k);
        assert(is_digit(s.last()));
    } else {
        assert(s.take(k) =~= s);
    }
}

/// Reading the decimal form of a number no larger than `max` gives the
/// number back.
pub proof fn lemma_parse_decimal_round_trip(n: nat, max: nat)
    requires
        n <= max,
    ensures
        spec_parse_unsigned(spec_decimal(n), max) == Ok::<nat, IntErrorKind>(n),
{
    let s = spec_decimal(n);
    lemma_decimal_digits(n);
    assert(is_digit(s[0]));
    assert(unsigned_digits(s) == s);
    assert forall|i: int| !fails_at(s, i, max) by {
        if 0 <= i < s.len() {
            lemma_prefix_value_le(s, i + 1);
        }
    }
}

} // verus!
