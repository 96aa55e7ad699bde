//! The four ways of stating a new brightness, and the text that encodes them.

use crate::structs::{
    digit_value, digits_value, has_percent, is_digit, is_update_text, parse_value, sign_marker, text_magnitude,
    unsigned_part, digit_part, DeltaType, Sign, Value, ValueType,
};
use vstd::prelude::*;

verus! {

/// How a new brightness is stated.
#[derive(Debug, Clone, Copy, PartialEq, Eq, Structural)]
pub enum ValueUpdate {
    /// Add a signed raw offset to the seed value.
    Delta(i64),
    /// Set the raw value.
    Direct(i64),
    /// Add a signed percent offset to the seed's percent of the maximum.
    Relative(i64),
    /// Set the value that a percent of the maximum stands for.
    Absolute(i64),
}

/// An update expression that could not be read; it holds the text.
#[derive(Debug)]
pub enum ParseError {
    InvalidFormat(String),
}

/// The signed number that an expression writes: its magnitude, negated
/// where it ends in `-`.
pub open spec fn signed_magnitude(s: Seq<char>) -> int {
    if sign_marker(s) == Some(Sign::MINUS) {
        -text_magnitude(s)
    } else {
        text_magnitude(s)
    }
}

/// The update that a text stands for, or `None` where it is not in the
/// grammar or its number does not fit in an `i64`.
pub open spec fn update_of_text(s: Seq<char>) -> Option<ValueUpdate> {
    if is_update_text(s) && i64::MIN <= signed_magnitude(s) <= i64::MAX {
        let x = signed_magnitude(s) as i64;
        Some(
            if has_percent(s) {
                if sign_marker(s) is Some {
                    ValueUpdate::Relative(x)
                } else {
                    ValueUpdate::Absolute(x)
                }
            } else {
                if sign_marker(s) is Some {
                    ValueUpdate::Delta(x)
                } else {
                    ValueUpdate::Direct(x)
                }
            },
        )
    } else {
        None
    }
}

impl ValueUpdate {
    /// Reads an update expression: digits, then an optional `%` (a percent of
    /// the maximum), then an optional final `+` or `-` (an offset).
    pub fn parse(data: &str) -> (r: Result<ValueUpdate, ParseError>)
        ensures
            r is Ok <==> update_of_text(data@) is Some,
            r matches Ok(u) ==> update_of_text(data@) == Some(u),
            r matches Err(ParseError::InvalidFormat(t)) ==> t@ == data@,
    {
        let v = match parse_value(data) {
            Ok(v) => v,
            Err(e) => return Err(e),
        };
        let x: i64 = match v.sign {
            Sign::PLUS => {
                if v.val > i64::MAX as u64 {
                    return Err(ParseError::InvalidFormat(data.to_string()));
                }
                v.val as i64
            },
            Sign::MINUS => {
                if v.val > i64::MAX as u64 + 1 {
                    return Err(ParseError::InvalidFormat(data.to_string()));
                } else if v.val == i64::MAX as u64 + 1 {
                    i64::MIN
                } else {
                    -(v.val as i64)
                }
            },
        };
        match (v.v_type, v.d_type) {
            (ValueType::ABSOLUTE, DeltaType::DIRECT) => Ok(ValueUpdate::Direct(x)),
            (ValueType::ABSOLUTE, DeltaType::DELTA) => Ok(ValueUpdate::Delta(x)),
            (ValueType::RELATIVE, DeltaType::DIRECT) => Ok(ValueUpdate::Absolute(x)),
            (ValueType::RELATIVE, DeltaType::DELTA) => Ok(ValueUpdate::Relative(x)),
        }
    }
}

/// The character of a decimal digit `0 <= d < 10`.
pub open spec fn digit_char(d: int) -> char {
    seq!['0', '1', '2', '3', '4', '5', '6', '7', '8', '9'][d]
}

/// The decimal digits of `n`, without leading zeros.
pub open spec fn decimal(n: nat) -> Seq<char>
    decreases n,
{
    if n < 10 {
        seq![digit_char(n as int)]
    } else {
        decimal(n / 10).push(digit_char((n % 10) as int))
    }
}

/// The absolute value of `x`.
pub open spec fn magnitude_of(x: i64) -> nat {
    if x < 0 {
        (-x) as nat
    } else {
        x as nat
    }
}

/// The trailing sign that writes the direction of the offset `x`.
pub open spec fn sign_char(x: i64) -> char {
    if x < 0 {
        '-'
    } else {
        '+'
    }
}

/// An update written out in the grammar.
pub open spec fn update_text(u: ValueUpdate) -> Seq<char> {
    match u {
        ValueUpdate::Direct(x) => decimal(magnitude_of(x)),
        ValueUpdate::Delta(x) => decimal(magnitude_of(x)).push(sign_char(x)),
        ValueUpdate::Absolute(x) => decimal(magnitude_of(x)).push('%'),
        ValueUpdate::Relative(x) => decimal(magnitude_of(x)).push('%').push(sign_char(x)),
    }
}

proof fn lemma_digit_char(d: int)
    requires
        0 <= d < 10,
    ensures
        is_digit(digit_char(d)),
        digit_value(digit_char(d)) == d,
{
    let cs = seq!['0', '1', '2', '3', '4', '5', '6', '7', '8', '9'];
    assert(cs[d] == digit_char(d));
    if d == 0 {
    } else if d == 1 {
    } else if d == 2 {
    } else if d == 3 {
    } else if d == 4 {
    } else if d == 5 {
    } else if d == 6 {
    } else if d == 7 {
    } else if d == 8 {
    } else {
    }
}

proof fn lemma_decimal(n: nat)
    ensures
        decimal(n).len() > 0,
        forall|i: int| 0 <= i < decimal(n).len() ==> is_digit(#[trigger] decimal(n)[i]),
        digits_value(decimal(n)) == n,
    decreases n,
{
    if n < 10 {
        lemma_digit_char(n as int);
        let d = decimal(n);
        assert(d.drop_last() =~= Seq::<char>::empty());
        assert(digits_value(d.drop_last()) == 0);
        assert(digits_value(d) == digits_value(d.drop_last()) * 10 + digit_value(d.last()));
    } else {
        lemma_digit_char((n % 10) as int);
        lemma_decimal(n / 10);
        let d = decimal(n);
        assert(d.drop_last() =~= decimal(n / 10));
        assert(d.last() == digit_char((n % 10) as int));
        assert(digits_value(d) == digits_value(d.drop_last()) * 10 + digit_value(d.last()));
        assert(n == (n / 10) * 10 + n % 10);
        assert forall|i: int| 0 <= i < d.len() implies is_digit(#[trigger] d[i]) by {
            if i < d.len() - 1 {
                assert(d[i] == decimal(n / 10)[i]);
            }
        }
    }
}

/// Writing an update out in the grammar and reading it back gives the same
/// update; a direct or absolute update is written with a non-negative value,
/// as the grammar has no sign for a target.
pub proof fn lemma_parse_update_text(u: ValueUpdate)
    requires
        u matches ValueUpdate::Direct(x) ==> x >= 0,
        u matches ValueUpdate::Absolute(x) ==> x >= 0,
    ensures
        is_update_text(update_text(u)),
        update_of_text(update_text(u)) == Some(u),
{
    let t = update_text(u);
    match u {
        ValueUpdate::Direct(x) => {
            let d = decimal(magnitude_of(x));
            lemma_decimal(magnitude_of(x));
            assert(is_digit(d.last()));
            assert(sign_marker(t) is None);
            assert(!has_percent(t));
            assert(digit_part(t) =~= d);
        },
        ValueUpdate::Delta(x) => {
            let d = decimal(magnitude_of(x));
            lemma_decimal(magnitude_of(x));
            assert(is_digit(d.last()));
            assert(unsigned_part(t) =~= d);
            assert(!has_percent(t));
            assert(digit_part(t) =~= d);
        },
        ValueUpdate::Absolute(x) => {
            let d = decimal(magnitude_of(x));
            lemma_decimal(magnitude_of(x));
            assert(sign_marker(t) is None);
            assert(unsigned_part(t) =~= d.push('%'));
            assert(has_percent(t));
            assert(digit_part(t) =~= d);
        },
        ValueUpdate::Relative(x) => {
            let d = decimal(magnitude_of(x));
            lemma_decimal(magnitude_of(x));
            assert(unsigned_part(t) =~= d.push('%'));
            assert(has_percent(t));
            assert(digit_part(t) =~= d);
        },
    }
}

impl std::str::FromStr for ValueUpdate {
    type Err = ParseError;

    fn from_str(data: &str) -> (r: Result<ValueUpdate, ParseError>)
        ensures
            r is Ok <==> update_of_text(data@) is Some,
            r matches Ok(u) ==> update_of_text(data@) == Some(u),
            r matches Err(ParseError::InvalidFormat(t)) ==> t@ == data@,
    {
        ValueUpdate::parse(data)
    }
}

} // verus!
