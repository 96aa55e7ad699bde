//! The parts of an update expression: a magnitude, a percent marker and a
//! trailing sign.

use crate::enums::ParseError;
use vstd::prelude::*;

verus! {

/// Whether the magnitude is raw (`ABSOLUTE`) or a percent of the maximum (`RELATIVE`).
#[derive(Debug, Clone, Copy, PartialEq, Eq, Structural)]
pub enum ValueType {
    ABSOLUTE,
    RELATIVE,
}

/// Whether the magnitude is a target (`DIRECT`) or an offset (`DELTA`).
#[derive(Debug, Clone, Copy, PartialEq, Eq, Structural)]
pub enum DeltaType {
    DIRECT,
    DELTA,
}

/// Direction of an offset; `PLUS` where there is none.
#[derive(Debug, Clone, Copy, PartialEq, Eq, Structural)]
pub enum Sign {
    PLUS,
    MINUS,
}

/// An update expression taken apart.
#[derive(Debug, Clone, Copy, PartialEq, Eq, Structural)]
pub struct Value {
    pub val: u64,
    pub v_type: ValueType,
    pub d_type: DeltaType,
    pub sign: Sign,
}

pub open spec fn is_digit(c: char) -> bool {
    '0' <= c && c <= '9'
}

pub open spec fn digit_value(c: char) -> int {
    c as int - '0' as int
}

/// The number that a run of decimal digits writes.
pub open spec fn digits_value(d: Seq<char>) -> int
    decreases d.len(),
{
    if d.len() == 0 {
        0
    } else {
        digits_value(d.drop_last()) * 10 + digit_value(d.last())
    }
}

/// The trailing sign of an expression, if it ends in one.
pub open spec fn sign_marker(s: Seq<char>) -> Option<Sign> {
    if s.len() > 0 && s.last() == '+' {
        Some(Sign::PLUS)
    } else if s.len() > 0 && s.last() == '-' {
        Some(Sign::MINUS)
    } else {
        None
    }
}

/// The expression without its trailing sign.
pub open spec fn unsigned_part(s: Seq<char>) -> Seq<char> {
    if sign_marker(s) is Some {
        s.drop_last()
    } else {
        s
    }
}

/// Whether a `%` stands right before the trailing sign, or at the end.
pub open spec fn has_percent(s: Seq<char>) -> bool {
    unsigned_part(s).len() > 0 && unsigned_part(s).last() == '%'
}

/// What stands before the percent marker and the sign.
pub open spec fn digit_part(s: Seq<char>) -> Seq<char> {
    if has_percent(s) {
        unsigned_part(s).drop_last()
    } else {
        unsigned_part(s)
    }
}

/// The grammar: one or more digits, an optional `%`, an optional final `+` or `-`.
pub open spec fn is_update_text(s: Seq<char>) -> bool {
    &&& digit_part(s).len() > 0
    &&& forall|i: int| 0 <= i < digit_part(s).len() ==> is_digit(#[trigger] digit_part(s)[i])
}

/// The magnitude that an expression writes.
pub open spec fn text_magnitude(s: Seq<char>) -> int {
    digits_value(digit_part(s))
}

/// The parts of an expression that is in the grammar.
pub open spec fn value_of_text(s: Seq<char>) -> Value {
    Value {
        val: text_magnitude(s) as u64,
        v_type: if has_percent(s) {
            ValueType::RELATIVE
        } else {
            ValueType::ABSOLUTE
        },
        d_type: if sign_marker(s) is Some {
            DeltaType::DELTA
        } else {
            DeltaType::DIRECT
        },
        sign: match sign_marker(s) {
            Some(x) => x,
            None => Sign::PLUS,
        },
    }
}

proof fn lemma_digits_value_prefix(d: Seq<char>, k: int)
    requires
        0 <= k <= d.len(),
        forall|i: int| 0 <= i < d.len() ==> is_digit(#[trigger] d[i]),
    ensures
        0 <= digits_value(d.take(k)) <= digits_value(d),
    decreases d.len(),
{
    if d.len() > 0 {
        let p = d.drop_last();
        lemma_digits_value_prefix(p, p.len() as int);
        assert(p.take(p.len() as int) =~= p);
        if k == d.len() {
            assert(d.take(k) =~= d);
        } else {
            lemma_digits_value_prefix(p, k);
            assert(p.take(k) =~= d.take(k));
        }
    } else {
        assert(d.take(k) =~= d);
    }
}

/// Takes an update expression apart. Fails where the text is not in the
/// grammar or its magnitude does not fit in a `u64`.
pub fn parse_value(data: &str) -> (r: Result<Value, ParseError>)
    ensures
        r is Ok <==> is_update_text(data@) && text_magnitude(data@) <= u64::MAX,
        r matches Ok(v) ==> v == value_of_text(data@) && v.val == text_magnitude(data@),
        r matches Err(ParseError::InvalidFormat(t)) ==> t@ == data@,
{
    let n = data.unicode_len();
    let ghost s = data@;
    let mut end: usize = n;
    let mut sign = Sign::PLUS;
    let mut d_type = DeltaType::DIRECT;
    if end > 0 {
        let c = data.get_char(end - 1);
        if c == '+' {
            d_type = DeltaType::DELTA;
            end = end - 1;
        } else if c == '-' {
            d_type = DeltaType::DELTA;
            sign = Sign::MINUS;
            end = end - 1;
        }
    }
    assert(unsigned_part(s) =~= s.take(end as int));
    let mut v_type = ValueType::ABSOLUTE;
    if end > 0 {
        let c = data.get_char(end - 1);
        if c == '%' {
            v_type = ValueType::RELATIVE;
            end = end - 1;
        }
    }
    assert(digit_part(s) =~= s.take(end as int));
    if end == 0 {
        return Err(ParseError::InvalidFormat(data.to_string()));
    }
    let mut val: u64 = 0;
    let mut i: usize = 0;
    while i < end
        invariant
            0 <= i <= end <= n,
            n == s.len(),
            s == data@,
            digit_part(s) =~= s.take(end as int),
            forall|j: int| 0 <= j < i ==> is_digit(#[trigger] s[j]),
            val == digits_value(s.take(i as int)),
        decreases end - i,
    {
        let c = data.get_char(i);
        if !('0' <= c && c <= '9') {
            assert(digit_part(s)[i as int] == c);
            return Err(ParseError::InvalidFormat(data.to_string()));
        }
        let digit: u64 = (c as u32 - '0' as u32) as u64;
        assert(s.take(i + 1).drop_last() =~= s.take(i as int));
        let next = match val.checked_mul(10) {
            Some(t) => t.checked_add(digit),
            None => None,
        };
        match next {
            Some(v) => {
                val = v;
            },
            None => {
                proof {
                    if is_update_text(s) {
                        let d = digit_part(s);
                        lemma_digits_value_prefix(d, i + 1);
                        assert(d.take(i + 1) =~= s.take(i + 1));
                    }
                }
                return Err(ParseError::InvalidFormat(data.to_string()));
            },
        }
        i = i + 1;
    }
    assert(s.take(end as int) =~= digit_part(s));
    Ok(Value { val, v_type, d_type, sign })
}

} // verus!
