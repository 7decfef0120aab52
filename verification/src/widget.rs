//! The widget dispatcher: which edit affordance each value variant gets,
//! and the parse-back rules that turn submitted text into a same-typed
//! value, falling back to the prior value when the text does not parse.

use crate::model::{Value, ValueView};
use vstd::prelude::*;
use vstd::string::StrSliceExecFns;
use vstd::string::StringExecFns;

verus! {

/// The edit affordance a variant is given.
#[derive(PartialEq, Eq, Structural, Debug)]
pub enum Affordance {
    /// A toggle that negates the value.
    Toggle,
    /// A text field whose submission is parsed back.
    TextField,
    /// A read-only display; no edit is ever produced.
    ReadOnly,
}

/// The affordance for each variant: booleans toggle; integers, doubles,
/// strings and markup take text; everything else is read-only.
pub open spec fn affordance_of_view(v: ValueView) -> Affordance {
    match v {
        ValueView::Bool(_) => Affordance::Toggle,
        ValueView::Integer(_) => Affordance::TextField,
        ValueView::Number(_) => Affordance::TextField,
        ValueView::Str(_) => Affordance::TextField,
        ValueView::Xml(_, _) => Affordance::TextField,
        _ => Affordance::ReadOnly,
    }
}

/// Maps a value to its edit affordance.
pub fn affordance_of(v: &Value) -> (a: Affordance)
    ensures
        a == affordance_of_view(v@),
{
    match v {
        Value::Bool(_) => Affordance::Toggle,
        Value::Integer(_) => Affordance::TextField,
        Value::Number(_) => Affordance::TextField,
        Value::Str(_) => Affordance::TextField,
        Value::Xml(_, _) => Affordance::TextField,
        _ => Affordance::ReadOnly,
    }
}

/// A decimal digit.
pub open spec fn is_dec_digit(c: char) -> bool {
    48 <= c as u32 <= 57
}

/// The numeric value of one decimal digit.
pub open spec fn digit_val(c: char) -> int {
    c as u32 - 48
}

/// The integer a digit string denotes, most significant digit first.
pub open spec fn digits_value(s: Seq<char>) -> int
    decreases s.len(),
{
    if s.len() == 0 {
        0
    } else {
        digits_value(s.drop_last()) * 10 + digit_val(s.last())
    }
}

/// Every character is a decimal digit.
pub open spec fn all_digits(s: Seq<char>) -> bool {
    forall|i: int| 0 <= i < s.len() ==> is_dec_digit(s[i])
}

/// What parsing text as a 32-bit signed integer yields: an optional
/// leading sign, then one or more digits, and the result must fit.
pub open spec fn parse_i32_spec(s: Seq<char>) -> Option<i32> {
    let signed = s.len() > 0 && (s[0] == '-' || s[0] == '+');
    let ds = if signed {
        s.subrange(1, s.len() as int)
    } else {
        s
    };
    let neg = s.len() > 0 && s[0] == '-';
    if ds.len() == 0 || !all_digits(ds) {
        None
    } else {
        let m = digits_value(ds);
        let v = if neg {
            -m
        } else {
            m
        };
        if i32::MIN <= v <= i32::MAX {
            Some(v as i32)
        } else {
            None
        }
    }
}

/// A digit string denotes a value that is never negative.
proof fn lemma_digits_value_nonneg(s: Seq<char>)
    requires
        all_digits(s),
    ensures
        digits_value(s) >= 0,
    decreases s.len(),
{
    if s.len() > 0 {
        assert(all_digits(s.drop_last()));
        lemma_digits_value_nonneg(s.drop_last());
    }
}

/// A digit string denotes at least what any of its prefixes denotes.
proof fn lemma_digits_value_prefix(s: Seq<char>, j: int)
    requires
        all_digits(s),
        0 <= j <= s.len(),
    ensures
        digits_value(s.subrange(0, j)) <= digits_value(s),
    decreases s.len() - j,
{
    if j == s.len() {
        assert(s.subrange(0, j) =~= s);
    } else {
        let t = s.subrange(0, j + 1);
        assert(t.drop_last() =~= s.subrange(0, j));
        assert(all_digits(s.subrange(0, j)));
        lemma_digits_value_nonneg(s.subrange(0, j));
        assert(all_digits(t));
        assert(digits_value(t) == digits_value(s.subrange(0, j)) * 10 + digit_val(s[j]));
        lemma_digits_value_prefix(s, j + 1);
    }
}

/// Parses text as a 32-bit signed integer, exactly as `parse_i32_spec`
/// describes.
pub fn parse_i32(s: &str) -> (r: Option<i32>)
    ensures
        r == parse_i32_spec(s@),
{
    let n = s.unicode_len();
    if n == 0 {
        return None;
    }
    let first = s.get_char(0);
    let neg = first == '-';
    let signed = first == '-' || first == '+';
    let start: usize = if signed {
        1
    } else {
        0
    };
    let ghost ds = if signed {
        s@.subrange(1, s@.len() as int)
    } else {
        s@
    };
    if n == start {
        return None;
    }
    let mut acc: i64 = 0;
    let mut i: usize = start;
    while i < n
        invariant
            start <= i <= n,
            n == s@.len(),
            n > 0,
            signed == (s@[0] == '-' || s@[0] == '+'),
            neg == (s@[0] == '-'),
            start == if signed {
                1int
            } else {
                0int
            },
            ds == if signed {
                s@.subrange(1, s@.len() as int)
            } else {
                s@
            },
            ds.len() == n - start,
            forall|j: int| 0 <= j < ds.len() ==> ds[j] == s@[j + start],
            all_digits(ds.subrange(0, i - start)),
            acc == digits_value(ds.subrange(0, i - start)),
            0 <= acc <= 2147483648,
        decreases n - i,
    {
        let c = s.get_char(i);
        let cv = c as u32;
        if cv < 48 || cv > 57 {
            proof {
                assert(ds[i - start] == s@[i as int]);
                assert(!all_digits(ds));
            }
            return None;
        }
        let d = (cv - 48) as i64;
        acc = acc * 10 + d;
        i += 1;
        proof {
            let t = ds.subrange(0, i - start);
            assert(t.drop_last() =~= ds.subrange(0, i - 1 - start));
            assert(t.last() == ds[i - 1 - start]);
            assert(ds[i - 1 - start] == s@[i - 1]);
            assert forall|j: int| 0 <= j < t.len() implies is_dec_digit(t[j]) by {
                if j < t.len() - 1 {
                    assert(t[j] == ds.subrange(0, i - 1 - start)[j]);
                }
            }
            assert(acc == digits_value(t));
        }
        if acc > 2147483648 {
            proof {
                if all_digits(ds) {
                    lemma_digits_value_prefix(ds, i - start);
                }
            }
            return None;
        }
    }
    proof {
        assert(ds.subrange(0, i - start) =~= ds);
    }
    if neg {
        let v = -acc;
        Some(v as i32)
    } else {
        if acc > 2147483647 {
            None
        } else {
            Some(acc as i32)
        }
    }
}

/// Toggle edit for a boolean: always succeeds and negates the prior value.
pub fn edit_boolean(prior: bool) -> (r: Value)
    ensures
        r@ == ValueView::Bool(!prior),
{
    Value::Bool(!prior)
}

/// Text edit for an integer: the text is parsed as a 32-bit signed
/// integer; an unparseable edit keeps the prior value, with no error.
pub fn edit_integer(prior: i32, text: &str) -> (r: Value)
    ensures
        r@ == (match parse_i32_spec(text@) {
            Some(m) => ValueView::Integer(m),
            None => ValueView::Integer(prior),
        }),
{
    match parse_i32(text) {
        Some(m) => Value::Integer(m),
        None => Value::Integer(prior),
    }
}

/// Text edit for a double, handed the already parsed bit pattern from the
/// numeric boundary: an unparseable edit (no bits) keeps the prior value.
pub fn edit_number(prior_bits: u64, parsed_bits: Option<u64>) -> (r: Value)
    ensures
        r@ == (match parsed_bits {
            Some(b) => ValueView::Number(b),
            None => ValueView::Number(prior_bits),
        }),
{
    match parsed_bits {
        Some(b) => Value::Number(b),
        None => Value::Number(prior_bits),
    }
}

/// Text edit for a string: taken verbatim, always succeeds.
pub fn edit_string(text: String) -> (r: Value)
    ensures
        r@ == ValueView::Str(text@),
{
    Value::Str(text)
}

/// Text edit for markup: the content is taken verbatim and the encoding
/// flag of the prior value is preserved.
pub fn edit_xml(text: String, is_string: bool) -> (r: Value)
    ensures
        r@ == ValueView::Xml(text@, is_string),
{
    Value::Xml(text, is_string)
}

/// The display name of a variant.
pub open spec fn variant_label_view(v: ValueView) -> Seq<char> {
    match v {
        ValueView::Null => "Null"@,
        ValueView::Undefined => "Undefined"@,
        ValueView::Bool(_) => "Boolean"@,
        ValueView::Integer(_) => "Integer"@,
        ValueView::Number(_) => "Number"@,
        ValueView::Str(_) => "String"@,
        ValueView::ByteArray(_) => "ByteArray"@,
        ValueView::Date(_, _) => "Date"@,
        ValueView::Xml(_, _) => "XML"@,
        ValueView::Object(_, _) => "Object"@,
        ValueView::StrictArray(_) => "StrictArray"@,
        ValueView::EcmaArray(_, _, _) => "ECMAArray"@,
        ValueView::VectorInt(_, _) => "Vector<Int>"@,
        ValueView::VectorUInt(_, _) => "Vector<UInt>"@,
        ValueView::VectorDouble(_, _) => "Vector<Double>"@,
        ValueView::VectorObject(_, _, _) => "Vector<Object>"@,
        ValueView::Dictionary(_, _) => "Dictionary"@,
        ValueView::Custom(_, _, cd) => match cd {
            Some(d) => "Custom<"@ + d.name + ">"@,
            None => "Custom<Unknown>"@,
        },
        ValueView::Unsupported => "Unsupported"@,
    }
}

/// The display name of a value's variant.
pub fn variant_label(v: &Value) -> (r: String)
    ensures
        r@ == variant_label_view(v@),
{
    match v {
        Value::Null => "Null".to_owned(),
        Value::Undefined => "Undefined".to_owned(),
        Value::Bool(_) => "Boolean".to_owned(),
        Value::Integer(_) => "Integer".to_owned(),
        Value::Number(_) => "Number".to_owned(),
        Value::Str(_) => "String".to_owned(),
        Value::ByteArray(_) => "ByteArray".to_owned(),
        Value::Date(_, _) => "Date".to_owned(),
        Value::Xml(_, _) => "XML".to_owned(),
        Value::Object(_, _) => "Object".to_owned(),
        Value::StrictArray(_) => "StrictArray".to_owned(),
        Value::EcmaArray(_, _, _) => "ECMAArray".to_owned(),
        Value::VectorInt(_, _) => "Vector<Int>".to_owned(),
        Value::VectorUInt(_, _) => "Vector<UInt>".to_owned(),
        Value::VectorDouble(_, _) => "Vector<Double>".to_owned(),
        Value::VectorObject(_, _, _) => "Vector<Object>".to_owned(),
        Value::Dictionary(_, _) => "Dictionary".to_owned(),
        Value::Custom(_, _, cd) => match cd {
            Some(d) => "Custom<".to_owned().concat(d.name.as_str()).concat(">"),
            None => "Custom<Unknown>".to_owned(),
        },
        Value::Unsupported => "Unsupported".to_owned(),
    }
}

} // verus!
