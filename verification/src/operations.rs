//! The coercion kernel: arithmetic, concatenation, loose and strict equality.
//!
//! Every operation is a pure function of two values and always yields a
//! value, never a fault. The spec functions state the decision procedures;
//! the executable functions are proved to follow them exactly.

use vstd::prelude::*;
use vstd::string::StringExecFns;

use crate::numbers::{
    add_num, div_num, mul_num, num_add, num_div, num_eq, num_mul, num_sub, nums_equal, parse_num,
    parse_number, sub_num,
};
use crate::temp::js_value_to_string;
use crate::types::{flip_js_bool, rust_to_js_boolean, spec_bool_to_js, spec_flip};
use crate::vm::{JsValue, JsValueV};

verus! {

/// The string projection of a value: the text it contributes to a
/// concatenation. A number's payload already is its decimal form.
pub open spec fn proj(v: JsValueV) -> Seq<char> {
    match v {
        JsValueV::JsNull => "null"@,
        JsValueV::JsUndefined => "undefined"@,
        JsValueV::JsNan => "NaN"@,
        JsValueV::JsNumber(s) => s,
        JsValueV::JsString(s) => s,
        JsValueV::JsTrue => "true"@,
        JsValueV::JsFalse => "false"@,
    }
}

/// Addition: two numbers add numerically; any other pair concatenates the
/// string projections, left operand first.
pub open spec fn spec_add(a: JsValueV, b: JsValueV) -> JsValueV {
    match (a, b) {
        (JsValueV::JsNumber(x), JsValueV::JsNumber(y)) => JsValueV::JsNumber(add_num(x, y)),
        _ => JsValueV::JsString(proj(a) + proj(b)),
    }
}

/// The numeric coercion shared by subtraction, multiplication and division:
/// a number passes through, a string operand beside a number is parsed, and
/// every other pairing refuses.
pub open spec fn numeric_operands(a: JsValueV, b: JsValueV) -> Option<(Seq<char>, Seq<char>)> {
    match (a, b) {
        (JsValueV::JsNumber(x), JsValueV::JsNumber(y)) => Some((x, y)),
        (JsValueV::JsString(x), JsValueV::JsNumber(y)) => match parse_num(x) {
            Some(p) => Some((p, y)),
            None => None,
        },
        (JsValueV::JsNumber(x), JsValueV::JsString(y)) => match parse_num(y) {
            Some(p) => Some((x, p)),
            None => None,
        },
        _ => None,
    }
}

/// Subtraction over coerced operands; `NaN` where coercion refuses.
pub open spec fn spec_sub(a: JsValueV, b: JsValueV) -> JsValueV {
    match numeric_operands(a, b) {
        Some(p) => JsValueV::JsNumber(sub_num(p.0, p.1)),
        None => JsValueV::JsNan,
    }
}

/// Multiplication over coerced operands; `NaN` where coercion refuses.
pub open spec fn spec_mlp(a: JsValueV, b: JsValueV) -> JsValueV {
    match numeric_operands(a, b) {
        Some(p) => JsValueV::JsNumber(mul_num(p.0, p.1)),
        None => JsValueV::JsNan,
    }
}

/// Division over coerced operands; `NaN` where coercion refuses. Division by
/// zero itself follows IEEE-754 and still yields a number.
pub open spec fn spec_div(a: JsValueV, b: JsValueV) -> JsValueV {
    match numeric_operands(a, b) {
        Some(p) => JsValueV::JsNumber(div_num(p.0, p.1)),
        None => JsValueV::JsNan,
    }
}

/// Whether `v` is a boolean of the Language.
pub open spec fn is_js_bool(v: JsValueV) -> bool {
    v is JsTrue || v is JsFalse
}

/// Same tag and same payload. For numbers the payload is an IEEE-754 double,
/// so payload equality is IEEE equality.
pub open spec fn same_value(a: JsValueV, b: JsValueV) -> bool {
    match (a, b) {
        (JsValueV::JsNull, JsValueV::JsNull) => true,
        (JsValueV::JsUndefined, JsValueV::JsUndefined) => true,
        (JsValueV::JsNan, JsValueV::JsNan) => true,
        (JsValueV::JsTrue, JsValueV::JsTrue) => true,
        (JsValueV::JsFalse, JsValueV::JsFalse) => true,
        (JsValueV::JsString(x), JsValueV::JsString(y)) => x == y,
        (JsValueV::JsNumber(x), JsValueV::JsNumber(y)) => nums_equal(x, y),
        _ => false,
    }
}

/// The boolean-versus-X rule of loose equality. `bt` tells whether the
/// boolean side is `True`. An empty string equals `False`; a parseable
/// string equals the boolean whose number it is (zero for `False`); any
/// other string equals `True`; a number equals `False` exactly when it is
/// zero; everything else equals `True`.
pub open spec fn spec_eq_with_bool(bt: bool, x: JsValueV) -> bool {
    match x {
        JsValueV::JsString(s) => if s.len() == 0 {
            !bt
        } else {
            match parse_num(s) {
                Some(p) => nums_equal(p, "0"@) == !bt,
                None => bt,
            }
        },
        JsValueV::JsNumber(n) => nums_equal(n, "0"@) == !bt,
        _ => bt,
    }
}

/// The decision procedure of loose equality: same tag and payload; else a
/// single boolean side goes by the boolean rule; else strings compare by
/// code points, numbers by IEEE, and a string beside a number is parsed
/// (unparseable means unequal); everything else is unequal.
pub open spec fn spec_eq_bool(a: JsValueV, b: JsValueV) -> bool {
    if same_value(a, b) {
        true
    } else if is_js_bool(a) && !is_js_bool(b) {
        spec_eq_with_bool(a is JsTrue, b)
    } else if is_js_bool(b) && !is_js_bool(a) {
        spec_eq_with_bool(b is JsTrue, a)
    } else {
        match (a, b) {
            (JsValueV::JsString(x), JsValueV::JsString(y)) => x == y,
            (JsValueV::JsNumber(x), JsValueV::JsNumber(y)) => nums_equal(x, y),
            (JsValueV::JsString(x), JsValueV::JsNumber(y)) => match parse_num(x) {
                Some(p) => nums_equal(p, y),
                None => false,
            },
            (JsValueV::JsNumber(x), JsValueV::JsString(y)) => match parse_num(y) {
                Some(p) => nums_equal(x, p),
                None => false,
            },
            _ => false,
        }
    }
}

/// Loose equality as a value of the Language.
pub open spec fn spec_eq(a: JsValueV, b: JsValueV) -> JsValueV {
    spec_bool_to_js(spec_eq_bool(a, b))
}

/// Strict equality: the same tag, and for numbers and strings the same
/// payload. Two `NaN` tags are strict-unequal.
pub open spec fn spec_strict_eq_bool(a: JsValueV, b: JsValueV) -> bool {
    match (a, b) {
        (JsValueV::JsNull, JsValueV::JsNull) => true,
        (JsValueV::JsUndefined, JsValueV::JsUndefined) => true,
        (JsValueV::JsTrue, JsValueV::JsTrue) => true,
        (JsValueV::JsFalse, JsValueV::JsFalse) => true,
        (JsValueV::JsString(x), JsValueV::JsString(y)) => x == y,
        (JsValueV::JsNumber(x), JsValueV::JsNumber(y)) => nums_equal(x, y),
        _ => false,
    }
}

/// Strict equality as a value of the Language.
pub open spec fn spec_strict_eq(a: JsValueV, b: JsValueV) -> JsValueV {
    spec_bool_to_js(spec_strict_eq_bool(a, b))
}

pub fn add(a: &JsValue, b: &JsValue) -> (r: JsValue)
    ensures
        r@ == spec_add(a@, b@),
{
    match (a, b) {
        (JsValue::JsNumber(x), JsValue::JsNumber(y)) => JsValue::JsNumber(
            num_add(x.as_str(), y.as_str()),
        ),
        _ => {
            let s = js_value_to_string(a);
            let t = js_value_to_string(b);
            JsValue::JsString(s.concat(t.as_str()))
        },
    }
}

pub fn sub(a: &JsValue, b: &JsValue) -> (r: JsValue)
    ensures
        r@ == spec_sub(a@, b@),
{
    match (a, b) {
        (JsValue::JsNumber(x), JsValue::JsNumber(y)) => JsValue::JsNumber(
            num_sub(x.as_str(), y.as_str()),
        ),
        (JsValue::JsString(x), JsValue::JsNumber(y)) => match parse_number(x.as_str()) {
            Some(p) => JsValue::JsNumber(num_sub(p.as_str(), y.as_str())),
            None => JsValue::JsNan,
        },
        (JsValue::JsNumber(x), JsValue::JsString(y)) => match parse_number(y.as_str()) {
            Some(p) => JsValue::JsNumber(num_sub(x.as_str(), p.as_str())),
            None => JsValue::JsNan,
        },
        _ => JsValue::JsNan,
    }
}

pub fn mlp(a: &JsValue, b: &JsValue) -> (r: JsValue)
    ensures
        r@ == spec_mlp(a@, b@),
{
    match (a, b) {
        (JsValue::JsNumber(x), JsValue::JsNumber(y)) => JsValue::JsNumber(
            num_mul(x.as_str(), y.as_str()),
        ),
        (JsValue::JsString(x), JsValue::JsNumber(y)) => match parse_number(x.as_str()) {
            Some(p) => JsValue::JsNumber(num_mul(p.as_str(), y.as_str())),
            None => JsValue::JsNan,
        },
        (JsValue::JsNumber(x), JsValue::JsString(y)) => match parse_number(y.as_str()) {
            Some(p) => JsValue::JsNumber(num_mul(x.as_str(), p.as_str())),
            None => JsValue::JsNan,
        },
        _ => JsValue::JsNan,
    }
}

pub fn div(a: &JsValue, b: &JsValue) -> (r: JsValue)
    ensures
        r@ == spec_div(a@, b@),
{
    match (a, b) {
        (JsValue::JsNumber(x), JsValue::JsNumber(y)) => JsValue::JsNumber(
            num_div(x.as_str(), y.as_str()),
        ),
        (JsValue::JsString(x), JsValue::JsNumber(y)) => match parse_number(x.as_str()) {
            Some(p) => JsValue::JsNumber(num_div(p.as_str(), y.as_str())),
            None => JsValue::JsNan,
        },
        (JsValue::JsNumber(x), JsValue::JsString(y)) => match parse_number(y.as_str()) {
            Some(p) => JsValue::JsNumber(num_div(x.as_str(), p.as_str())),
            None => JsValue::JsNan,
        },
        _ => JsValue::JsNan,
    }
}

/// The boolean-versus-X rule, executable side.
fn handle_eq_with_bool(bool_is_true: bool, compared: &JsValue) -> (r: bool)
    ensures
        r == spec_eq_with_bool(bool_is_true, compared@),
{
    match compared {
        JsValue::JsString(s) => {
            if s.as_str().is_empty() {
                !bool_is_true
            } else {
                match parse_number(s.as_str()) {
                    Some(p) => {
                        let z = num_eq(p.as_str(), "0");
                        z == !bool_is_true
                    },
                    None => bool_is_true,
                }
            }
        },
        JsValue::JsNumber(n) => {
            let z = num_eq(n.as_str(), "0");
            z == !bool_is_true
        },
        _ => bool_is_true,
    }
}

/// Loose equality as a plain boolean.
fn eq_bool(a: &JsValue, b: &JsValue) -> (r: bool)
    ensures
        r == spec_eq_bool(a@, b@),
{
    match (a, b) {
        (JsValue::JsNull, JsValue::JsNull) => true,
        (JsValue::JsUndefined, JsValue::JsUndefined) => true,
        (JsValue::JsNan, JsValue::JsNan) => true,
        (JsValue::JsTrue, JsValue::JsTrue) => true,
        (JsValue::JsFalse, JsValue::JsFalse) => true,
        (JsValue::JsTrue, JsValue::JsFalse) => false,
        (JsValue::JsFalse, JsValue::JsTrue) => false,
        (JsValue::JsTrue, other) => handle_eq_with_bool(true, other),
        (JsValue::JsFalse, other) => handle_eq_with_bool(false, other),
        (other, JsValue::JsTrue) => handle_eq_with_bool(true, other),
        (other, JsValue::JsFalse) => handle_eq_with_bool(false, other),
        (JsValue::JsString(x), JsValue::JsString(y)) => *x == *y,
        (JsValue::JsNumber(x), JsValue::JsNumber(y)) => num_eq(x.as_str(), y.as_str()),
        (JsValue::JsString(x), JsValue::JsNumber(y)) => match parse_number(x.as_str()) {
            Some(p) => num_eq(p.as_str(), y.as_str()),
            None => false,
        },
        (JsValue::JsNumber(x), JsValue::JsString(y)) => match parse_number(y.as_str()) {
            Some(p) => num_eq(x.as_str(), p.as_str()),
            None => false,
        },
        _ => false,
    }
}

pub fn eq(a: &JsValue, b: &JsValue) -> (r: JsValue)
    ensures
        r@ == spec_eq(a@, b@),
{
    let e = eq_bool(a, b);
    rust_to_js_boolean(e)
}

pub fn neq(a: &JsValue, b: &JsValue) -> (r: JsValue)
    ensures
        r@ == spec_flip(spec_eq(a@, b@)),
{
    flip_js_bool(eq(a, b))
}

pub fn strict_eq(a: &JsValue, b: &JsValue) -> (r: JsValue)
    ensures
        r@ == spec_strict_eq(a@, b@),
{
    match (a, b) {
        (JsValue::JsNull, JsValue::JsNull) => JsValue::JsTrue,
        (JsValue::JsUndefined, JsValue::JsUndefined) => JsValue::JsTrue,
        (JsValue::JsTrue, JsValue::JsTrue) => JsValue::JsTrue,
        (JsValue::JsFalse, JsValue::JsFalse) => JsValue::JsTrue,
        (JsValue::JsString(x), JsValue::JsString(y)) => rust_to_js_boolean(*x == *y),
        (JsValue::JsNumber(x), JsValue::JsNumber(y)) => rust_to_js_boolean(
            num_eq(x.as_str(), y.as_str()),
        ),
        _ => JsValue::JsFalse,
    }
}

pub fn strict_neq(a: &JsValue, b: &JsValue) -> (r: JsValue)
    ensures
        r@ == spec_flip(spec_strict_eq(a@, b@)),
{
    flip_js_bool(strict_eq(a, b))
}

} // verus!
