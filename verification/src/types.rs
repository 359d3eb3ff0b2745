//! Object stubs and small value conversions.

use vstd::prelude::*;

use crate::numbers::{parse_num, parse_number};
use crate::vm::{JsValue, JsValueV};

verus! {

/// The kind of an object. Objects are a structural provision only: no
/// instruction of the machine addresses them yet.
#[derive(Clone)]
pub enum JsObjectType {
    JsObject,
}

/// The prototype link of an object: either the end of the chain or a
/// borrowed parent object.
#[derive(Clone)]
pub enum Prototype<'a> {
    End,
    Object(&'a JsObject<'a>),
}

/// An object: a kind, a prototype to delegate to, and its own properties.
/// Reserved for a later growth of the Language; nothing executes against it.
#[derive(Clone)]
pub struct JsObject<'a> {
    t: JsObjectType,
    prototype: Prototype<'a>,
    properties: Vec<(String, JsValue)>,
}

impl<'a> JsObject<'a> {
    pub fn new(t: JsObjectType, prototype: &'a JsObject<'a>) -> Self {
        JsObject { t: t, prototype: Prototype::Object(prototype), properties: Vec::new() }
    }
}

/// The boolean value of the Language that stands for `b`.
pub open spec fn spec_bool_to_js(b: bool) -> JsValueV {
    if b {
        JsValueV::JsTrue
    } else {
        JsValueV::JsFalse
    }
}

/// The flipped boolean: everything but `True` flips to `True`.
pub open spec fn spec_flip(v: JsValueV) -> JsValueV {
    if v is JsTrue {
        JsValueV::JsFalse
    } else {
        JsValueV::JsTrue
    }
}

/// The numeric reading of a value: a string that parses as a number becomes
/// that number; every other value is left as it is.
pub open spec fn spec_to_number(v: JsValueV) -> JsValueV {
    match v {
        JsValueV::JsString(s) => match parse_num(s) {
            Some(p) => JsValueV::JsNumber(p),
            None => JsValueV::JsString(s),
        },
        _ => v,
    }
}

pub fn rust_to_js_boolean(b: bool) -> (r: JsValue)
    ensures
        r@ == spec_bool_to_js(b),
{
    if b {
        JsValue::JsTrue
    } else {
        JsValue::JsFalse
    }
}

pub fn try_js_value_to_js_number(v: &JsValue) -> (r: JsValue)
    ensures
        r@ == spec_to_number(v@),
{
    match v {
        JsValue::JsString(s) => match parse_number(s.as_str()) {
            Some(p) => JsValue::JsNumber(p),
            None => JsValue::JsString(s.clone()),
        },
        _ => v.clone(),
    }
}

pub fn flip_js_bool(b: JsValue) -> (r: JsValue)
    ensures
        r@ == spec_flip(b@),
{
    match b {
        JsValue::JsTrue => JsValue::JsFalse,
        _ => JsValue::JsTrue,
    }
}

} // verus!
