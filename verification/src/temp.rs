//! The string projection of a value.

use vstd::prelude::*;

use crate::operations::proj;
use crate::vm::JsValue;

verus! {

/// The canonical text of a value, used by string concatenation and by the
/// printer. A number projects to its payload, which already is its shortest
/// round-tripping decimal form.
pub fn js_value_to_string(val: &JsValue) -> (r: String)
    ensures
        r@ == proj(val@),
{
    match val {
        JsValue::JsNull => "null".to_owned(),
        JsValue::JsUndefined => "undefined".to_owned(),
        JsValue::JsNan => "NaN".to_owned(),
        JsValue::JsNumber(s) => s.clone(),
        JsValue::JsString(s) => s.clone(),
        JsValue::JsTrue => "true".to_owned(),
        JsValue::JsFalse => "false".to_owned(),
    }
}

} // verus!
