//! Colouring of a result value for an interactive caller.
//!
//! Each value tag gets a 24-bit terminal colour; the text is the value's
//! projection, with strings shown quoted. The escape-sequence wrapping is
//! stated exactly, so the contract pins the whole output down.

use vstd::prelude::*;
use vstd::string::StringExecFns;

use crate::vm::{JsValue, JsValueV};

verus! {

/// The digit character of `d` (meaningful for `d < 10`).
pub open spec fn digit_char(d: u8) -> char {
    ((('0' as u8) + d) as char)
}

/// The decimal text of `n`, most significant digit first, no leading zeros.
pub open spec fn dec_u8(n: u8) -> Seq<char>
    decreases n,
{
    if n < 10 {
        seq![digit_char(n)]
    } else {
        dec_u8(n / 10).push(digit_char(n % 10))
    }
}

/// `text` wrapped in the 24-bit foreground escape for the colour
/// `(r, g, b)` and the reset escape.
pub open spec fn ansi_fg_rgb(r: u8, g: u8, b: u8, text: Seq<char>) -> Seq<char> {
    "\u{1b}[38;2;"@ + dec_u8(r) + ";"@ + dec_u8(g) + ";"@ + dec_u8(b) + "m"@ + text + "\u{1b}[0m"@
}

/// Relies on ansi_term's `Colour::RGB(r, g, b).paint(text)`: displayed, it
/// writes `ESC [38;2;r;g;b m`, the text, and the reset `ESC [0m`.
#[verifier::external_body]
fn paint_rgb(r: u8, g: u8, b: u8, text: &str) -> (out: String)
    ensures
        out@ == ansi_fg_rgb(r, g, b, text@),
{
    format!("{}", ansi_term::Colour::RGB(r, g, b).paint(text))
}

/// The coloured text of a value: grey for the absent values, orange for
/// numbers and booleans and the `NaN` tag, green for a string, which is
/// shown in double quotes.
pub open spec fn spec_ret_value_fmt(v: JsValueV) -> Seq<char> {
    match v {
        JsValueV::JsNull => ansi_fg_rgb(130, 130, 130, "null"@),
        JsValueV::JsUndefined => ansi_fg_rgb(130, 130, 130, "undefined"@),
        JsValueV::JsNan => ansi_fg_rgb(209, 154, 102, "NaN"@),
        JsValueV::JsNumber(s) => ansi_fg_rgb(209, 154, 102, s),
        JsValueV::JsString(s) => ansi_fg_rgb(152, 195, 121, "\""@ + s + "\""@),
        JsValueV::JsTrue => ansi_fg_rgb(209, 154, 102, "true"@),
        JsValueV::JsFalse => ansi_fg_rgb(209, 154, 102, "false"@),
    }
}

pub fn ret_value_fmt(val: &JsValue) -> (r: String)
    ensures
        r@ == spec_ret_value_fmt(val@),
{
    match val {
        JsValue::JsNull => paint_rgb(130, 130, 130, "null"),
        JsValue::JsUndefined => paint_rgb(130, 130, 130, "undefined"),
        JsValue::JsNan => paint_rgb(209, 154, 102, "NaN"),
        JsValue::JsNumber(s) => paint_rgb(209, 154, 102, s.as_str()),
        JsValue::JsString(s) => {
            let mut quoted = String::from_str("\"");
            quoted.append(s.as_str());
            quoted.append("\"");
            paint_rgb(152, 195, 121, quoted.as_str())
        },
        JsValue::JsTrue => paint_rgb(209, 154, 102, "true"),
        JsValue::JsFalse => paint_rgb(209, 154, 102, "false"),
    }
}

} // verus!
