//! Preview content of the size presets.
use vstd::prelude::*;

verus! {

/// The background color of each size preset, so that sizes are told apart
/// at a glance; a neutral grey for an unknown code.
pub open spec fn preset_color(code: Seq<char>) -> Seq<char> {
    if code == "S"@ {
        "#993C1D"@
    } else if code == "M"@ {
        "#0F6E56"@
    } else if code == "L"@ {
        "#3C3489"@
    } else if code == "SQ"@ {
        "#72243E"@
    } else if code == "SX"@ {
        "#854F0B"@
    } else if code == "SSX"@ {
        "#3B6D11"@
    } else {
        "#333333"@
    }
}

pub fn color_hex(size_code: &str) -> (r: &'static str)
    ensures
        r@ == preset_color(size_code@),
{
    let c = crate::text::chars_of(size_code);
    if crate::text::text_equals("S", &c) {
        "#993C1D"
    } else if crate::text::text_equals("M", &c) {
        "#0F6E56"
    } else if crate::text::text_equals("L", &c) {
        "#3C3489"
    } else if crate::text::text_equals("SQ", &c) {
        "#72243E"
    } else if crate::text::text_equals("SX", &c) {
        "#854F0B"
    } else if crate::text::text_equals("SSX", &c) {
        "#3B6D11"
    } else {
        "#333333"
    }
}

} // verus!
