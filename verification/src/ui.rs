//! The figures that the screen layout is computed from.
use vstd::prelude::*;
use crate::text::{split_lines, strings_view, text_lines};

verus! {

/// The footer's name for what Control-W does next.
pub open spec fn spec_wrap_label(wrap_output: bool) -> Seq<char> {
    if wrap_output {
        "unwrap"@
    } else {
        "wrap"@
    }
}

/// The footer's name for what Control-W does next: `unwrap` while the output
/// is wrapped, `wrap` otherwise.
pub fn wrap_label(wrap_output: bool) -> (r: &'static str)
    ensures
        r@ == spec_wrap_label(wrap_output),
{
    if wrap_output {
        "unwrap"
    } else {
        "wrap"
    }
}

/// The number of lines of the output header, at most `u16::MAX`.
pub fn output_header_length(header: &str) -> (r: u16)
    ensures
        r == if text_lines(header@).len() <= u16::MAX {
            text_lines(header@).len()
        } else {
            u16::MAX as nat
        },
{
    let lines = split_lines(header);
    assert(lines@.len() == strings_view(lines@).len());
    let n = lines.len();
    if n <= 65535 {
        n as u16
    } else {
        65535
    }
}

/// The room inside the border of the output panel, for a panel of the given
/// height and width: two less each, wrapping around below zero as the
/// subtraction of a release build does.
pub fn viewport_dims(height: u16, width: u16) -> (r: (u16, u16))
    ensures
        r.0 == if height >= 2 {
            (height - 2) as u16
        } else {
            (height + 65534) as u16
        },
        r.1 == if width >= 2 {
            (width - 2) as u16
        } else {
            (width + 65534) as u16
        },
{
    (height.wrapping_sub(2), width.wrapping_sub(2))
}

} // verus!
