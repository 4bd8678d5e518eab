//! The interface's colours.
//!
//! Each is chosen for the light or the dark appearance the window is in; the
//! window applies them. Sizes are measured in fractional points and stay with
//! the window.
use vstd::prelude::*;

verus! {

/// A colour as red, green and blue, each out of 255.
pub type Rgb = (u8, u8, u8);

/// The one button that matters: a green that reads as "go" in either
/// appearance.
pub fn run_button_fill(dark_mode: bool) -> (c: Rgb)
    ensures
        c == (if dark_mode {
            (34u8, 110u8, 60u8)
        } else {
            (38u8, 132u8, 70u8)
        }),
{
    if dark_mode {
        (34, 110, 60)
    } else {
        (38, 132, 70)
    }
}

/// Errors: a light red on dark, a deep red on light.
pub fn error_color(dark_mode: bool) -> (c: Rgb)
    ensures
        c == (if dark_mode {
            (240u8, 120u8, 120u8)
        } else {
            (178u8, 34u8, 34u8)
        }),
{
    if dark_mode {
        (240, 120, 120)
    } else {
        (178, 34, 34)
    }
}

/// Warnings: amber.
pub fn warning_color(dark_mode: bool) -> (c: Rgb)
    ensures
        c == (if dark_mode {
            (226u8, 178u8, 84u8)
        } else {
            (150u8, 100u8, 0u8)
        }),
{
    if dark_mode {
        (226, 178, 84)
    } else {
        (150, 100, 0)
    }
}

/// Success: green.
pub fn success_color(dark_mode: bool) -> (c: Rgb)
    ensures
        c == (if dark_mode {
            (120u8, 200u8, 140u8)
        } else {
            (20u8, 110u8, 50u8)
        }),
{
    if dark_mode {
        (120, 200, 140)
    } else {
        (20, 110, 50)
    }
}

} // verus!
