//! Decisions of the status bar.
use vstd::prelude::*;

verus! {

/// The colours of a status-bar value.
#[derive(Clone, Copy, Debug, PartialEq, Eq, Structural)]
pub enum StatusColor {
    Red,
    Yellow,
    Green,
    White,
}

/// The colour of the frame-rate item: red under 30 frames per second, yellow under
/// 60, green from 60 on.
pub fn status_fps_color(fps: u32) -> (r: StatusColor)
    ensures
        fps < 30 ==> r == StatusColor::Red,
        30 <= fps < 60 ==> r == StatusColor::Yellow,
        60 <= fps ==> r == StatusColor::Green,
{
    if fps < 30 {
        StatusColor::Red
    } else if fps < 60 {
        StatusColor::Yellow
    } else {
        StatusColor::Green
    }
}

/// The colour of the version item: always white.
pub fn status_version_color() -> (r: StatusColor)
    ensures
        r == StatusColor::White,
{
    StatusColor::White
}

/// The text of a status-bar value: the value as it is written, or `N/A` while there
/// is none.
pub fn status_text(value: Option<String>) -> (r: String)
    ensures
        value matches Some(v) ==> r@ == v@,
        value is None ==> r@ == "N/A"@,
{
    match value {
        Some(v) => v,
        None => String::from_str("N/A"),
    }
}

/// The colour of a status-bar value after an update: the colour that the item's
/// colour function gives, or the current one when it gives none.
pub fn status_color_after<C: Copy>(current: C, given: Option<C>) -> (r: C)
    ensures
        given matches Some(c) ==> r == c,
        given is None ==> r == current,
{
    match given {
        Some(c) => c,
        None => current,
    }
}

} // verus!
