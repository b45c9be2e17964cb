//! Where the chat window goes on a display.

use vstd::prelude::*;

verus! {

/// The width of the chat window, in device pixels.
pub const WIDTH: i32 = 800;

/// The height of the chat window, in device pixels.
pub const HEIGHT: i32 = 450;

/// A position on a display, in device pixels.
#[derive(Clone, Copy, Debug, PartialEq, Eq)]
pub struct Point {
    pub x: i32,
    pub y: i32,
}

/// An extent, in device pixels.
#[derive(Clone, Copy, Debug, PartialEq, Eq)]
pub struct Size {
    pub width: i32,
    pub height: i32,
}

/// A rectangle on a display: its top left corner and its extent.
#[derive(Clone, Copy, Debug, PartialEq, Eq)]
pub struct Bounds {
    pub origin: Point,
    pub size: Size,
}

/// How the window system treats a window.
#[derive(Clone, Copy, Debug, PartialEq, Eq)]
pub enum WindowKind {
    /// An ordinary application window.
    Normal,
    /// A window that floats above the ordinary ones.
    PopUp,
}

/// What the chat asks of the window that shows it.
#[derive(Clone, Copy, Debug, PartialEq, Eq)]
pub struct WindowOptions {
    /// Where the window opens.
    pub bounds: Bounds,
    /// Whether the window takes the keyboard focus when it opens.
    pub focus: bool,
    /// Whether the window has a title bar.
    pub titlebar: bool,
    /// Whether the user can move the window.
    pub is_movable: bool,
    /// The kind of window.
    pub kind: WindowKind,
}

/// Half of `v`, rounded towards zero.
pub open spec fn half(v: int) -> int {
    if v >= 0 {
        v / 2
    } else {
        -((-v) / 2)
    }
}

/// The coordinate at which an extent of `inner` starts when it is centred
/// in the extent of `outer` that starts at `start`.
pub open spec fn centered(start: int, outer: int, inner: int) -> int {
    start + half(outer) - half(inner)
}

/// Whether the chat window, centred in `display`, has an origin that device
/// pixels can express.
pub open spec fn can_place(display: Bounds) -> bool {
    &&& i32::MIN <= centered(display.origin.x as int, display.size.width as int, WIDTH as int) <= i32::MAX
    &&& i32::MIN <= centered(display.origin.y as int, display.size.height as int, HEIGHT as int) <= i32::MAX
}

/// The chat window, centred in `display`.
pub open spec fn placed(display: Bounds) -> Bounds {
    Bounds {
        origin: Point {
            x: centered(display.origin.x as int, display.size.width as int, WIDTH as int) as i32,
            y: centered(display.origin.y as int, display.size.height as int, HEIGHT as int) as i32,
        },
        size: Size { width: WIDTH, height: HEIGHT },
    }
}

fn centered_exec(start: i32, outer: i32, inner: i32) -> (at: i64)
    ensures
        at == centered(start as int, outer as int, inner as int),
{
    start as i64 + (outer / 2) as i64 - (inner / 2) as i64
}

impl Bounds {
    /// Whether the chat window can be centred in this display.
    pub fn can_place(&self) -> (ok: bool)
        ensures
            ok == can_place(*self),
    {
        let x = centered_exec(self.origin.x, self.size.width, WIDTH);
        let y = centered_exec(self.origin.y, self.size.height, HEIGHT);
        i32::MIN as i64 <= x && x <= i32::MAX as i64 && i32::MIN as i64 <= y && y <= i32::MAX as i64
    }

    /// The chat window, centred in this display.
    pub fn place(&self) -> (window: Bounds)
        requires
            can_place(*self),
        ensures
            window == placed(*self),
    {
        let x = centered_exec(self.origin.x, self.size.width, WIDTH);
        let y = centered_exec(self.origin.y, self.size.height, HEIGHT);
        Bounds { origin: Point { x: x as i32, y: y as i32 }, size: Size { width: WIDTH, height: HEIGHT } }
    }
}

} // verus!
