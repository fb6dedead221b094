use vstd::prelude::*;

verus! {

use crate::WindowPos;
use vstd::string::StringExecFns;

// The geometry of the popup surface and its position memory, plus the
// argument list handed to the operating system when an entry is
// launched. Reading monitor sizes and moving the window are surface
// work and stay outside; these functions decide the coordinates.

/// Halving rounded toward zero, as machine division of a signed value
/// behaves.
pub open spec fn half_toward_zero(n: int) -> int {
    if n >= 0 {
        n / 2
    } else {
        -((-n) / 2)
    }
}

/// The horizontal centering policy: half the space left over beside the
/// window.
pub open spec fn spec_center_x(screen_w: int, win_w: int) -> int {
    half_toward_zero(screen_w - win_w)
}

/// The vertical centering policy: screen center minus half the window
/// height, biased 80 pixels above true center.
pub open spec fn spec_center_y(screen_h: int, win_h: int) -> int {
    screen_h / 2 - win_h / 2 - 80
}

/// Computes the centered position of a window on a monitor, all sizes
/// in physical pixels.
pub fn center_position(screen_w: u32, screen_h: u32, win_w: u32, win_h: u32) -> (r: WindowPos)
    requires
        screen_w <= 0x7fff_ffff,
        screen_h <= 0x7fff_ffff,
        win_w <= 0x7fff_ffff,
        win_h <= 0x7fff_ffff,
    ensures
        r.x as int == spec_center_x(screen_w as int, win_w as int),
        r.y as int == spec_center_y(screen_h as int, win_h as int),
{
    let x: i32 = if screen_w >= win_w {
        ((screen_w - win_w) / 2) as i32
    } else {
        -(((win_w - screen_w) / 2) as i32)
    };
    let y: i32 = (screen_h / 2) as i32 - (win_h / 2) as i32 - 80;
    WindowPos { x, y }
}

/// The single-slot memory for the popup's last saved position. It holds
/// nothing until a save request captures a position.
pub struct PosStore {
    pub last: Option<WindowPos>,
}

impl PosStore {
    /// An empty store: nothing saved yet.
    pub fn new() -> (s: Self)
        ensures
            s.last is None,
    {
        PosStore { last: None }
    }

    /// Captures the current on-screen position.
    pub fn save_window_pos(&mut self, x: i32, y: i32)
        ensures
            final(self).last == Some(WindowPos { x, y }),
    {
        self.last = Some(WindowPos { x, y });
    }

    /// The position to restore to: the saved one when present, else the
    /// centering policy for the given monitor and window sizes.
    pub fn restore_window_pos(&self, screen_w: u32, screen_h: u32, win_w: u32, win_h: u32) -> (r:
        WindowPos)
        requires
            screen_w <= 0x7fff_ffff,
            screen_h <= 0x7fff_ffff,
            win_w <= 0x7fff_ffff,
            win_h <= 0x7fff_ffff,
        ensures
            self.last matches Some(p) ==> r == p,
            self.last is None ==> r.x as int == spec_center_x(screen_w as int, win_w as int)
                && r.y as int == spec_center_y(screen_h as int, win_h as int),
    {
        match self.last {
            Some(p) => p,
            None => center_position(screen_w, screen_h, win_w, win_h),
        }
    }
}

/// The argument list handed to the command interpreter to start a
/// target detached: a command flag, the start verb, an empty window
/// title, and the target path.
pub fn launch_args(path: &String) -> (r: Vec<String>)
    ensures
        r@.len() == 4,
        r@[0]@ == "/C"@,
        r@[1]@ == "start"@,
        r@[2]@ == Seq::<char>::empty(),
        r@[3]@ == path@,
{
    let mut v: Vec<String> = Vec::new();
    v.push(String::from_str("/C"));
    v.push(String::from_str("start"));
    v.push(String::new());
    v.push(path.clone());
    v
}

} // verus!
