//! Settings bounds, the main window settings and the integer part of the
//! settings validation.

use vstd::prelude::*;

verus! {

/// Smallest text/info offset.
pub const OFFSET_MIN: i32 = -250;
/// Largest text/info offset.
pub const OFFSET_MAX: i32 = 250;
/// Largest auto-hide distance in metres.
pub const HIDE_BELOW_MAX: u32 = 500;
/// Shortest inactivity timeout.
pub const INACTIVE_MS_MIN: u32 = 500;
/// Longest inactivity timeout.
pub const INACTIVE_MS_MAX: u32 = 10_000;
/// Narrowest main window.
pub const WIN_WIDTH_MIN: u32 = 920;
/// Widest main window.
pub const WIN_WIDTH_MAX: u32 = 3_840;
/// Lowest main window.
pub const WIN_HEIGHT_MIN: u32 = 680;
/// Highest main window.
pub const WIN_HEIGHT_MAX: u32 = 2_160;

/// `v` limited to `[lo, hi]`.
pub open spec fn clamp_spec(v: int, lo: int, hi: int) -> int {
    if v < lo {
        lo
    } else if v > hi {
        hi
    } else {
        v
    }
}


/// Clamping leaves in-range values unchanged, so validation is idempotent.
pub proof fn lemma_clamp_idempotent(v: int, lo: int, hi: int)
    requires
        lo <= hi,
    ensures
        lo <= v <= hi ==> clamp_spec(v, lo, hi) == v,
        lo <= clamp_spec(v, lo, hi) <= hi,
        clamp_spec(clamp_spec(v, lo, hi), lo, hi) == clamp_spec(v, lo, hi),
{
}

/// Main control window configuration.
pub struct MainWindowConfig {
    /// Window width.
    pub width: u32,
    /// Window height.
    pub height: u32,
    /// X position (None = centered).
    pub x: Option<i32>,
    /// Y position (None = centered).
    pub y: Option<i32>,
}

impl MainWindowConfig {
    /// Limit the window size to the supported range; the position is kept.
    pub fn validate(&mut self)
        ensures
            final(self).width == clamp_spec(old(self).width as int, WIN_WIDTH_MIN as int, WIN_WIDTH_MAX as int),
            final(self).height == clamp_spec(old(self).height as int, WIN_HEIGHT_MIN as int, WIN_HEIGHT_MAX as int),
            final(self).x == old(self).x,
            final(self).y == old(self).y,
    {
        self.width = clamp_u32(self.width, WIN_WIDTH_MIN, WIN_WIDTH_MAX);
        self.height = clamp_u32(self.height, WIN_HEIGHT_MIN, WIN_HEIGHT_MAX);
    }
}

impl Default for MainWindowConfig {
    /// 920 x 680, centered.
    fn default() -> (c: Self)
        ensures
            c.width == 920 && c.height == 680 && c.x is None && c.y is None,
    {
        MainWindowConfig { width: 920, height: 680, x: None, y: None }
    }
}

/// `v` limited to `[lo, hi]`.
pub fn clamp_u32(v: u32, lo: u32, hi: u32) -> (r: u32)
    requires
        lo <= hi,
    ensures
        r == clamp_spec(v as int, lo as int, hi as int),
{
    if v < lo {
        lo
    } else if v > hi {
        hi
    } else {
        v
    }
}

/// `v` limited to `[lo, hi]`.
pub fn clamp_i32(v: i32, lo: i32, hi: i32) -> (r: i32)
    requires
        lo <= hi,
    ensures
        r == clamp_spec(v as int, lo as int, hi as int),
{
    if v < lo {
        lo
    } else if v > hi {
        hi
    } else {
        v
    }
}

/// A text or info panel offset limited to `[OFFSET_MIN, OFFSET_MAX]`.
pub fn clamp_offset(v: i32) -> (r: i32)
    ensures
        r == clamp_spec(v as int, OFFSET_MIN as int, OFFSET_MAX as int),
{
    clamp_i32(v, OFFSET_MIN, OFFSET_MAX)
}

/// An auto-hide distance limited to `HIDE_BELOW_MAX`.
pub fn clamp_hide_below_m(v: u32) -> (r: u32)
    ensures
        r == if v > HIDE_BELOW_MAX { HIDE_BELOW_MAX } else { v },
{
    if v > HIDE_BELOW_MAX {
        HIDE_BELOW_MAX
    } else {
        v
    }
}

/// An inactivity timeout limited to `[INACTIVE_MS_MIN, INACTIVE_MS_MAX]`.
pub fn clamp_inactive_ms(v: u32) -> (r: u32)
    ensures
        r == clamp_spec(v as int, INACTIVE_MS_MIN as int, INACTIVE_MS_MAX as int),
{
    clamp_u32(v, INACTIVE_MS_MIN, INACTIVE_MS_MAX)
}

/// Default inactivity timeout in milliseconds.
pub fn default_inactive_ms() -> (ms: u32)
    ensures
        ms == 1200,
{
    1200
}

/// Default for the boolean settings that are on unless configured.
pub fn default_true() -> (b: bool)
    ensures
        b,
{
    true
}

} // verus!
