//! Show/hide rules of the arrow overlay: auto-hide below a distance
//! threshold, sticky hide until the marker changes, and hide on inactivity;
//! and the alpha fix-up of the drawn frame.

use vstd::prelude::*;

verus! {

/// What the overlay knows this frame.
pub struct VisibilityInput {
    /// Navigation data is available (player and marker known).
    pub visible: bool,
    /// Auto-hide is on and the distance to the marker is below its threshold.
    pub below_threshold: bool,
    /// Keep hidden after going below the threshold until the marker changes.
    pub sticky_hide: bool,
    /// Hide when the player and camera stay still.
    pub hide_on_inactive: bool,
    /// Inactivity timeout in milliseconds (0 disables it).
    pub inactive_ms: u32,
    /// Milliseconds since the last movement.
    pub elapsed_ms: u32,
}

/// Hide state of the overlay window.
pub struct OverlayVisibility {
    pub is_hidden: bool,
    pub sticky_hidden: bool,
}

/// The hide state after evaluating the rules for one frame.
pub open spec fn evaluate_spec(hidden: bool, sticky: bool, i: VisibilityInput) -> (bool, bool) {
    if i.visible {
        let (h1, s1) = if i.below_threshold {
            (true, sticky || i.sticky_hide)
        } else {
            (sticky, sticky)
        };
        let h2 = if !h1 && i.hide_on_inactive && i.inactive_ms > 0 && i.elapsed_ms >= i.inactive_ms {
            true
        } else {
            h1
        };
        (h2, s1)
    } else {
        (false, sticky)
    }
}


/// The hide rules: without navigation data the overlay shows; below the distance
/// threshold it hides (sticky when configured); a pending sticky hide keeps it
/// hidden whenever navigation data is present, until the marker changes (which
/// lifts the sticky flag); inactivity hides it; otherwise, with no sticky hide,
/// it shows.
pub proof fn lemma_hide_rules(hidden: bool, sticky: bool, i: VisibilityInput)
    ensures
        !i.visible ==> !evaluate_spec(hidden, sticky, i).0,
        i.visible && i.below_threshold ==> evaluate_spec(hidden, sticky, i).0,
        i.visible && i.below_threshold && i.sticky_hide ==> evaluate_spec(hidden, sticky, i).1,
        i.visible && sticky ==> evaluate_spec(hidden, sticky, i) == (true, true),
        !i.visible ==> evaluate_spec(hidden, sticky, i).1 == sticky,
        i.visible && i.hide_on_inactive && i.inactive_ms > 0 && i.elapsed_ms >= i.inactive_ms
            ==> evaluate_spec(hidden, sticky, i).0,
        i.visible && !i.below_threshold && !sticky && !(i.hide_on_inactive && i.inactive_ms > 0
            && i.elapsed_ms >= i.inactive_ms) ==> !evaluate_spec(hidden, sticky, i).0,
{
}

/// The sticky flag is raised only by going below the threshold with sticky hide
/// on; a frame with navigation data above the threshold leaves it as it was, so
/// without a pending sticky hide (and no inactivity) the arrow shows.
pub proof fn lemma_sticky_raised_only_below_threshold(hidden: bool, sticky: bool, i: VisibilityInput)
    ensures
        i.visible && !i.below_threshold ==> evaluate_spec(hidden, sticky, i).1 == sticky,
        evaluate_spec(hidden, sticky, i).1 && !sticky ==> i.visible && i.below_threshold
            && i.sticky_hide,
        !evaluate_spec(hidden, sticky, i).1 ==> !sticky,
        i.visible && !i.below_threshold && !sticky && !(i.hide_on_inactive && i.inactive_ms > 0
            && i.elapsed_ms >= i.inactive_ms) ==> evaluate_spec(hidden, sticky, i) == (false, false),
{
}

impl OverlayVisibility {
    /// Shown, with no sticky hide.
    pub fn new() -> (v: Self)
        ensures
            !v.is_hidden && !v.sticky_hidden,
    {
        OverlayVisibility { is_hidden: false, sticky_hidden: false }
    }

    /// The marker changed (or the user set one): lift the sticky hide.
    pub fn reset_sticky(&mut self)
        ensures
            final(self).is_hidden == old(self).is_hidden,
            !final(self).sticky_hidden,
    {
        self.sticky_hidden = false;
    }

    /// Apply the hide/show rules for one frame.
    pub fn evaluate(&mut self, input: &VisibilityInput)
        ensures
            (final(self).is_hidden, final(self).sticky_hidden) == evaluate_spec(
                old(self).is_hidden,
                old(self).sticky_hidden,
                *input,
            ),
    {
        if input.visible {
            if input.below_threshold {
                self.is_hidden = true;
                if input.sticky_hide {
                    self.sticky_hidden = true;
                }
            } else {
                self.is_hidden = self.sticky_hidden;
            }
            if !self.is_hidden && input.hide_on_inactive && input.inactive_ms > 0 {
                if input.elapsed_ms >= input.inactive_ms {
                    self.is_hidden = true;
                }
            }
        } else {
            self.is_hidden = false;
        }
    }
}

/// The pixel that a GDI-drawn pixel (`0xAARRGGBB`, GDI leaving alpha at zero)
/// becomes for the layered window: a non-black colour gets full alpha, black
/// stays as it is (transparent).
pub open spec fn alpha_fixed(p: u32) -> u32 {
    if p & 0x00FF_FFFFu32 != 0 {
        0xFF00_0000u32 | (p & 0x00FF_FFFFu32)
    } else {
        p
    }
}

/// The fix-up keeps every colour, makes every non-black pixel fully opaque and
/// leaves a black pixel that GDI drew (alpha zero) fully transparent.
pub proof fn lemma_alpha_fixed(p: u32)
    ensures
        alpha_fixed(p) & 0x00FF_FFFFu32 == p & 0x00FF_FFFFu32,
        p & 0x00FF_FFFFu32 != 0 ==> alpha_fixed(p) >> 24u32 == 0xFFu32,
        p & 0x00FF_FFFFu32 == 0 && p >> 24u32 == 0 ==> alpha_fixed(p) == 0,
{
    assert((0xFF00_0000u32 | (p & 0x00FF_FFFFu32)) & 0x00FF_FFFFu32 == p & 0x00FF_FFFFu32)
        by (bit_vector);
    assert((0xFF00_0000u32 | (p & 0x00FF_FFFFu32)) >> 24u32 == 0xFFu32) by (bit_vector);
    assert(p & 0x00FF_FFFFu32 == 0 && p >> 24u32 == 0 ==> p == 0) by (bit_vector);
}

/// Give every non-black pixel of a drawn frame full alpha, so that the frame is
/// premultiplied for `UpdateLayeredWindow`; black pixels stay transparent.
pub fn fix_alpha(pixels: &mut [u32])
    ensures
        final(pixels)@ == old(pixels)@.map_values(|p: u32| alpha_fixed(p)),
{
    let n = pixels.len();
    let mut i: usize = 0;
    while i < n
        invariant
            n == old(pixels)@.len(),
            pixels@.len() == n,
            i <= n,
            forall|j: int| 0 <= j < i ==> #[trigger] pixels@[j] == alpha_fixed(old(pixels)@[j]),
            forall|j: int| i <= j < n ==> #[trigger] pixels@[j] == old(pixels)@[j],
        decreases n - i,
    {
        let p = pixels[i];
        let bgr = p & 0x00FF_FFFFu32;
        if bgr != 0 {
            pixels[i] = 0xFF00_0000u32 | bgr;
        }
        i = i + 1;
    }
    assert(pixels@ =~= old(pixels)@.map_values(|p: u32| alpha_fixed(p)));
}

} // verus!
