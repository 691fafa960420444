//! The overlays of the outputs, and when they are painted.

use crate::render::geometry;
use crate::render::geometry::{Area, Rect};
use vstd::prelude::*;

verus! {

/// How many parts of a logical px pointer positions are given in.
pub const FIXED: i64 = 256;

/// A length of `n / 256` logical px in device px: cut to whole ones, and to the range of `i32`.
pub open spec fn device(n: int, scale: int) -> int {
    let v = n * scale;
    geometry::clamp(
        if v >= 0 {
            v / 256
        } else {
            -((-v) / 256)
        },
        i32::MIN as int,
        i32::MAX as int,
    )
}

fn device_px(n: i32, scale: i32) -> (r: i32)
    ensures
        r == device(n as int, scale as int),
{
    proof {
        let (a, b): (int, int) = (n as int, scale as int);
        assert(-0x4000_0000_0000_0000 <= a * b <= 0x4000_0000_0000_0000) by (nonlinear_arith)
            requires
                -0x8000_0000 <= a <= 0x7fff_ffff,
                -0x8000_0000 <= b <= 0x7fff_ffff,
        ;
    }
    let v: i64 = n as i64 * scale as i64;
    let px: i64 = v / FIXED;
    if px < -0x8000_0000 {
        i32::MIN
    } else if px > 0x7fff_ffff {
        i32::MAX
    } else {
        px as i32
    }
}

/// One per-output overlay: a viewport onto the shared global canvas.
#[derive(Debug, Clone, Copy)]
pub struct Overlay {
    /// Top-left of this output within the global canvas, in device px.
    pub origin: (i32, i32),
    /// Output size in device px.
    pub size: (i32, i32),
    /// Output scale (logical pointer coords are multiplied by this).
    pub scale: i32,
    pub configured: bool,
    /// True after a commit that requested a frame callback, until the callback fires. While set,
    /// further redraws are coalesced into `needs_redraw` so we paint at most once per display
    /// frame instead of once per pointer event.
    pub frame_pending: bool,
    /// A redraw was requested while `frame_pending` was set; draw once the callback fires.
    pub needs_redraw: bool,
}

impl Overlay {
    /// The part of the canvas that the overlay shows.
    pub open spec fn area(self) -> Area {
        Area {
            x: self.origin.0 as int,
            y: self.origin.1 as int,
            w: self.size.0 as int,
            h: self.size.1 as int,
        }
    }

    /// The part of the canvas that the overlay shows.
    pub fn view(&self) -> (r: Rect)
        ensures
            r@ == self.area(),
            r == self.rect(),
    {
        Rect { x: self.origin.0, y: self.origin.1, w: self.size.0, h: self.size.1 }
    }

    /// The part of the canvas that the overlay shows, as a rectangle of machine numbers.
    pub open spec fn rect(self) -> Rect {
        Rect { x: self.origin.0, y: self.origin.1, w: self.size.0, h: self.size.1 }
    }

    /// The pixel of the canvas at a position on the overlay.
    pub open spec fn point(self, at: (i32, i32)) -> (int, int) {
        (
            self.origin.0 + device(at.0 as int, self.scale as int),
            self.origin.1 + device(at.1 as int, self.scale as int),
        )
    }

    /// The pixel of the canvas at a position on the overlay is representable.
    pub open spec fn reaches(self, at: (i32, i32)) -> bool {
        &&& i32::MIN <= self.point(at).0 <= i32::MAX
        &&& i32::MIN <= self.point(at).1 <= i32::MAX
    }

    /// Translates an output-local logical position into global canvas (device) coords.
    pub fn place(&self, at: (i32, i32)) -> (r: (i32, i32))
        requires
            self.reaches(at),
        ensures
            r.0 == self.point(at).0,
            r.1 == self.point(at).1,
    {
        (
            self.origin.0 + device_px(at.0, self.scale),
            self.origin.1 + device_px(at.1, self.scale),
        )
    }

    /// Whether a position on the overlay has a representable pixel.
    pub fn can_place(&self, at: (i32, i32)) -> (r: bool)
        ensures
            r == self.reaches(at),
    {
        let x: i64 = self.origin.0 as i64 + device_px(at.0, self.scale) as i64;
        let y: i64 = self.origin.1 as i64 + device_px(at.1, self.scale) as i64;
        -0x8000_0000 <= x && x <= 0x7fff_ffff && -0x8000_0000 <= y && y <= 0x7fff_ffff
    }

    /// A redraw requested: what becomes of the overlay, and whether it is to be painted now.
    pub open spec fn requested(self) -> (Overlay, bool) {
        if self.frame_pending {
            (Overlay { needs_redraw: true, ..self }, false)
        } else {
            (self, true)
        }
    }

    /// Painted: the next painting waits for the frame callback.
    pub open spec fn shown(self) -> Overlay {
        Overlay { frame_pending: true, needs_redraw: false, ..self }
    }

    /// The frame callback fired: what becomes of the overlay, and whether it is to be painted now.
    pub open spec fn ticked(self) -> (Overlay, bool) {
        (Overlay { frame_pending: false, ..self }, self.needs_redraw)
    }
}

/// An overlay after `n` requests.
pub open spec fn requests(o: Overlay, n: nat) -> Overlay
    decreases n,
{
    if n == 0 {
        o
    } else {
        requests(o, (n - 1) as nat).requested().0
    }
}

/// From one painting to the next frame callback an output is not painted again, however often a
/// redraw is requested; the callback makes up for all requests with one painting, and paints
/// nothing if there was none.
pub proof fn law_one_paint_per_frame(o: Overlay, n: nat)
    ensures
        !requests(o.shown(), n).requested().1,
        requests(o.shown(), n).ticked().1 == (n > 0),
        !requests(o.shown(), n).ticked().0.frame_pending,
    decreases n,
{
    if n > 0 {
        law_one_paint_per_frame(o, (n - 1) as nat);
        lemma_pending(o.shown(), n);
        lemma_pending(o.shown(), (n - 1) as nat);
    }
}

proof fn lemma_pending(o: Overlay, n: nat)
    requires
        o.frame_pending,
    ensures
        requests(o, n).frame_pending,
        n > 0 ==> requests(o, n).needs_redraw,
    decreases n,
{
    if n > 0 {
        lemma_pending(o, (n - 1) as nat);
    }
}

/// No request is lost: it is painted now, or the next frame callback paints.
pub proof fn law_no_request_is_lost(o: Overlay)
    ensures
        o.requested().1 || o.requested().0.ticked().1,
{
}

} // verus!
