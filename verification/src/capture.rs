//! The screencopy of one output, and how its pixels reach the screenshot.

use crate::render::raster;
use vstd::prelude::*;

verus! {

/// The shm format of four bytes B, G, R, X for each pixel.
pub const XRGB8888: u32 = 1;

/// The shm format of four bytes R, G, B, X for each pixel.
pub const XBGR8888: u32 = 0x34324258;

/// The shm format of four bytes R, G, B, A for each pixel.
pub const ABGR8888: u32 = 0x34324241;

/// In-progress screencopy of one output.
#[derive(Debug)]
pub struct Capture {
    pub width: i32,
    pub height: i32,
    pub stride: i32,
    pub format: u32,
    pub data: Vec<u8>,
    /// A buffer was handed to the compositor.
    pub chosen: bool,
    pub done: bool,
    pub failed: bool,
}

/// What happens while an output is copied.
#[derive(Debug)]
pub enum CaptureEvent {
    /// The compositor offers a buffer; the format is missing where its code is unknown.
    Buffer { format: Option<u32>, width: u32, height: u32, stride: u32 },
    /// The requested buffer exists and was handed to the compositor.
    Attached,
    /// The requested buffer could not be had.
    Unavailable,
    /// The copy is complete; what the buffer holds, where it can be read.
    Ready { canvas: Option<Vec<u8>> },
    /// The compositor gave up.
    Failed,
    /// Anything else.
    Other,
}

/// The buffer to allocate for a copy.
#[derive(Debug, Clone, Copy, PartialEq, Eq, Structural)]
pub struct BufferRequest {
    /// The size of the pool, which must be exactly that of the buffer.
    pub len: usize,
    pub width: i32,
    pub height: i32,
    pub stride: i32,
    pub format: u32,
}

impl CaptureEvent {
    /// The size of an offered buffer is representable.
    pub open spec fn fits(self) -> bool {
        match self {
            CaptureEvent::Buffer { height, stride, .. } => stride * height <= usize::MAX,
            _ => true,
        }
    }
}

impl Capture {
    /// A copy that has not started.
    pub fn reset() -> (r: Capture)
        ensures
            r.width == 0,
            r.height == 0,
            r.stride == 0,
            r.format == XRGB8888,
            r.data@ == Seq::<u8>::empty(),
            !r.chosen,
            !r.done,
            !r.failed,
    {
        Capture {
            width: 0,
            height: 0,
            stride: 0,
            format: XRGB8888,
            data: Vec::new(),
            chosen: false,
            done: false,
            failed: false,
        }
    }

    /// Whether the copy is still to be waited for.
    pub fn waiting(&self) -> (r: bool)
        ensures
            r == (!self.done && !self.failed),
            r == self.pending(),
    {
        !self.done && !self.failed
    }

    /// The copy after an event.
    pub open spec fn after(self, event: CaptureEvent) -> Capture {
        match event {
            CaptureEvent::Buffer { format, width, height, stride } => if self.chosen {
                self
            } else {
                Capture {
                    width: width as i32,
                    height: height as i32,
                    stride: stride as i32,
                    format: match format {
                        Some(f) => f,
                        None => XRGB8888,
                    },
                    ..self
                }
            },
            CaptureEvent::Attached => Capture { chosen: true, ..self },
            CaptureEvent::Ready { canvas } => Capture {
                done: true,
                data: if self.chosen && canvas is Some {
                    canvas->0
                } else {
                    self.data
                },
                ..self
            },
            CaptureEvent::Unavailable => Capture { failed: true, ..self },
            CaptureEvent::Failed => Capture { failed: true, ..self },
            CaptureEvent::Other => self,
        }
    }

    /// The buffer that is to be allocated in answer to an event.
    pub open spec fn asks(self, event: CaptureEvent) -> Option<BufferRequest> {
        match event {
            CaptureEvent::Buffer { height, stride, .. } => if self.chosen {
                None
            } else {
                let c = self.after(event);
                Some(
                    BufferRequest {
                        len: (stride * height) as usize,
                        width: c.width,
                        height: c.height,
                        stride: c.stride,
                        format: c.format,
                    },
                )
            },
            _ => None,
        }
    }

    /// The copy is still to be waited for.
    pub open spec fn pending(self) -> bool {
        !self.done && !self.failed
    }

    /// Takes one event, and says which buffer is to be allocated in answer to it, if any. Only the
    /// first offer is taken up. The allocation is answered by `Attached` or `Unavailable`.
    pub fn event(&mut self, event: CaptureEvent) -> (r: Option<BufferRequest>)
        requires
            old(self).chosen || event.fits(),
        ensures
            *final(self) == old(self).after(event),
            r == old(self).asks(event),
            match event {
                CaptureEvent::Buffer { format, width, height, stride } => if old(self).chosen {
                    r is None && *final(self) == *old(self)
                } else {
                    &&& final(self).width == width as i32
                    &&& final(self).height == height as i32
                    &&& final(self).stride == stride as i32
                    &&& final(self).format == (match format {
                        Some(f) => f,
                        None => XRGB8888,
                    })
                    &&& final(self).data == old(self).data
                    &&& !final(self).chosen
                    &&& final(self).done == old(self).done
                    &&& final(self).failed == old(self).failed
                    &&& r == Some(
                        BufferRequest {
                            len: (stride * height) as usize,
                            width: width as i32,
                            height: height as i32,
                            stride: stride as i32,
                            format: final(self).format,
                        },
                    )
                },
                CaptureEvent::Attached => r is None && *final(self) == (Capture {
                    chosen: true,
                    ..*old(self)
                }),
                CaptureEvent::Ready { canvas } => r is None && *final(self) == (Capture {
                    done: true,
                    data: match canvas {
                        Some(d) => if old(self).chosen {
                            d
                        } else {
                            old(self).data
                        },
                        None => old(self).data,
                    },
                    ..*old(self)
                }),
                CaptureEvent::Unavailable | CaptureEvent::Failed => r is None && *final(self) == (
                Capture { failed: true, ..*old(self) }),
                CaptureEvent::Other => r is None && *final(self) == *old(self),
            },
    {
        match event {
            CaptureEvent::Buffer { format, width, height, stride } => {
                if self.chosen {
                    return None;
                }
                let code: u32 = match format {
                    Some(f) => f,
                    None => XRGB8888,
                };
                self.width = width as i32;
                self.height = height as i32;
                self.stride = stride as i32;
                self.format = code;
                let len: usize = stride as usize * height as usize;
                Some(
                    BufferRequest {
                        len,
                        width: width as i32,
                        height: height as i32,
                        stride: stride as i32,
                        format: code,
                    },
                )
            },
            CaptureEvent::Attached => {
                self.chosen = true;
                None
            },
            CaptureEvent::Unavailable => {
                self.failed = true;
                None
            },
            CaptureEvent::Ready { canvas } => {
                if self.chosen {
                    if let Some(data) = canvas {
                        self.data = data;
                    }
                }
                self.done = true;
                None
            },
            CaptureEvent::Failed => {
                self.failed = true;
                None
            },
            CaptureEvent::Other => { None },
        }
    }
}

/// Where byte `p` of an image with rows of `to` bytes stands in one with rows of `from` bytes.
pub open spec fn origin_of(p: int, from: int, to: int) -> int {
    raster::row(p, to) * from + p % to
}

/// `h` rows of `w` pixels can be read from a buffer of `len` bytes.
pub open spec fn readable(len: nat, w: int, h: int, stride: int) -> bool {
    h > 0 ==> 0 <= (h - 1) * stride && (h - 1) * stride + 4 * w <= len
}

/// The destination after its pixels were taken from the source; the bytes between its rows stay.
pub open spec fn copied(
    src: Seq<u8>,
    from: int,
    dst: Seq<u8>,
    to: int,
    w: int,
    h: int,
) -> Seq<u8> {
    Seq::new(
        dst.len(),
        |p: int|
            if raster::in_image(p, w, h, to) {
                src[origin_of(p, from, to)]
            } else {
                dst[p]
            },
    )
}

/// The byte of the source pixel that goes to byte `p`, with red and blue exchanged.
pub open spec fn mirrored(p: int, from: int, to: int) -> int {
    origin_of(p, from, to) + 2 - 2 * raster::channel(p, to)
}

/// The destination after its pixels were taken from the source with red and blue exchanged. The
/// fourth byte of each pixel stays.
pub open spec fn swapped(
    src: Seq<u8>,
    from: int,
    dst: Seq<u8>,
    to: int,
    w: int,
    h: int,
) -> Seq<u8> {
    Seq::new(
        dst.len(),
        |p: int|
            if raster::in_image(p, w, h, to) && raster::channel(p, to) < 3 {
                src[mirrored(p, from, to)]
            } else {
                dst[p]
            },
    )
}

proof fn lemma_readable_row(len: nat, w: int, h: int, stride: int, y: int)
    requires
        readable(len, w, h, stride),
        0 <= w,
        0 <= stride,
        0 <= y < h,
    ensures
        0 <= y * stride,
        y * stride + 4 * w <= len,
{
    assert(0 <= y * stride <= (h - 1) * stride) by (nonlinear_arith)
        requires
            0 <= y <= h - 1,
            0 <= stride,
    ;
}

/// Copies `h` rows of `w` pixels between buffers whose rows may be padded differently.
pub fn copy_pixels(
    src: &[u8],
    src_stride: usize,
    dst: &mut [u8],
    dst_stride: usize,
    w: usize,
    h: usize,
)
    requires
        readable(src@.len(), w as int, h as int, src_stride as int),
        raster::image_fits(old(dst)@.len(), w as int, h as int, dst_stride as int),
    ensures
        final(dst)@ == copied(
            src@,
            src_stride as int,
            old(dst)@,
            dst_stride as int,
            w as int,
            h as int,
        ),
{
    let slen: usize = src.len();
    let dlen: usize = dst.len();
    let ghost (from, to, gw, gh) = (src_stride as int, dst_stride as int, w as int, h as int);
    let mut y: usize = 0;
    proof {
        assert forall|p: int| 0 <= p < dst@.len() && raster::in_image(p, gw, 0, to) implies false by {
            raster::lemma_cell(p, to);
        }
        assert(dst@ =~= copied(src@, from, old(dst)@, to, gw, 0));
    }
    while y < h
        invariant
            0 <= y <= h,
            slen == src@.len(),
            dlen == old(dst)@.len(),
            from == src_stride,
            to == dst_stride,
            gw == w,
            gh == h,
            readable(src@.len(), gw, gh, from),
            raster::image_fits(old(dst)@.len(), gw, gh, to),
            dst@ == copied(src@, from, old(dst)@, to, gw, y as int),
        decreases h - y,
    {
        proof {
            lemma_readable_row(src@.len(), gw, gh, from, y as int);
            raster::lemma_row_inside(dlen as nat, gw, gh, to, y as int);
        }
        let row: usize = w * 4;
        let s0: usize = y * src_stride;
        let d0: usize = y * dst_stride;
        let mut k: usize = 0;
        while k < row
            invariant
                0 <= k <= row,
                0 <= y < h,
                row == 4 * gw,
                s0 == y * from,
                d0 == y * to,
                s0 + row <= slen,
                d0 + row <= dlen,
                slen == src@.len(),
                dlen == old(dst)@.len(),
                from == src_stride,
                to == dst_stride,
                gw == w,
                row <= to,
                dst@.len() == old(dst)@.len(),
                forall|p: int|
                    0 <= p < dst@.len() ==> #[trigger] dst@[p] == if raster::in_image(
                        p,
                        gw,
                        y as int,
                        to,
                    ) || d0 <= p < d0 + k {
                        src@[origin_of(p, from, to)]
                    } else {
                        old(dst)@[p]
                    },
            decreases row - k,
        {
            proof {
                vstd::arithmetic::div_mod::lemma_fundamental_div_mod_converse(
                    d0 + k,
                    to,
                    y as int,
                    k as int,
                );
            }
            dst[d0 + k] = src[s0 + k];
            k = k + 1;
        }
        proof {
            let after = copied(src@, from, old(dst)@, to, gw, y + 1);
            assert forall|p: int| 0 <= p < dst@.len() implies dst@[p] == after[p] by {
                if to > 0 {
                    raster::lemma_cell(p, to);
                    if d0 <= p < d0 + row {
                        vstd::arithmetic::div_mod::lemma_fundamental_div_mod_converse(
                            p,
                            to,
                            y as int,
                            p - d0,
                        );
                    }
                }
            }
            assert(dst@ =~= after);
        }
        y = y + 1;
    }
}

/// Copies `h` rows of `w` pixels, exchanging red and blue.
fn copy_swapped(
    src: &[u8],
    src_stride: usize,
    dst: &mut [u8],
    dst_stride: usize,
    w: usize,
    h: usize,
)
    requires
        readable(src@.len(), w as int, h as int, src_stride as int),
        raster::image_fits(old(dst)@.len(), w as int, h as int, dst_stride as int),
    ensures
        final(dst)@ == swapped(
            src@,
            src_stride as int,
            old(dst)@,
            dst_stride as int,
            w as int,
            h as int,
        ),
{
    let slen: usize = src.len();
    let dlen: usize = dst.len();
    let ghost (from, to, gw, gh) = (src_stride as int, dst_stride as int, w as int, h as int);
    let mut y: usize = 0;
    proof {
        assert forall|p: int| 0 <= p < dst@.len() && raster::in_image(p, gw, 0, to) implies false by {
            raster::lemma_cell(p, to);
        }
        assert(dst@ =~= swapped(src@, from, old(dst)@, to, gw, 0));
    }
    while y < h
        invariant
            0 <= y <= h,
            slen == src@.len(),
            dlen == old(dst)@.len(),
            from == src_stride,
            to == dst_stride,
            gw == w,
            gh == h,
            readable(src@.len(), gw, gh, from),
            raster::image_fits(old(dst)@.len(), gw, gh, to),
            dst@ == swapped(src@, from, old(dst)@, to, gw, y as int),
        decreases h - y,
    {
        proof {
            lemma_readable_row(src@.len(), gw, gh, from, y as int);
            raster::lemma_row_inside(dlen as nat, gw, gh, to, y as int);
        }
        let mut x: usize = 0;
        while x < w
            invariant
                0 <= x <= w,
                0 <= y < h,
                0 <= y * from,
                0 <= y * to,
                y * from + 4 * gw <= slen,
                y * to + 4 * gw <= dlen,
                slen == src@.len(),
                dlen == old(dst)@.len(),
                from == src_stride,
                to == dst_stride,
                gw == w,
                4 * gw <= to,
                dst@.len() == old(dst)@.len(),
                forall|p: int|
                    0 <= p < dst@.len() ==> #[trigger] dst@[p] == if raster::in_image(
                        p,
                        gw,
                        y + 1,
                        to,
                    ) && raster::channel(p, to) < 3 && (raster::row(p, to) < y || raster::column(
                        p,
                        to,
                    ) < x) {
                        src@[mirrored(p, from, to)]
                    } else {
                        old(dst)@[p]
                    },
            decreases w - x,
        {
            let s: usize = y * src_stride + x * 4;
            let d: usize = y * dst_stride + x * 4;
            let ghost before = dst@;
            dst[d] = src[s + 2];
            dst[d + 1] = src[s + 1];
            dst[d + 2] = src[s];
            proof {
                raster::lemma_pixel(y as int, x as int, 0, to);
                raster::lemma_pixel(y as int, x as int, 1, to);
                raster::lemma_pixel(y as int, x as int, 2, to);
                assert forall|p: int| 0 <= p < dst@.len() implies #[trigger] dst@[p] == if raster::in_image(
                    p,
                    gw,
                    y + 1,
                    to,
                ) && raster::channel(p, to) < 3 && (raster::row(p, to) < y || raster::column(p, to)
                    < x + 1) {
                    src@[mirrored(p, from, to)]
                } else {
                    old(dst)@[p]
                } by {
                    raster::lemma_cell(p, to);
                    if !(d <= p <= d + 2) {
                        assert(dst@[p] == before[p]);
                    }
                }
            }
            x = x + 1;
        }
        proof {
            let after = swapped(src@, from, old(dst)@, to, gw, y + 1);
            assert forall|p: int| 0 <= p < dst@.len() implies dst@[p] == after[p] by {
                if to > 0 {
                    raster::lemma_cell(p, to);
                }
            }
            assert(dst@ =~= after);
        }
        y = y + 1;
    }
}

/// The format stores red before blue, opposite to the screenshot.
pub open spec fn reversed(format: u32) -> bool {
    format == XBGR8888 || format == ABGR8888
}

impl Capture {
    /// The copied pixels can be read, and the screenshot has room for them.
    pub open spec fn ready_for(self, len: nat, stride: int) -> bool {
        &&& 0 <= self.width
        &&& 0 <= self.height
        &&& 0 <= self.stride
        &&& readable(self.data@.len(), self.width as int, self.height as int, self.stride as int)
        &&& raster::image_fits(len, self.width as int, self.height as int, stride)
    }

    /// Whether the copied pixels can be moved into a screenshot of `len` bytes.
    pub fn can_build(&self, len: usize, stride: usize) -> (r: bool)
        ensures
            r == self.ready_for(len as nat, stride as int),
    {
        if self.width < 0 || self.height < 0 || self.stride < 0 {
            return false;
        }
        let row: u128 = 4 * self.width as u128;
        if row > stride as u128 {
            return false;
        }
        if self.height == 0 {
            return true;
        }
        let last: u128 = self.height as u128 - 1;
        proof {
            let a: int = last as int;
            let b: int = stride as int;
            let c: int = self.stride as int;
            assert(0 <= a * b <= 0x7fff_ffff * 0xffff_ffff_ffff_ffff) by (nonlinear_arith)
                requires
                    0 <= a <= 0x7fff_ffff,
                    0 <= b <= 0xffff_ffff_ffff_ffff,
            ;
            assert(0 <= a * c <= 0x7fff_ffff * 0x7fff_ffff) by (nonlinear_arith)
                requires
                    0 <= a <= 0x7fff_ffff,
                    0 <= c <= 0x7fff_ffff,
            ;
        }
        last * self.stride as u128 + row <= self.data.len() as u128 && last * stride as u128 + row
            <= len as u128
    }

    /// Moves the copied pixels into the screenshot, whose pixels are B, G, R, X.
    ///
    /// That is the common shm layout, so most formats are copied row by row. Only R/B-swapped
    /// formats need per-pixel work.
    pub fn build_screenshot(&self, out: &mut [u8], stride: usize)
        requires
            self.ready_for(old(out)@.len(), stride as int),
        ensures
            final(out)@ == if reversed(self.format) {
                swapped(
                    self.data@,
                    self.stride as int,
                    old(out)@,
                    stride as int,
                    self.width as int,
                    self.height as int,
                )
            } else {
                copied(
                    self.data@,
                    self.stride as int,
                    old(out)@,
                    stride as int,
                    self.width as int,
                    self.height as int,
                )
            },
    {
        let w: usize = self.width as usize;
        let h: usize = self.height as usize;
        let from: usize = self.stride as usize;
        if self.format == XBGR8888 || self.format == ABGR8888 {
            copy_swapped(self.data.as_slice(), from, out, stride, w, h);
        } else {
            copy_pixels(self.data.as_slice(), from, out, stride, w, h);
        }
    }
}

/// Exchanging red and blue twice gives every color value back.
pub proof fn law_swap_twice(
    src: Seq<u8>,
    mid: Seq<u8>,
    dst: Seq<u8>,
    stride: int,
    w: int,
    h: int,
    p: int,
)
    requires
        raster::image_fits(src.len(), w, h, stride),
        raster::image_fits(mid.len(), w, h, stride),
        0 <= p < dst.len(),
        raster::in_image(p, w, h, stride),
        raster::channel(p, stride) < 3,
    ensures
        swapped(swapped(src, stride, mid, stride, w, h), stride, dst, stride, w, h)[p] == src[p],
{
    raster::lemma_cell(p, stride);
    let y: int = raster::row(p, stride);
    let x: int = raster::column(p, stride);
    let c: int = raster::channel(p, stride);
    raster::lemma_row_inside(mid.len(), w, h, stride, y);
    let q: int = mirrored(p, stride, stride);
    assert(q == y * stride + (2 - c) + x * 4);
    raster::lemma_pixel(y, x, 2 - c, stride);
    assert(mirrored(q, stride, stride) == p);
}

/// A pixel is copied byte by byte from the same place of the source; what lies beyond the rows and
/// columns of the image stays.
pub proof fn law_copy_keeps_places(
    src: Seq<u8>,
    from: int,
    dst: Seq<u8>,
    to: int,
    w: int,
    h: int,
    x: int,
    y: int,
    c: int,
)
    requires
        0 <= x,
        0 <= y,
        0 <= c < 4,
        4 * x + c < to,
        y * to + 4 * x + c < dst.len(),
    ensures
        ({
            let p = y * to + 4 * x + c;
            let r = copied(src, from, dst, to, w, h);
            &&& r.len() == dst.len()
            &&& x < w && y < h ==> r[p] == src[y * from + 4 * x + c]
            &&& x >= w || y >= h ==> r[p] == dst[p]
        }),
{
    raster::lemma_pixel(y, x, c, to);
    assert(0 <= y * to) by (nonlinear_arith)
        requires
            0 <= y,
            0 < to,
    ;
    assert(y * to + c + x * 4 == y * to + 4 * x + c);
}

/// With red and blue exchanged, a pixel takes its first byte from the third one of the same place of
/// the source, its second from the second and its third from the first; its fourth byte stays, and
/// so does what lies beyond the image.
pub proof fn law_swap_exchanges_red_and_blue(
    src: Seq<u8>,
    from: int,
    dst: Seq<u8>,
    to: int,
    w: int,
    h: int,
    x: int,
    y: int,
    c: int,
)
    requires
        0 <= x,
        0 <= y,
        0 <= c < 4,
        4 * x + c < to,
        y * to + 4 * x + c < dst.len(),
    ensures
        ({
            let p = y * to + 4 * x + c;
            let r = swapped(src, from, dst, to, w, h);
            &&& r.len() == dst.len()
            &&& x < w && y < h && c == 0 ==> r[p] == src[y * from + 4 * x + 2]
            &&& x < w && y < h && c == 1 ==> r[p] == src[y * from + 4 * x + 1]
            &&& x < w && y < h && c == 2 ==> r[p] == src[y * from + 4 * x]
            &&& x >= w || y >= h || c == 3 ==> r[p] == dst[p]
        }),
{
    raster::lemma_pixel(y, x, c, to);
    assert(0 <= y * to) by (nonlinear_arith)
        requires
            0 <= y,
            0 < to,
    ;
    assert(y * to + c + x * 4 == y * to + 4 * x + c);
}

/// Exactly the two formats that start with red have their bytes exchanged.
pub proof fn law_reversed_formats(f: u32)
    ensures
        reversed(f) <==> f == 0x34324258 || f == 0x34324241,
{
}

// --- the course of a copy --------------------------------------------------

/// Only the first offer is taken up: it is answered by a request for a buffer of exactly its size,
/// which is what the copy then is. Once a buffer is attached, no further offer changes anything, and
/// no other event asks for a buffer.
pub proof fn law_first_offer_is_taken_up(
    c: Capture,
    format: Option<u32>,
    width: u32,
    height: u32,
    stride: u32,
    other: CaptureEvent,
)
    requires
        stride * height <= usize::MAX,
        width <= i32::MAX,
        height <= i32::MAX,
        stride <= i32::MAX,
    ensures
        ({
            let offer = CaptureEvent::Buffer { format, width, height, stride };
            let r = c.after(offer);
            &&& c.chosen ==> r == c && c.asks(offer) is None
            &&& !c.chosen ==> {
                &&& r.width == width && r.height == height && r.stride == stride
                &&& format matches Some(f) ==> r.format == f
                &&& format is None ==> r.format == 1
                &&& r.data == c.data && !r.chosen && r.done == c.done && r.failed == c.failed
                &&& c.asks(offer) matches Some(q) && {
                    &&& q.len == stride * height
                    &&& q.width == width && q.height == height && q.stride == stride
                    &&& q.format == r.format
                }
            }
            &&& !(other is Buffer) ==> c.asks(other) is None
        }),
{
}

/// A copy is waited for until it is complete or has failed, and what ended it stays: it is complete
/// once the compositor says so, and has failed once a buffer is missing or the compositor gives up.
pub proof fn law_a_copy_ends_once(c: Capture, event: CaptureEvent)
    ensures
        ({
            let r = c.after(event);
            let fails = event is Failed || event is Unavailable;
            &&& r.done == (c.done || event is Ready)
            &&& r.failed == (c.failed || fails)
            &&& r.pending() <==> c.pending() && !(event is Ready) && !fails
            &&& r.chosen == (c.chosen || event is Attached)
        }),
{
}

/// The pixels are those that the attached buffer holds when the copy is complete; no other event
/// touches them.
pub proof fn law_pixels_come_with_the_end(c: Capture, event: CaptureEvent, pixels: Vec<u8>)
    ensures
        !(event is Ready) ==> c.after(event).data == c.data,
        c.chosen ==> c.after(CaptureEvent::Ready { canvas: Some(pixels) }).data == pixels,
        !c.chosen ==> c.after(CaptureEvent::Ready { canvas: Some(pixels) }).data == c.data,
        c.after(CaptureEvent::Ready { canvas: None }).data == c.data,
        event is Ready ==> {
            let r = c.after(event);
            r.width == c.width && r.height == c.height && r.stride == c.stride && r.format
                == c.format
        },
{
}

} // verus!
