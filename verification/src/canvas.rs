//! The canvas that all outputs are put together on.

use crate::render::geometry::Area;
use vstd::prelude::*;

verus! {

/// A captured output.
#[derive(Debug, Clone, Copy)]
pub struct Captured {
    /// The size of its picture in device px.
    pub w: i32,
    pub h: i32,
    /// How many device px a logical px takes.
    pub scale: i32,
    /// Logical position in the global layout (compositor coords).
    pub logical: (i32, i32),
}

/// The canvas of all outputs.
#[derive(Debug)]
pub struct Canvas {
    pub width: i32,
    pub height: i32,
    pub scale: i32,
    /// Where each output starts, in device px.
    pub origins: Vec<(i32, i32)>,
}

/// What is known of an output: its scale is at least 1, and without a position it is at the
/// corner of the layout.
pub open spec fn known(info: Option<(i32, Option<(i32, i32)>)>) -> (i32, (i32, i32)) {
    match info {
        Some((factor, position)) => (
            if factor >= 1 {
                factor
            } else {
                1
            },
            match position {
                Some(p) => p,
                None => (0, 0),
            },
        ),
        None => (1, (0, 0)),
    }
}

/// The scale and the logical position of an output, from its scale factor and its position as far
/// as the compositor tells them.
pub fn placement(info: Option<(i32, Option<(i32, i32)>)>) -> (r: (i32, (i32, i32)))
    ensures
        r == known(info),
        r.0 >= 1,
{
    match info {
        Some((factor, position)) => (
            if factor >= 1 {
                factor
            } else {
                1
            },
            match position {
                Some(p) => p,
                None => (0, 0),
            },
        ),
        None => (1, (0, 0)),
    }
}

/// The smallest number of a row.
pub open spec fn least(s: Seq<int>) -> int
    decreases s.len(),
{
    if s.len() <= 1 {
        s[0]
    } else if s.last() < least(s.drop_last()) {
        s.last()
    } else {
        least(s.drop_last())
    }
}

/// The greatest number of a row.
pub open spec fn greatest(s: Seq<int>) -> int
    decreases s.len(),
{
    if s.len() <= 1 {
        s[0]
    } else if s.last() > greatest(s.drop_last()) {
        s.last()
    } else {
        greatest(s.drop_last())
    }
}

proof fn lemma_least(s: Seq<int>)
    requires
        s.len() > 0,
    ensures
        forall|i: int| 0 <= i < s.len() ==> least(s) <= #[trigger] s[i],
        exists|i: int| 0 <= i < s.len() && least(s) == #[trigger] s[i],
    decreases s.len(),
{
    if s.len() == 1 {
        assert(least(s) == s[0]);
    } else {
        let rest = s.drop_last();
        lemma_least(rest);
        let k = choose|k: int| 0 <= k < rest.len() && least(rest) == #[trigger] rest[k];
        assert(s[k] == rest[k]);
        assert(s[s.len() - 1] == s.last());
        assert forall|i: int| 0 <= i < s.len() implies least(s) <= #[trigger] s[i] by {
            if i < rest.len() {
                assert(rest[i] == s[i]);
            }
        }
    }
}

proof fn lemma_greatest(s: Seq<int>)
    requires
        s.len() > 0,
    ensures
        forall|i: int| 0 <= i < s.len() ==> greatest(s) >= #[trigger] s[i],
        exists|i: int| 0 <= i < s.len() && greatest(s) == #[trigger] s[i],
    decreases s.len(),
{
    if s.len() == 1 {
        assert(greatest(s) == s[0]);
    } else {
        let rest = s.drop_last();
        lemma_greatest(rest);
        let k = choose|k: int| 0 <= k < rest.len() && greatest(rest) == #[trigger] rest[k];
        assert(s[k] == rest[k]);
        assert(s[s.len() - 1] == s.last());
        assert forall|i: int| 0 <= i < s.len() implies greatest(s) >= #[trigger] s[i] by {
            if i < rest.len() {
                assert(rest[i] == s[i]);
            }
        }
    }
}

/// The logical positions on either axis.
pub open spec fn logical_x(outputs: Seq<Captured>) -> Seq<int> {
    Seq::new(outputs.len(), |i: int| outputs[i].logical.0 as int)
}

pub open spec fn logical_y(outputs: Seq<Captured>) -> Seq<int> {
    Seq::new(outputs.len(), |i: int| outputs[i].logical.1 as int)
}

/// Where output `i` lies on the canvas: as far from the leftmost and the topmost output as in the
/// layout, in device px. The scale of the first output counts for all of them.
pub open spec fn area_of(outputs: Seq<Captured>, i: int) -> Area {
    Area {
        x: (outputs[i].logical.0 - least(logical_x(outputs))) * outputs[0].scale,
        y: (outputs[i].logical.1 - least(logical_y(outputs))) * outputs[0].scale,
        w: outputs[i].w as int,
        h: outputs[i].h as int,
    }
}

/// The right and the bottom edges of the outputs.
pub open spec fn right_edges(outputs: Seq<Captured>) -> Seq<int> {
    Seq::new(outputs.len(), |i: int| area_of(outputs, i).x + area_of(outputs, i).w)
}

pub open spec fn bottom_edges(outputs: Seq<Captured>) -> Seq<int> {
    Seq::new(outputs.len(), |i: int| area_of(outputs, i).y + area_of(outputs, i).h)
}

/// The places of the outputs are representable.
pub open spec fn assembly_fits(outputs: Seq<Captured>) -> bool {
    forall|i: int|
        #![trigger outputs[i]]
        0 <= i < outputs.len() ==> {
            &&& outputs[i].logical.0 - least(logical_x(outputs)) <= i32::MAX
            &&& outputs[i].logical.1 - least(logical_y(outputs)) <= i32::MAX
            &&& i32::MIN <= area_of(outputs, i).x <= i32::MAX
            &&& i32::MIN <= area_of(outputs, i).y <= i32::MAX
            &&& i32::MIN <= area_of(outputs, i).x + outputs[i].w <= i32::MAX
            &&& i32::MIN <= area_of(outputs, i).y + outputs[i].h <= i32::MAX
        }
}

/// The least logical position on either axis.
fn corner(outputs: &Vec<Captured>) -> (r: (i32, i32))
    requires
        outputs@.len() > 0,
    ensures
        r.0 == least(logical_x(outputs@)),
        r.1 == least(logical_y(outputs@)),
{
    let ghost xs = logical_x(outputs@);
    let ghost ys = logical_y(outputs@);
    let (mut x, mut y): (i32, i32) = outputs[0].logical;
    let mut i: usize = 1;
    while i < outputs.len()
        invariant
            1 <= i <= outputs@.len(),
            xs == logical_x(outputs@),
            ys == logical_y(outputs@),
            x == least(xs.take(i as int)),
            y == least(ys.take(i as int)),
        decreases outputs@.len() - i,
    {
        let (lx, ly): (i32, i32) = outputs[i].logical;
        proof {
            assert(xs.take(i + 1).drop_last() =~= xs.take(i as int));
            assert(ys.take(i + 1).drop_last() =~= ys.take(i as int));
            assert(xs.take(i + 1).last() == lx);
            assert(ys.take(i + 1).last() == ly);
        }
        if lx < x {
            x = lx;
        }
        if ly < y {
            y = ly;
        }
        i = i + 1;
    }
    assert(xs.take(i as int) =~= xs);
    assert(ys.take(i as int) =~= ys);
    (x, y)
}

proof fn lemma_offset(a: int, s: int)
    by (nonlinear_arith)
    requires
        0 <= a <= 0xffff_ffff,
        -0x8000_0000 <= s <= 0x7fff_ffff,
    ensures
        -0x8000_0000 * 0xffff_ffff <= a * s <= 0x7fff_ffff * 0xffff_ffff,
{
}

/// Whether the places of the outputs are representable.
pub fn can_assemble(outputs: &Vec<Captured>) -> (r: bool)
    requires
        outputs@.len() > 0,
    ensures
        r == assembly_fits(outputs@),
{
    let (min_x, min_y): (i32, i32) = corner(outputs);
    let scale: i128 = outputs[0].scale as i128;
    let (lowest, highest): (i128, i128) = (-0x8000_0000, 0x7fff_ffff);
    proof {
        lemma_least(logical_x(outputs@));
        lemma_least(logical_y(outputs@));
    }
    let mut i: usize = 0;
    while i < outputs.len()
        invariant
            0 <= i <= outputs@.len(),
            outputs@.len() > 0,
            scale == outputs@[0].scale,
            lowest == i32::MIN,
            highest == i32::MAX,
            min_x == least(logical_x(outputs@)),
            min_y == least(logical_y(outputs@)),
            forall|k: int|
                0 <= k < outputs@.len() ==> min_x <= #[trigger] logical_x(outputs@)[k],
            forall|k: int|
                0 <= k < outputs@.len() ==> min_y <= #[trigger] logical_y(outputs@)[k],
            forall|k: int|
                #![trigger outputs@[k]]
                0 <= k < i ==> {
                    &&& outputs@[k].logical.0 - least(logical_x(outputs@)) <= i32::MAX
                    &&& outputs@[k].logical.1 - least(logical_y(outputs@)) <= i32::MAX
                    &&& i32::MIN <= area_of(outputs@, k).x <= i32::MAX
                    &&& i32::MIN <= area_of(outputs@, k).y <= i32::MAX
                    &&& i32::MIN <= area_of(outputs@, k).x + outputs@[k].w <= i32::MAX
                    &&& i32::MIN <= area_of(outputs@, k).y + outputs@[k].h <= i32::MAX
                },
        decreases outputs@.len() - i,
    {
        let c: Captured = outputs[i];
        assert(logical_x(outputs@)[i as int] == c.logical.0);
        assert(logical_y(outputs@)[i as int] == c.logical.1);
        let (dx, dy): (i128, i128) = (
            c.logical.0 as i128 - min_x as i128,
            c.logical.1 as i128 - min_y as i128,
        );
        proof {
            lemma_offset(dx as int, scale as int);
            lemma_offset(dy as int, scale as int);
        }
        let (x, y): (i128, i128) = (dx * scale, dy * scale);
        let (right, bottom): (i128, i128) = (x + c.w as i128, y + c.h as i128);
        let fine: bool = dx <= highest && dy <= highest && lowest <= x && x <= highest && lowest <= y
            && y <= highest && lowest <= right && right <= highest && lowest <= bottom && bottom
            <= highest;
        assert(x == area_of(outputs@, i as int).x);
        assert(y == area_of(outputs@, i as int).y);
        if !fine {
            assert(outputs@[i as int] == c);
            return false;
        }
        i = i + 1;
    }
    true
}

/// Puts the outputs together on one canvas. A uniform scale across outputs is taken for granted
/// (the common case).
pub fn assemble(outputs: &Vec<Captured>) -> (r: Canvas)
    requires
        outputs@.len() > 0,
        assembly_fits(outputs@),
    ensures
        r.scale == outputs@[0].scale,
        r.width == greatest(right_edges(outputs@)),
        r.height == greatest(bottom_edges(outputs@)),
        r.origins@.len() == outputs@.len(),
        forall|i: int|
            0 <= i < outputs@.len() ==> (#[trigger] r.origins@[i]).0 == area_of(outputs@, i).x
                && r.origins@[i].1 == area_of(outputs@, i).y,
{
    let ghost rights = right_edges(outputs@);
    let ghost bottoms = bottom_edges(outputs@);
    let (min_x, min_y): (i32, i32) = corner(outputs);
    let scale: i32 = outputs[0].scale;
    let mut origins: Vec<(i32, i32)> = Vec::new();
    let mut width: i32 = 0;
    let mut height: i32 = 0;
    proof {
        lemma_least(logical_x(outputs@));
        lemma_least(logical_y(outputs@));
    }
    let mut i: usize = 0;
    while i < outputs.len()
        invariant
            0 <= i <= outputs@.len(),
            outputs@.len() > 0,
            assembly_fits(outputs@),
            rights == right_edges(outputs@),
            bottoms == bottom_edges(outputs@),
            scale == outputs@[0].scale,
            min_x == least(logical_x(outputs@)),
            min_y == least(logical_y(outputs@)),
            forall|k: int|
                0 <= k < outputs@.len() ==> min_x <= #[trigger] logical_x(outputs@)[k],
            forall|k: int|
                0 <= k < outputs@.len() ==> min_y <= #[trigger] logical_y(outputs@)[k],
            origins@.len() == i,
            forall|k: int|
                0 <= k < i ==> (#[trigger] origins@[k]).0 == area_of(outputs@, k).x
                    && origins@[k].1 == area_of(outputs@, k).y,
            i > 0 ==> width == greatest(rights.take(i as int)),
            i > 0 ==> height == greatest(bottoms.take(i as int)),
        decreases outputs@.len() - i,
    {
        let c: Captured = outputs[i];
        assert(outputs@[i as int] == c);
        assert(logical_x(outputs@)[i as int] == c.logical.0);
        assert(logical_y(outputs@)[i as int] == c.logical.1);
        let x: i32 = (c.logical.0 - min_x) * scale;
        let y: i32 = (c.logical.1 - min_y) * scale;
        let (right, bottom): (i32, i32) = (x + c.w, y + c.h);
        proof {
            assert(rights[i as int] == right);
            assert(bottoms[i as int] == bottom);
            assert(rights.take(i + 1).drop_last() =~= rights.take(i as int));
            assert(bottoms.take(i + 1).drop_last() =~= bottoms.take(i as int));
            assert(rights.take(i + 1).last() == right);
            assert(bottoms.take(i + 1).last() == bottom);
        }
        if i == 0 || right > width {
            width = right;
        }
        if i == 0 || bottom > height {
            height = bottom;
        }
        origins.push((x, y));
        i = i + 1;
    }
    assert(rights.take(i as int) =~= rights);
    assert(bottoms.take(i as int) =~= bottoms);
    Canvas { width, height, scale, origins }
}

/// The whole canvas.
pub open spec fn whole(outputs: Seq<Captured>) -> Area {
    Area {
        x: 0,
        y: 0,
        w: greatest(right_edges(outputs)),
        h: greatest(bottom_edges(outputs)),
    }
}

/// Every output lies on the canvas, which is no larger than that takes: on each side some output
/// reaches its edge.
pub proof fn law_canvas_is_tight(outputs: Seq<Captured>, i: int)
    requires
        0 <= i < outputs.len(),
        outputs[0].scale >= 1,
    ensures
        area_of(outputs, i).within(whole(outputs)),
        exists|k: int| 0 <= k < outputs.len() && (#[trigger] area_of(outputs, k)).x == 0,
        exists|k: int| 0 <= k < outputs.len() && (#[trigger] area_of(outputs, k)).y == 0,
        exists|k: int|
            0 <= k < outputs.len() && (#[trigger] area_of(outputs, k)).x + area_of(outputs, k).w
                == whole(outputs).w,
        exists|k: int|
            0 <= k < outputs.len() && (#[trigger] area_of(outputs, k)).y + area_of(outputs, k).h
                == whole(outputs).h,
{
    let (xs, ys) = (logical_x(outputs), logical_y(outputs));
    let (rights, bottoms) = (right_edges(outputs), bottom_edges(outputs));
    lemma_least(xs);
    lemma_least(ys);
    lemma_greatest(rights);
    lemma_greatest(bottoms);
    let s: int = outputs[0].scale as int;
    assert(xs[i] == outputs[i].logical.0 && ys[i] == outputs[i].logical.1);
    assert(rights[i] == area_of(outputs, i).x + area_of(outputs, i).w);
    assert(bottoms[i] == area_of(outputs, i).y + area_of(outputs, i).h);
    assert(0 <= (xs[i] - least(xs)) * s && 0 <= (ys[i] - least(ys)) * s) by (nonlinear_arith)
        requires
            least(xs) <= xs[i],
            least(ys) <= ys[i],
            1 <= s,
    ;
    let a = choose|k: int| 0 <= k < xs.len() && least(xs) == #[trigger] xs[k];
    let b = choose|k: int| 0 <= k < ys.len() && least(ys) == #[trigger] ys[k];
    let c = choose|k: int| 0 <= k < rights.len() && greatest(rights) == #[trigger] rights[k];
    let d = choose|k: int| 0 <= k < bottoms.len() && greatest(bottoms) == #[trigger] bottoms[k];
    assert(area_of(outputs, a).x == 0 * s);
    assert(area_of(outputs, b).y == 0 * s);
    assert(area_of(outputs, c).x + area_of(outputs, c).w == whole(outputs).w);
    assert(area_of(outputs, d).y + area_of(outputs, d).h == whole(outputs).h);
}

/// Outputs are as far apart on the canvas as in the layout, in device px.
pub proof fn law_layout_is_kept(outputs: Seq<Captured>, i: int, k: int)
    requires
        0 <= i < outputs.len(),
        0 <= k < outputs.len(),
    ensures
        area_of(outputs, k).x - area_of(outputs, i).x == (outputs[k].logical.0
            - outputs[i].logical.0) * outputs[0].scale,
        area_of(outputs, k).y - area_of(outputs, i).y == (outputs[k].logical.1
            - outputs[i].logical.1) * outputs[0].scale,
{
    let s: int = outputs[0].scale as int;
    let (x, y) = (least(logical_x(outputs)), least(logical_y(outputs)));
    let (a, b) = (outputs[k].logical.0 as int, outputs[i].logical.0 as int);
    let (c, d) = (outputs[k].logical.1 as int, outputs[i].logical.1 as int);
    assert((a - x) * s - (b - x) * s == (a - b) * s) by (nonlinear_arith);
    assert((c - y) * s - (d - y) * s == (c - d) * s) by (nonlinear_arith);
}

/// Outputs that lie beside each other in the layout do not overlap on the canvas: where output
/// `i` takes `lw` by `lh` logical px and ends before output `k` starts on either axis, no pixel
/// belongs to both.
pub proof fn law_outputs_stay_apart(outputs: Seq<Captured>, i: int, k: int, lw: int, lh: int)
    requires
        0 <= i < outputs.len(),
        0 <= k < outputs.len(),
        outputs[0].scale >= 1,
        outputs[i].w == lw * outputs[0].scale,
        outputs[i].h == lh * outputs[0].scale,
        outputs[i].logical.0 + lw <= outputs[k].logical.0 || outputs[i].logical.1 + lh
            <= outputs[k].logical.1,
    ensures
        area_of(outputs, i).apart(area_of(outputs, k)),
{
    law_layout_is_kept(outputs, i, k);
    let s: int = outputs[0].scale as int;
    let dx: int = outputs[k].logical.0 - outputs[i].logical.0;
    let dy: int = outputs[k].logical.1 - outputs[i].logical.1;
    assert(lw <= dx ==> lw * s <= dx * s) by (nonlinear_arith)
        requires
            1 <= s,
    ;
    assert(lh <= dy ==> lh * s <= dy * s) by (nonlinear_arith)
        requires
            1 <= s,
    ;
}

/// Every output keeps its size on the canvas, whose upper left corner is the origin.
pub proof fn law_sizes_are_kept(outputs: Seq<Captured>, i: int)
    ensures
        area_of(outputs, i).w == outputs[i].w,
        area_of(outputs, i).h == outputs[i].h,
        whole(outputs).x == 0,
        whole(outputs).y == 0,
{
}

/// What is known of an output is taken as it is; an output of which nothing is known has scale 1 at
/// the origin, and no scale is less than 1.
pub proof fn law_unknown_outputs(factor: i32, p: (i32, i32))
    ensures
        known(None) == (1i32, (0i32, 0i32)),
        known(Some((factor, Some(p)))).1 == p,
        known(Some((factor, None))).1 == (0i32, 0i32),
        known(Some((factor, Some(p)))).0 == known(Some((factor, None))).0,
        factor >= 1 ==> known(Some((factor, None))).0 == factor,
        factor < 1 ==> known(Some((factor, None))).0 == 1,
{
}

} // verus!
