//! The decomposition of a glyph outline, as FreeType stores it, into the
//! commands of a path: a move to each contour's start, lines, quadratic and
//! cubic curves, and the closing of each contour.
use vstd::prelude::*;

verus! {

/// A point of an outline, in 26.6 fixed point.
#[derive(Clone, Copy, PartialEq, Eq, Structural)]
pub struct FtVector {
    pub x: i64,
    pub y: i64,
}

/// An outline: its points, the tag of each point, and the index of the last
/// point of each contour.
pub struct FtOutline {
    pub points: Vec<FtVector>,
    pub tags: Vec<u8>,
    pub contours: Vec<i16>,
}

/// The tag of a point on the curve.
pub const FT_CURVE_TAG_ON: u8 = 1;

/// The tag of the control point of a quadratic arc.
pub const FT_CURVE_TAG_CONIC: u8 = 0;

/// The tag of a control point of a cubic arc.
pub const FT_CURVE_TAG_CUBIC: u8 = 2;

/// A command of a path, as the decomposition gives it.
#[derive(Clone, Copy, PartialEq, Eq, Structural)]
pub enum OutlineCmd {
    MoveTo(FtVector),
    LineTo(FtVector),
    /// A quadratic curve through a control point to an end point.
    Curve3(FtVector, FtVector),
    /// A cubic curve through two control points to an end point.
    Curve4(FtVector, FtVector, FtVector),
    Close,
}

/// How the walk along a contour ended: with its points used up, with a
/// curve back to its start, or at a tag out of place.
#[derive(Clone, Copy, PartialEq, Eq, Structural)]
pub enum WalkEnd {
    Open,
    Closed,
    Failed,
}

/// The kind of a tag: its two low bits.
pub open spec fn curve_tag(t: u8) -> u8 {
    t & 3
}

/// Half of `s`, rounded toward zero.
pub open spec fn half(s: int) -> int {
    if s >= 0 {
        s / 2
    } else {
        -((-s) / 2)
    }
}

/// The point halfway between `a` and `b`.
pub open spec fn midpoint(a: FtVector, b: FtVector) -> FtVector {
    FtVector { x: half(a.x + b.x) as i64, y: half(a.y + b.y) as i64 }
}

impl FtOutline {
    pub open spec fn pt(&self, i: int) -> FtVector {
        self.points@[i]
    }

    pub open spec fn tag(&self, i: int) -> u8 {
        curve_tag(self.tags@[i])
    }

    /// The first point of contour `n`.
    pub open spec fn first(&self, n: int) -> int {
        if n == 0 {
            0
        } else {
            self.contours@[n - 1] + 1
        }
    }

    /// The last point of contour `n`.
    pub open spec fn last(&self, n: int) -> int {
        self.contours@[n] as int
    }

    /// The second control point of a cubic arc whose first control point is
    /// `q`: the x of the point after `q`, and the y of the point after that,
    /// or of the point after `q` where the outline has no more points.
    pub open spec fn second_control(&self, q: int) -> FtVector {
        FtVector {
            x: self.pt(q + 1).x,
            y: if q + 2 < self.points@.len() {
                self.pt(q + 2).y
            } else {
                self.pt(q + 1).y
            },
        }
    }

    /// Every contour lies within the points, after the one before it; each
    /// point has a tag; halfway points can be computed.
    pub open spec fn wf(&self) -> bool {
        &&& self.tags@.len() == self.points@.len()
        &&& self.points@.len() <= i32::MAX
        &&& forall|n: int| 0 <= n < self.contours@.len() ==> 0 <= #[trigger] self.first(n) <= self.last(n) < self.points@.len()
        &&& forall|i: int|
            0 <= i < self.points@.len() ==> -0x4000_0000_0000_0000 <= #[trigger] self.pt(i).x < 0x4000_0000_0000_0000
                && -0x4000_0000_0000_0000 <= self.pt(i).y < 0x4000_0000_0000_0000
    }

    /// The commands of the walk along the points after `p` up to `lim`,
    /// with the contour starting at `start`, and how it ended.
    pub open spec fn walk(&self, p: int, lim: int, start: FtVector) -> (Seq<OutlineCmd>, WalkEnd)
        decreases lim - p, 1int,
    {
        if p >= lim {
            (Seq::empty(), WalkEnd::Open)
        } else {
            let q = p + 1;
            let t = self.tag(q);
            if t == FT_CURVE_TAG_ON {
                let rest = self.walk(q, lim, start);
                (seq![OutlineCmd::LineTo(self.pt(q))] + rest.0, rest.1)
            } else if t == FT_CURVE_TAG_CONIC {
                self.conic(q, lim, self.pt(q), start)
            } else if q + 1 > lim || self.tag(q + 1) != FT_CURVE_TAG_CUBIC {
                (Seq::empty(), WalkEnd::Failed)
            } else if q + 2 <= lim {
                let rest = self.walk(q + 2, lim, start);
                (
                    seq![OutlineCmd::Curve4(self.pt(q), self.second_control(q), self.pt(q + 2))] + rest.0,
                    rest.1,
                )
            } else {
                (seq![OutlineCmd::Curve4(self.pt(q), self.second_control(q), start)], WalkEnd::Closed)
            }
        }
    }

    /// The commands of a run of quadratic arcs whose last control point,
    /// `ctl`, is at `p`: consecutive control points meet halfway, and the
    /// run ends at a point on the curve or back at the start.
    pub open spec fn conic(&self, p: int, lim: int, ctl: FtVector, start: FtVector) -> (Seq<OutlineCmd>, WalkEnd)
        decreases lim - p, 0int,
    {
        if p >= lim {
            (seq![OutlineCmd::Curve3(ctl, start)], WalkEnd::Closed)
        } else {
            let q = p + 1;
            let t = self.tag(q);
            let v = self.pt(q);
            if t == FT_CURVE_TAG_ON {
                let rest = self.walk(q, lim, start);
                (seq![OutlineCmd::Curve3(ctl, v)] + rest.0, rest.1)
            } else if t != FT_CURVE_TAG_CONIC {
                (Seq::empty(), WalkEnd::Failed)
            } else {
                let rest = self.conic(q, lim, v, start);
                (seq![OutlineCmd::Curve3(ctl, midpoint(ctl, v))] + rest.0, rest.1)
            }
        }
    }

    /// Where the walk along contour `n` starts: its start point, the point
    /// before the first one walked, and the last one walked. A contour that
    /// begins with a control point starts at its last point where that is on
    /// the curve, else halfway between its last and first points.
    pub open spec fn contour_start(&self, n: int) -> (FtVector, int, int) {
        let f = self.first(n);
        let l = self.last(n);
        if self.tag(f) == FT_CURVE_TAG_CONIC {
            if self.tag(l) == FT_CURVE_TAG_ON {
                (self.pt(l), f - 1, l - 1)
            } else {
                (midpoint(self.pt(f), self.pt(l)), f - 1, l)
            }
        } else {
            (self.pt(f), f, l)
        }
    }

    /// The commands of contour `n`, and whether it could be read: a contour
    /// that begins with a cubic control point gives none.
    pub open spec fn contour_cmds(&self, n: int) -> (Seq<OutlineCmd>, bool) {
        if self.tag(self.first(n)) == FT_CURVE_TAG_CUBIC {
            (Seq::empty(), false)
        } else {
            let (start, p, lim) = self.contour_start(n);
            let (body, end) = self.walk(p, lim, start);
            let close = if end == WalkEnd::Open {
                seq![OutlineCmd::Close]
            } else {
                Seq::empty()
            };
            (seq![OutlineCmd::MoveTo(start)] + body + close, end != WalkEnd::Failed)
        }
    }

    /// The commands of the contours from `n` on, and whether all of them
    /// could be read; the decomposition stops at the first that cannot.
    pub open spec fn decomposition_from(&self, n: int) -> (Seq<OutlineCmd>, bool)
        decreases self.contours@.len() - n,
    {
        if n >= self.contours@.len() || n < 0 {
            (Seq::empty(), true)
        } else {
            let (cmds, ok) = self.contour_cmds(n);
            if !ok {
                (cmds, false)
            } else {
                let rest = self.decomposition_from(n + 1);
                (cmds + rest.0, rest.1)
            }
        }
    }
}

/// The kind of the tag `t`.
fn tag_kind(t: u8) -> (r: u8)
    ensures
        r == curve_tag(t),
{
    t & 3
}

/// Half of `a + b`, rounded toward zero.
fn half_sum(a: i64, b: i64) -> (r: i64)
    requires
        -0x4000_0000_0000_0000 <= a < 0x4000_0000_0000_0000,
        -0x4000_0000_0000_0000 <= b < 0x4000_0000_0000_0000,
    ensures
        r == half(a + b),
{
    (a + b) / 2
}

/// Appends to `path` the commands of the contours of `outline`, each
/// opened by a move to its start and closed unless a curve already leads
/// back to it. Returns false, after the commands of the contours before it
/// and of the part of it read so far, at the first contour with a tag out
/// of place: one that begins with a cubic control point, a cubic control
/// point not followed by another, or a quadratic run that meets one.
pub fn decompose_ft_outline(outline: &FtOutline, path: &mut Vec<OutlineCmd>) -> (ok: bool)
    requires
        outline.wf(),
    ensures
        final(path)@ == old(path)@ + outline.decomposition_from(0).0,
        ok == outline.decomposition_from(0).1,
{
    let ghost whole = outline.decomposition_from(0);
    let nc = outline.contours.len();
    let mut first: i64 = 0;
    let mut n: usize = 0;
    while n < nc
        invariant
            outline.wf(),
            nc == outline.contours@.len(),
            n <= nc,
            n < nc ==> first == outline.first(n as int),
            whole == outline.decomposition_from(0),
            path@ + outline.decomposition_from(n as int).0 == old(path)@ + whole.0,
            outline.decomposition_from(n as int).1 == whole.1,
        decreases nc - n,
    {
        let ghost before = path@;
        let last = outline.contours[n] as i64;
        proof {
            assert(0 <= outline.first(n as int) <= outline.last(n as int) < outline.points@.len());
        }
        let fi = first as usize;
        let li = last as usize;
        let mut v_start = outline.points[fi];
        let v_last = outline.points[li];
        let mut lim: i64 = last;
        let mut p: i64 = first;
        let tag = tag_kind(outline.tags[fi]);
        if tag == FT_CURVE_TAG_CUBIC {
            return false;
        }
        if tag == FT_CURVE_TAG_CONIC {
            if tag_kind(outline.tags[li]) == FT_CURVE_TAG_ON {
                v_start = v_last;
                lim = lim - 1;
            } else {
                v_start = FtVector { x: half_sum(v_start.x, v_last.x), y: half_sum(v_start.y, v_last.y) };
            }
            p = p - 1;
        }
        path.push(OutlineCmd::MoveTo(v_start));
        let ghost p0 = path@;
        let ghost w = outline.walk(p as int, lim as int, v_start);
        proof {
            assert(outline.contour_start(n as int) == (v_start, p as int, lim as int));
        }
        let mut end = WalkEnd::Open;
        while p < lim
            invariant_except_break
                outline.wf(),
                first - 1 <= p <= lim,
                lim <= last,
                last == outline.last(n as int),
                first == outline.first(n as int),
                0 <= first,
                last < outline.points@.len(),
                end == WalkEnd::Open,
                path@ + outline.walk(p as int, lim as int, v_start).0 == p0 + w.0,
                outline.walk(p as int, lim as int, v_start).1 == w.1,
            ensures
                path@ == p0 + w.0,
                end == w.1,
            decreases lim - p,
        {
            p += 1;
            let pi = p as usize;
            let t = tag_kind(outline.tags[pi]);
            if t == FT_CURVE_TAG_ON {
                let ghost rest = outline.walk(p as int, lim as int, v_start);
                path.push(OutlineCmd::LineTo(outline.points[pi]));
                proof {
                    assert(path@ + rest.0 =~= p0 + w.0);
                }
            } else if t == FT_CURVE_TAG_CONIC {
                let mut v_control = outline.points[pi];
                let mut on_curve = false;
                let ghost p_in = p;
                while p < lim && !on_curve
                    invariant_except_break
                        outline.wf(),
                        first - 1 <= p <= lim,
                        lim <= last,
                        last == outline.last(n as int),
                        0 <= first,
                        last < outline.points@.len(),
                        p_in <= p,
                        -0x4000_0000_0000_0000 <= v_control.x < 0x4000_0000_0000_0000,
                        -0x4000_0000_0000_0000 <= v_control.y < 0x4000_0000_0000_0000,
                        end == WalkEnd::Open,
                        !on_curve ==> path@ + outline.conic(p as int, lim as int, v_control, v_start).0 == p0 + w.0,
                        !on_curve ==> outline.conic(p as int, lim as int, v_control, v_start).1 == w.1,
                        on_curve ==> path@ + outline.walk(p as int, lim as int, v_start).0 == p0 + w.0,
                        on_curve ==> outline.walk(p as int, lim as int, v_start).1 == w.1,
                    ensures
                        end == WalkEnd::Open ==> {
                            &&& !on_curve ==> path@ + outline.conic(p as int, lim as int, v_control, v_start).0 == p0 + w.0
                            &&& !on_curve ==> outline.conic(p as int, lim as int, v_control, v_start).1 == w.1
                            &&& !on_curve ==> p >= lim
                            &&& on_curve ==> path@ + outline.walk(p as int, lim as int, v_start).0 == p0 + w.0
                            &&& on_curve ==> outline.walk(p as int, lim as int, v_start).1 == w.1
                        },
                        end == WalkEnd::Failed ==> path@ == p0 + w.0 && w.1 == WalkEnd::Failed,
                        end != WalkEnd::Closed,
                        first - 1 <= p <= lim,
                        p_in <= p,
                    decreases lim - p,
                {
                    p += 1;
                    let qi = p as usize;
                    let t2 = tag_kind(outline.tags[qi]);
                    let vec = outline.points[qi];
                    if t2 == FT_CURVE_TAG_ON {
                        let ghost rest = outline.walk(p as int, lim as int, v_start);
                        path.push(OutlineCmd::Curve3(v_control, vec));
                        proof {
                            assert(path@ + rest.0 =~= p0 + w.0);
                        }
                        on_curve = true;
                    } else if t2 != FT_CURVE_TAG_CONIC {
                        end = WalkEnd::Failed;
                        proof {
                            assert(path@ =~= p0 + w.0);
                        }
                        break;
                    } else {
                        let ghost rest = outline.conic(p as int, lim as int, vec, v_start);
                        let v_middle = FtVector {
                            x: half_sum(v_control.x, vec.x),
                            y: half_sum(v_control.y, vec.y),
                        };
                        path.push(OutlineCmd::Curve3(v_control, v_middle));
                        proof {
                            assert(path@ + rest.0 =~= p0 + w.0);
                        }
                        v_control = vec;
                    }
                }
                if end == WalkEnd::Failed {
                    break;
                }
                if !on_curve {
                    path.push(OutlineCmd::Curve3(v_control, v_start));
                    proof {
                        assert(path@ =~= p0 + w.0);
                    }
                    end = WalkEnd::Closed;
                    break;
                }
            } else {
                if p + 1 > lim || tag_kind(outline.tags[pi + 1]) != FT_CURVE_TAG_CUBIC {
                    end = WalkEnd::Failed;
                    proof {
                        assert(path@ =~= p0 + w.0);
                    }
                    break;
                }
                let vec1 = outline.points[pi];
                let y2 = if pi + 2 < outline.points.len() {
                    outline.points[pi + 2].y
                } else {
                    outline.points[pi + 1].y
                };
                let vec2 = FtVector { x: outline.points[pi + 1].x, y: y2 };
                proof {
                    assert(vec2 == outline.second_control(p as int));
                }
                p += 2;
                if p <= lim {
                    let ghost rest = outline.walk(p as int, lim as int, v_start);
                    path.push(OutlineCmd::Curve4(vec1, vec2, outline.points[p as usize]));
                    proof {
                        assert(path@ + rest.0 =~= p0 + w.0);
                    }
                } else {
                    path.push(OutlineCmd::Curve4(vec1, vec2, v_start));
                    proof {
                        assert(path@ =~= p0 + w.0);
                    }
                    end = WalkEnd::Closed;
                    break;
                }
            }
        }
        if end == WalkEnd::Failed {
            proof {
                assert(outline.contour_cmds(n as int).0 =~= path@.subrange(before.len() as int, path@.len() as int));
            }
            return false;
        }
        if end == WalkEnd::Open {
            path.push(OutlineCmd::Close);
        }
        proof {
            assert(path@ =~= before + outline.contour_cmds(n as int).0);
        }
        first = last + 1;
        n += 1;
    }
    true
}

} // verus!
