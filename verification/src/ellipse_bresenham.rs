//! Bresenham-style stepping along a quarter of an ellipse.
use vstd::prelude::*;

verus! {

/// Walks a quarter of the ellipse with radii `rx`, `ry`; each `inc` moves
/// one pixel in x, in y, or in both, whichever keeps the error smallest.
pub struct EllipseBresenhamIp {
    rx2: i32,
    ry2: i32,
    two_rx2: i32,
    two_ry2: i32,
    dx: i32,
    dy: i32,
    inc_x: i32,
    inc_y: i32,
    cur_f: i32,
}

/// Absolute value on mathematical integers.
pub open spec fn abs_int(v: int) -> int {
    if v < 0 {
        -v
    } else {
        v
    }
}

impl EllipseBresenhamIp {
    pub closed spec fn spec_dx(&self) -> i32 {
        self.dx
    }

    pub closed spec fn spec_dy(&self) -> i32 {
        self.dy
    }

    /// The squared radii and their doubles, as the constructor leaves them.
    pub closed spec fn radii(&self) -> (int, int, int, int) {
        (self.rx2 as int, self.ry2 as int, self.two_rx2 as int, self.two_ry2 as int)
    }

    /// The error terms: running value and the increments in x and y.
    pub closed spec fn errors(&self) -> (int, int, int) {
        (self.cur_f as int, self.inc_x as int, self.inc_y as int)
    }

    /// The three candidate error values of a step in x, in y, and in both.
    pub open spec fn candidates(&self) -> (int, int, int) {
        let (rx2, ry2, _, _) = self.radii();
        let (f, ix, iy) = self.errors();
        (f + ix + ry2, f + iy + rx2, f + ix + ry2 + iy + rx2)
    }

    /// `inc` can run without overflow.
    pub open spec fn inc_ok(&self) -> bool {
        let (fx, fy, fxy) = self.candidates();
        let (rx2, ry2, two_rx2, two_ry2) = self.radii();
        let (f, ix, iy) = self.errors();
        &&& i32::MIN < fx <= i32::MAX
        &&& i32::MIN < fy <= i32::MAX
        &&& i32::MIN < fxy <= i32::MAX
        &&& i32::MIN <= ix + ry2 <= i32::MAX
        &&& i32::MIN <= ix + ry2 + iy <= i32::MAX
        &&& i32::MIN <= f + ix <= i32::MAX
        &&& i32::MIN <= f + iy <= i32::MAX
        &&& i32::MIN <= f + ix + ry2 + iy <= i32::MAX
        &&& i32::MIN <= ix + two_ry2 <= i32::MAX
        &&& i32::MIN <= iy + two_rx2 <= i32::MAX
    }

    /// The step that `inc` takes: a diagonal step when its error is the
    /// smallest, otherwise the smaller of the x and y steps, x first on ties.
    pub open spec fn choice(&self) -> (i32, i32) {
        let (fx, fy, fxy) = self.candidates();
        let min_m = if abs_int(fx) > abs_int(fy) {
            abs_int(fy)
        } else {
            abs_int(fx)
        };
        if min_m > abs_int(fxy) {
            (1, 1)
        } else if abs_int(fx) > abs_int(fy) {
            (0, 1)
        } else {
            (1, 0)
        }
    }

    pub fn new(rx: i32, ry: i32) -> (r: EllipseBresenhamIp)
        requires
            rx * rx * 2 <= i32::MAX,
            ry * ry * 2 <= i32::MAX,
            i32::MIN < ry * (rx * rx * 2) <= i32::MAX,
            ry != i32::MIN,
        ensures
            r.radii() == (rx * rx, ry * ry, rx * rx * 2, ry * ry * 2),
            r.errors() == (0int, 0int, -ry * (rx * rx * 2)),
            r.spec_dx() == 0,
            r.spec_dy() == 0,
    {
        assert(0 <= rx * rx) by (nonlinear_arith);
        assert(0 <= ry * ry) by (nonlinear_arith);
        let rx2 = rx * rx;
        let ry2 = ry * ry;
        let two_rx2 = rx2 << 1u32;
        let two_ry2 = ry2 << 1u32;
        assert(two_rx2 == rx2 * 2 && two_ry2 == ry2 * 2) by (bit_vector)
            requires
                two_rx2 == rx2 << 1u32,
                two_ry2 == ry2 << 1u32,
                0 <= rx2 <= 0x3FFF_FFFF,
                0 <= ry2 <= 0x3FFF_FFFF,
        ;
        assert(-ry * two_rx2 == -(ry * two_rx2)) by (nonlinear_arith);
        EllipseBresenhamIp {
            rx2: rx2,
            ry2: ry2,
            two_rx2: two_rx2,
            two_ry2: two_ry2,
            dx: 0,
            dy: 0,
            inc_x: 0,
            inc_y: -ry * two_rx2,
            cur_f: 0,
        }
    }

    pub fn dx(&self) -> (r: i32)
        ensures
            r == self.spec_dx(),
    {
        self.dx
    }

    pub fn dy(&self) -> (r: i32)
        ensures
            r == self.spec_dy(),
    {
        self.dy
    }

    /// Takes one step; afterwards `dx`, `dy` tell which.
    pub fn inc(&mut self)
        requires
            old(self).inc_ok(),
        ensures
            (final(self).spec_dx(), final(self).spec_dy()) == old(self).choice(),
            final(self).radii() == old(self).radii(),
            ({
                let (fx, fy, fxy) = old(self).candidates();
                let (f, ix, iy) = old(self).errors();
                let (_, _, two_rx2, two_ry2) = old(self).radii();
                final(self).errors() == (if old(self).choice() == (1i32, 1i32) {
                    (fxy, ix + two_ry2, iy + two_rx2)
                } else if old(self).choice() == (1i32, 0i32) {
                    (fx, ix + two_ry2, iy)
                } else {
                    (fy, ix, iy + two_rx2)
                })
            }),
    {
        let mut mx = self.cur_f + self.inc_x + self.ry2;
        let fx = mx;
        if mx < 0 {
            mx = -mx;
        }
        let mut my = self.cur_f + self.inc_y + self.rx2;
        let fy = my;
        if my < 0 {
            my = -my;
        }
        let mut mxy = self.cur_f + self.inc_x + self.ry2 + self.inc_y + self.rx2;
        let fxy = mxy;
        if mxy < 0 {
            mxy = -mxy;
        }
        let mut min_m = mx;
        let mut flag = true;
        if min_m > my {
            min_m = my;
            flag = false;
        }
        self.dx = 0;
        self.dy = 0;
        if min_m > mxy {
            self.inc_x += self.two_ry2;
            self.inc_y += self.two_rx2;
            self.cur_f = fxy;
            self.dx = 1;
            self.dy = 1;
            return ;
        }
        if flag {
            self.inc_x += self.two_ry2;
            self.cur_f = fx;
            self.dx = 1;
            return ;
        }
        self.inc_y += self.two_rx2;
        self.cur_f = fy;
        self.dy = 1;
    }
}

/// Every step of the walk moves by one pixel in x or in y or in both, never
/// by nothing.
pub proof fn lemma_inc_moves(e: EllipseBresenhamIp)
    ensures
        e.choice() == (1i32, 1i32) || e.choice() == (1i32, 0i32) || e.choice() == (0i32, 1i32),
{
}

/// Each step goes where the error of the ellipse equation stays smallest.
/// With `f` the running error, `ix`, `iy` its increments and `rx2`, `ry2`
/// the squared radii, a step in x leaves the error `f + ix + ry2`, a step in
/// y leaves `f + iy + rx2`, and a diagonal step the sum of both changes. The
/// walk steps diagonally exactly when that error is smaller in magnitude
/// than both others; otherwise along x when its error is no larger than
/// along y, else along y. The step taken never leaves a larger error than
/// either of the others.
pub proof fn lemma_inc_takes_smallest_error(e: EllipseBresenhamIp)
    ensures
        ({
            let (rx2, ry2, _, _) = e.radii();
            let (f, ix, iy) = e.errors();
            let ex = abs_int(f + ix + ry2);
            let ey = abs_int(f + iy + rx2);
            let exy = abs_int(f + ix + ry2 + iy + rx2);
            let (dx, dy) = e.choice();
            let taken = if dx == 1 && dy == 1 {
                exy
            } else if dx == 1 {
                ex
            } else {
                ey
            };
            &&& taken <= ex && taken <= ey && taken <= exy
            &&& ((dx, dy) == (1i32, 1i32) <==> (exy < ex && exy < ey))
            &&& ((dx, dy) == (1i32, 0i32) <==> (ex <= ey && ex <= exy))
            &&& ((dx, dy) == (0i32, 1i32) <==> (ey < ex && ey <= exy))
        }),
{
}

} // verus!
