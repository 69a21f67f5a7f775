//! Integer line interpolators: `DdaLineIp` with a fixed-point increment,
//! `Dda2LineIp` with an exact integer remainder, and `LineBresenhamIp` on
//! subpixel coordinates.
use vstd::prelude::*;

verus! {

//===================================================DdaLineIp
/// Interpolates `y` from `y1` towards `y2` in `count` steps, keeping the
/// running offset in fixed point with `FRAC_SHIFT` fractional bits.
pub struct DdaLineIp<const FRAC_SHIFT: u32, const YSHIFT: u32> {
    m_y: i32,
    m_inc: i32,
    m_dy: i32,
}

impl<const FRAC_SHIFT: u32, const YSHIFT: u32> DdaLineIp<FRAC_SHIFT, YSHIFT> {
    /// The starting value.
    pub closed spec fn start(&self) -> int {
        self.m_y as int
    }

    /// The fixed-point increment of one step.
    pub closed spec fn step(&self) -> int {
        self.m_inc as int
    }

    /// The accumulated fixed-point offset.
    pub closed spec fn offset(&self) -> int {
        self.m_dy as int
    }

    pub fn new(y1: i32, y2: i32, count: u32) -> (r: Self)
        requires
            FRAC_SHIFT < 32,
            i32::MIN <= y2 - y1 <= i32::MAX,
            0 < count <= i32::MAX,
        ensures
            r.start() == y1,
            r.step() == trunc_div((((y2 - y1) as i32) << FRAC_SHIFT) as int, (count as i32) as int),
            r.offset() == 0,
    {
        let d: i32 = (y2 - y1) << FRAC_SHIFT;
        let c: i32 = count as i32;
        let inc = d / c;
        proof {
            if d >= 0 && c > 0 {
                assert(inc == (d as int) / (c as int));
            } else {
                assert(inc == -((-(d as int)) / (c as int)));
            }
        }
        Self { m_y: y1, m_inc: inc, m_dy: 0 }
    }

    pub fn y(&self) -> (r: i32)
        requires
            YSHIFT <= FRAC_SHIFT < 32,
            i32::MIN <= self.start() + ((self.offset() as i32) >> ((FRAC_SHIFT - YSHIFT) as u32))
                <= i32::MAX,
        ensures
            r == self.start() + ((self.offset() as i32) >> ((FRAC_SHIFT - YSHIFT) as u32)),
    {
        self.m_y + (self.m_dy >> (FRAC_SHIFT - YSHIFT))
    }

    pub fn dy(&self) -> (r: i32)
        ensures
            r == self.offset(),
    {
        self.m_dy
    }

    pub fn inc(&mut self)
        requires
            i32::MIN <= old(self).offset() + old(self).step() <= i32::MAX,
        ensures
            final(self).offset() == old(self).offset() + old(self).step(),
            final(self).start() == old(self).start(),
            final(self).step() == old(self).step(),
    {
        self.m_dy += self.m_inc
    }

    pub fn dec(&mut self)
        requires
            i32::MIN <= old(self).offset() - old(self).step() <= i32::MAX,
        ensures
            final(self).offset() == old(self).offset() - old(self).step(),
            final(self).start() == old(self).start(),
            final(self).step() == old(self).step(),
    {
        self.m_dy -= self.m_inc
    }

    pub fn inc_by(&mut self, n: u32)
        requires
            n <= i32::MAX,
            i32::MIN <= old(self).step() * n <= i32::MAX,
            i32::MIN <= old(self).offset() + old(self).step() * n <= i32::MAX,
        ensures
            final(self).offset() == old(self).offset() + old(self).step() * n,
            final(self).start() == old(self).start(),
            final(self).step() == old(self).step(),
    {
        self.m_dy += self.m_inc * n as i32;
    }

    pub fn dec_by(&mut self, n: u32)
        requires
            n <= i32::MAX,
            i32::MIN <= old(self).step() * n <= i32::MAX,
            i32::MIN <= old(self).offset() - old(self).step() * n <= i32::MAX,
        ensures
            final(self).offset() == old(self).offset() - old(self).step() * n,
            final(self).start() == old(self).start(),
            final(self).step() == old(self).step(),
    {
        self.m_dy -= self.m_inc * n as i32;
    }
}

/// The offset of a line after `n` calls of `inc` from offset `o`, each
/// adding the step `s`.
pub open spec fn offset_after_incs(o: int, s: int, n: nat) -> int
    decreases n,
{
    if n == 0 {
        o
    } else {
        offset_after_incs(o, s, (n - 1) as nat) + s
    }
}

/// `n` calls of `inc` move a line exactly as far as one `inc_by(n)`: both
/// add `n` steps to the offset, so `dy` and `y` agree afterwards.
pub proof fn lemma_inc_by_is_repeated_inc(o: int, s: int, n: nat)
    ensures
        offset_after_incs(o, s, n) == o + s * n,
    decreases n,
{
    if n > 0 {
        let m = (n - 1) as nat;
        lemma_inc_by_is_repeated_inc(o, s, m);
        assert(s * m + s == s * n) by (nonlinear_arith)
            requires
                m == n - 1,
        ;
    } else {
        assert(s * n == 0) by (nonlinear_arith)
            requires
                n == 0,
        ;
    }
}

//=================================================Dda2LineIp
/// Interpolates an integer value over a number of steps without rounding
/// drift: the step is split into a whole part `m_lft` and a remainder
/// `m_rem` out of `m_cnt`, and `m_mod` accumulates the remainders.
#[derive(Copy, Clone)]
pub struct Dda2LineIp {
    pub m_cnt: i32,
    pub m_lft: i32,
    pub m_rem: i32,
    pub m_mod: i32,
    pub m_y: i32,
}

/// `(a / c, a % c)` as Rust computes them on integers, rounding towards zero.
pub open spec fn trunc_div(a: int, c: int) -> int {
    let q = abs_spec(a) / abs_spec(c);
    if (a >= 0) == (c > 0) {
        q
    } else {
        -q
    }
}

pub open spec fn trunc_rem(a: int, c: int) -> int {
    a - c * trunc_div(a, c)
}

/// The fields that the constructors of `Dda2LineIp` compute from a
/// difference `d`, a step count `count` and a start `y`; `shift_mod` tells
/// whether the accumulator starts one whole step back (forward lines).
pub open spec fn dda2_init(d: int, count: int, y: int, shift_mod: bool) -> Dda2LineIp {
    let cnt = if count <= 0 {
        1
    } else {
        count
    };
    let lft = trunc_div(d, cnt);
    let rem = trunc_rem(d, cnt);
    let adj = rem <= 0;
    let lft2 = if adj {
        lft - 1
    } else {
        lft
    };
    let rem2 = if adj {
        rem + count
    } else {
        rem
    };
    let mod2 = if adj {
        rem + count
    } else {
        rem
    };
    Dda2LineIp {
        m_cnt: cnt as i32,
        m_lft: lft2 as i32,
        m_rem: rem2 as i32,
        m_mod: (if shift_mod {
            mod2 - count
        } else {
            mod2
        }) as i32,
        m_y: y as i32,
    }
}

/// No overflow happens while the constructors compute their fields.
pub open spec fn dda2_init_ok(d: int, count: int) -> bool {
    &&& i32::MIN <= d <= i32::MAX
    &&& i32::MIN <= trunc_rem(d, if count <= 0 {
        1
    } else {
        count
    }) + count <= i32::MAX
    &&& i32::MIN <= trunc_rem(d, if count <= 0 {
        1
    } else {
        count
    }) + count - count <= i32::MAX
    &&& i32::MIN <= trunc_div(d, if count <= 0 {
        1
    } else {
        count
    }) - 1 <= i32::MAX
    &&& i32::MIN <= trunc_rem(d, if count <= 0 {
        1
    } else {
        count
    }) - count <= i32::MAX
}

/// Rust's `/` and `%` on `i32` round towards zero.
proof fn lemma_trunc_div_rem(a: int, c: int)
    requires
        c > 0,
    ensures
        a == c * trunc_div(a, c) + trunc_rem(a, c),
        a >= 0 ==> 0 <= trunc_rem(a, c) < c,
        a < 0 ==> -c < trunc_rem(a, c) <= 0,
        -c < trunc_rem(a, c) < c,
        a >= 0 ==> trunc_rem(a, c) == a % c,
        a < 0 ==> trunc_rem(a, c) == -((-a) % c),
{
    if a >= 0 {
        vstd::arithmetic::div_mod::lemma_fundamental_div_mod(a, c);
        vstd::arithmetic::div_mod::lemma_mod_bound(a, c);
    } else {
        vstd::arithmetic::div_mod::lemma_fundamental_div_mod(-a, c);
        vstd::arithmetic::div_mod::lemma_mod_bound(-a, c);
        let q = (-a) / c;
        assert(c * (-q) == -(c * q)) by (nonlinear_arith);
        assert(trunc_rem(a, c) == -((-a) % c));
    }
}

fn i32_div(a: i32, c: i32) -> (r: (i32, i32))
    requires
        c > 0,
    ensures
        r.0 == trunc_div(a as int, c as int),
        r.1 == trunc_rem(a as int, c as int),
{
    proof {
        lemma_trunc_div_rem(a as int, c as int);
    }
    let q = a / c;
    let m = a % c;
    if a >= 0 {
        assert(q == (a as int) / (c as int));
        assert(m == (a as int) % (c as int));
    } else {
        assert(q == -((-(a as int)) / (c as int)));
        assert(m == -((-(a as int)) % (c as int)));
    }
    (q, m)
}

impl Dda2LineIp {
    /// The accumulated position `y * cnt + mod`; one step adds
    /// `lft * cnt + rem` to it.
    pub open spec fn position(self) -> int {
        self.m_y * self.m_cnt + self.m_mod
    }

    /// The whole change of one step, times `cnt`.
    pub open spec fn step(self) -> int {
        self.m_lft * self.m_cnt + self.m_rem
    }

    /// Forward-adjusted state, the one that `inc` keeps.
    pub open spec fn fwd_wf(self) -> bool {
        &&& self.m_cnt > 0
        &&& 0 < self.m_rem <= self.m_cnt
        &&& -self.m_cnt < self.m_mod <= 0
    }

    /// Backward-adjusted state, the one that `dec` keeps.
    pub open spec fn bwd_wf(self) -> bool {
        &&& self.m_cnt > 0
        &&& 0 < self.m_rem <= self.m_cnt
        &&& 0 < self.m_mod <= self.m_cnt
    }

    /// The state after one `inc`.
    pub open spec fn inc_spec(self) -> Dda2LineIp {
        let m = self.m_mod + self.m_rem;
        let y = self.m_y + self.m_lft;
        if m > 0 {
            Dda2LineIp { m_mod: (m - self.m_cnt) as i32, m_y: (y + 1) as i32, ..self }
        } else {
            Dda2LineIp { m_mod: m as i32, m_y: y as i32, ..self }
        }
    }

    /// `inc` can run without overflow.
    pub open spec fn inc_ok(self) -> bool {
        &&& i32::MIN <= self.m_mod + self.m_rem <= i32::MAX
        &&& i32::MIN <= self.m_y + self.m_lft <= i32::MAX
        &&& self.m_mod + self.m_rem > 0 ==> {
            &&& i32::MIN <= self.m_mod + self.m_rem - self.m_cnt <= i32::MAX
            &&& i32::MIN <= self.m_y + self.m_lft + 1 <= i32::MAX
        }
    }

    /// The state after one `dec`.
    pub open spec fn dec_spec(self) -> Dda2LineIp {
        let (m, y) = if self.m_mod <= self.m_rem {
            (self.m_mod + self.m_cnt, self.m_y - 1)
        } else {
            (self.m_mod as int, self.m_y as int)
        };
        Dda2LineIp { m_mod: (m - self.m_rem) as i32, m_y: (y - self.m_lft) as i32, ..self }
    }

    /// `dec` can run without overflow.
    pub open spec fn dec_ok(self) -> bool {
        if self.m_mod <= self.m_rem {
            &&& i32::MIN <= self.m_mod + self.m_cnt <= i32::MAX
            &&& i32::MIN <= self.m_y - 1 <= i32::MAX
            &&& i32::MIN <= self.m_mod + self.m_cnt - self.m_rem <= i32::MAX
            &&& i32::MIN <= self.m_y - 1 - self.m_lft <= i32::MAX
        } else {
            &&& i32::MIN <= self.m_mod - self.m_rem <= i32::MAX
            &&& i32::MIN <= self.m_y - self.m_lft <= i32::MAX
        }
    }

    /// The state after `n` calls of `inc`.
    pub open spec fn steps(self, n: nat) -> Dda2LineIp
        decreases n,
    {
        if n == 0 {
            self
        } else {
            self.steps((n - 1) as nat).inc_spec()
        }
    }

    pub fn new() -> (r: Dda2LineIp)
        ensures
            r == (Dda2LineIp { m_cnt: 0, m_lft: 0, m_rem: 0, m_mod: 0, m_y: 0 }),
    {
        Dda2LineIp { m_cnt: 0, m_lft: 0, m_rem: 0, m_mod: 0, m_y: 0 }
    }

    //-------------------------------------------- Forward-adjusted line
    pub fn new_fwd(y1: i32, y2: i32, count: i32) -> (r: Dda2LineIp)
        requires
            dda2_init_ok(y2 - y1, count as int),
        ensures
            r == dda2_init(y2 - y1, count as int, y1 as int, true),
    {
        let mut ret = Dda2LineIp::new();
        ret.m_cnt = if count <= 0 {
            1
        } else {
            count
        };
        let (q, m) = i32_div(y2 - y1, ret.m_cnt);
        ret.m_lft = q;
        ret.m_rem = m;
        ret.m_mod = ret.m_rem;
        ret.m_y = y1;
        if ret.m_mod <= 0 {
            ret.m_mod += count;
            ret.m_rem += count;
            ret.m_lft -= 1;
        }
        ret.m_mod -= count;
        ret
    }

    //-------------------------------------------- Backward-adjusted line
    pub fn new_bwd(y1: i32, y2: i32, count: i32, _unused: i32) -> (r: Dda2LineIp)
        requires
            dda2_init_ok(y2 - y1, count as int),
        ensures
            r == dda2_init(y2 - y1, count as int, y1 as int, false),
    {
        let mut ret = Dda2LineIp::new();
        ret.m_cnt = if count <= 0 {
            1
        } else {
            count
        };
        let (q, m) = i32_div(y2 - y1, ret.m_cnt);
        ret.m_lft = q;
        ret.m_rem = m;
        ret.m_mod = ret.m_rem;
        ret.m_y = y1;
        if ret.m_mod <= 0 {
            ret.m_mod += count;
            ret.m_rem += count;
            ret.m_lft -= 1;
        }
        ret
    }

    //-------------------------------------------- Backward-adjusted line
    pub fn new_bwd_y(y: i32, count: i32) -> (r: Dda2LineIp)
        requires
            dda2_init_ok(y as int, count as int),
        ensures
            r == dda2_init(y as int, count as int, 0, false),
    {
        let mut ret = Dda2LineIp::new();
        ret.m_cnt = if count <= 0 {
            1
        } else {
            count
        };
        let (q, m) = i32_div(y, ret.m_cnt);
        ret.m_lft = q;
        ret.m_rem = m;
        ret.m_mod = ret.m_rem;
        ret.m_y = 0;
        if ret.m_mod <= 0 {
            ret.m_mod += count;
            ret.m_rem += count;
            ret.m_lft -= 1;
        }
        ret
    }

    /// Stores the accumulator and the current value into `data[0..2]`.
    pub fn save(&self, data: &mut [i32])
        requires
            old(data)@.len() >= 2,
        ensures
            final(data)@ == old(data)@.update(0, self.m_mod).update(1, self.m_y),
    {
        data[0] = self.m_mod;
        data[1] = self.m_y;
    }

    /// Reads back what `save` stored.
    pub fn load(&mut self, data: &[i32])
        requires
            data@.len() >= 2,
        ensures
            *final(self) == (Dda2LineIp { m_mod: data@[0], m_y: data@[1], ..*old(self) }),
    {
        self.m_mod = data[0];
        self.m_y = data[1];
    }

    pub fn inc(&mut self)
        requires
            old(self).inc_ok(),
        ensures
            *final(self) == old(self).inc_spec(),
    {
        self.m_mod += self.m_rem;
        self.m_y += self.m_lft;
        if self.m_mod > 0 {
            self.m_mod -= self.m_cnt;
            self.m_y += 1;
        }
    }

    pub fn dec(&mut self)
        requires
            old(self).dec_ok(),
        ensures
            *final(self) == old(self).dec_spec(),
    {
        if self.m_mod <= self.m_rem {
            self.m_mod += self.m_cnt;
            self.m_y -= 1;
        }
        self.m_mod -= self.m_rem;
        self.m_y -= self.m_lft;
    }

    pub fn adjust_forward(&mut self)
        requires
            i32::MIN <= old(self).m_mod - old(self).m_cnt <= i32::MAX,
        ensures
            *final(self) == (Dda2LineIp {
                m_mod: (old(self).m_mod - old(self).m_cnt) as i32,
                ..*old(self)
            }),
    {
        self.m_mod -= self.m_cnt;
    }

    pub fn adjust_backward(&mut self)
        requires
            i32::MIN <= old(self).m_mod + old(self).m_cnt <= i32::MAX,
        ensures
            *final(self) == (Dda2LineIp {
                m_mod: (old(self).m_mod + old(self).m_cnt) as i32,
                ..*old(self)
            }),
    {
        self.m_mod += self.m_cnt;
    }

    pub fn mod_(&self) -> (r: i32)
        ensures
            r == self.m_mod,
    {
        self.m_mod
    }

    pub fn rem(&self) -> (r: i32)
        ensures
            r == self.m_rem,
    {
        self.m_rem
    }

    pub fn lft(&self) -> (r: i32)
        ensures
            r == self.m_lft,
    {
        self.m_lft
    }

    pub fn y(&self) -> (r: i32)
        ensures
            r == self.m_y,
    {
        self.m_y
    }
}

/// `c > 0` and `a * c < b * c` give `a < b`.
proof fn lemma_mul_cancel_lt(a: int, b: int, c: int)
    requires
        c > 0,
        a * c < b * c,
    ensures
        a < b,
{
    if a >= b {
        assert(a * c >= b * c) by (nonlinear_arith)
            requires
                a >= b,
                c > 0,
        ;
    }
}

/// The value and the accumulator are determined by the position in a
/// forward-adjusted state.
proof fn lemma_position_determines(a: Dda2LineIp, b: Dda2LineIp)
    requires
        a.fwd_wf(),
        b.fwd_wf(),
        a.m_cnt == b.m_cnt,
        a.position() == b.position(),
    ensures
        a.m_y == b.m_y,
        a.m_mod == b.m_mod,
{
    let c = a.m_cnt as int;
    assert(a.m_y * c - b.m_y * c == b.m_mod - a.m_mod);
    assert((a.m_y - b.m_y) * c == a.m_y * c - b.m_y * c) by (nonlinear_arith);
    if a.m_y > b.m_y {
        assert((a.m_y - b.m_y) * c >= c) by (nonlinear_arith)
            requires
                a.m_y - b.m_y >= 1,
                c > 0,
        ;
    }
    if a.m_y < b.m_y {
        assert((b.m_y - a.m_y) * c >= c) by (nonlinear_arith)
            requires
                b.m_y - a.m_y >= 1,
                c > 0,
        ;
        assert((b.m_y - a.m_y) * c == -((a.m_y - b.m_y) * c)) by (nonlinear_arith);
    }
}

/// One step keeps a forward-adjusted state forward-adjusted and moves its
/// position by exactly one step.
pub proof fn lemma_inc_step(s: Dda2LineIp)
    requires
        s.fwd_wf(),
        s.inc_ok(),
    ensures
        s.inc_spec().fwd_wf(),
        s.inc_spec().position() == s.position() + s.step(),
        s.inc_spec().m_cnt == s.m_cnt,
        s.inc_spec().m_lft == s.m_lft,
        s.inc_spec().m_rem == s.m_rem,
{
    let t = s.inc_spec();
    let c = s.m_cnt as int;
    assert((s.m_y + s.m_lft + 1) * c == s.m_y * c + s.m_lft * c + c) by (nonlinear_arith);
    assert((s.m_y + s.m_lft) * c == s.m_y * c + s.m_lft * c) by (nonlinear_arith);
}

/// The constructor of a forward line starts in a forward-adjusted state
/// whose step is the whole difference `y2 - y1`.
pub proof fn lemma_new_fwd_wf(y1: i32, y2: i32, count: i32)
    requires
        count > 0,
        dda2_init_ok(y2 - y1, count as int),
    ensures
        dda2_init(y2 - y1, count as int, y1 as int, true).fwd_wf(),
        dda2_init(y2 - y1, count as int, y1 as int, true).step() == y2 - y1,
        dda2_init(y2 - y1, count as int, y1 as int, true).position() == y1 * count + dda2_init(
            y2 - y1,
            count as int,
            y1 as int,
            true,
        ).m_rem - count,
{
    let d = y2 - y1;
    let c = count as int;
    lemma_trunc_div_rem(d, c);
    let s = dda2_init(d, c, y1 as int, true);
    let q = trunc_div(d, c);
    assert((q - 1) * c == q * c - c) by (nonlinear_arith);
    assert(q * c == c * q) by (nonlinear_arith);
}

/// A value `yv` with accumulator `mv` in `(-c, 0]` at the position of `n <= c`
/// steps of a forward line from `y1` by `d` lies between `y1` and `y1 + d`.
proof fn lemma_value_between(y1: int, d: int, c: int, rem0: int, n: int, yv: int, mv: int)
    requires
        c > 0,
        0 < rem0 <= c,
        0 <= n <= c,
        -c < mv <= 0,
        yv * c + mv == y1 * c + n * d + rem0 - c,
    ensures
        if d >= 0 {
            y1 <= yv <= y1 + d
        } else {
            y1 + d <= yv <= y1
        },
{
    let pos = y1 * c + n * d + rem0 - c;
    let y2 = y1 + d;
    if d >= 0 {
        assert(0 <= n * d <= c * d) by (nonlinear_arith)
            requires
                0 <= n <= c,
                d >= 0,
        ;
        assert((y1 - 1) * c < yv * c) by (nonlinear_arith)
            requires
                yv * c + mv == pos,
                pos == y1 * c + n * d + rem0 - c,
                n * d >= 0,
                rem0 > 0,
                mv <= 0,
        ;
        lemma_mul_cancel_lt(y1 - 1, yv, c);
        assert(yv * c < (y2 + 1) * c) by (nonlinear_arith)
            requires
                yv * c + mv == pos,
                pos == y1 * c + n * d + rem0 - c,
                n * d <= c * d,
                rem0 <= c,
                mv > -c,
                y2 == y1 + d,
        ;
        lemma_mul_cancel_lt(yv, y2 + 1, c);
    } else {
        assert(c * d <= n * d <= 0) by (nonlinear_arith)
            requires
                0 <= n <= c,
                d < 0,
        ;
        assert((y2 - 1) * c < yv * c) by (nonlinear_arith)
            requires
                yv * c + mv == pos,
                pos == y1 * c + n * d + rem0 - c,
                n * d >= c * d,
                rem0 > 0,
                mv <= 0,
                y2 == y1 + d,
        ;
        lemma_mul_cancel_lt(y2 - 1, yv, c);
        assert(yv * c < (y1 + 1) * c) by (nonlinear_arith)
            requires
                yv * c + mv == pos,
                pos == y1 * c + n * d + rem0 - c,
                n * d <= 0,
                rem0 <= c,
                mv > -c,
        ;
        lemma_mul_cancel_lt(yv, y1 + 1, c);
    }
}

/// The state after `n <= count` steps of a forward line whose first `n`
/// steps ran without overflow: it stays forward-adjusted (its accumulator in
/// `(-count, 0]`), keeps its count, whole step and remainder, sits at the
/// position of `n` whole differences on, and its value lies between `y1`
/// and `y2`.
pub proof fn lemma_fwd_steps_running(y1: i32, y2: i32, count: i32, n: nat)
    requires
        0 < count,
        dda2_init_ok(y2 - y1, count as int),
        n <= count,
        forall|k: nat|
            k < n ==> #[trigger] dda2_init(y2 - y1, count as int, y1 as int, true).steps(
                k,
            ).inc_ok(),
    ensures
        ({
            let s0 = dda2_init(y2 - y1, count as int, y1 as int, true);
            let s = s0.steps(n);
            &&& s.fwd_wf()
            &&& s.m_cnt == s0.m_cnt && s.m_lft == s0.m_lft && s.m_rem == s0.m_rem
            &&& s.position() == y1 * count + n * (y2 - y1) + s0.m_rem - count
            &&& (if y1 <= y2 {
                y1 <= s.m_y <= y2
            } else {
                y2 <= s.m_y <= y1
            })
        }),
    decreases n,
{
    let d = y2 - y1;
    let c = count as int;
    lemma_trunc_div_rem(d, c);
    lemma_new_fwd_wf(y1, y2, count);
    let s0 = dda2_init(d, c, y1 as int, true);
    if n > 0 {
        lemma_fwd_steps_running(y1, y2, count, (n - 1) as nat);
        let p = s0.steps((n - 1) as nat);
        assert(p.inc_ok());
        lemma_inc_step(p);
        assert(p.step() == s0.step());
        assert((n - 1) * d + d == n * d) by (nonlinear_arith);
    } else {
        assert(n * d == 0) by (nonlinear_arith)
            requires
                n == 0,
        ;
    }
    let s = s0.steps(n);
    lemma_value_between(y1 as int, d, c, s0.m_rem as int, n as int, s.m_y as int, s.m_mod as int);
}

/// The state after `n <= count` steps of a forward line whose ends are both
/// above `i32::MIN`: every step up to it ran without overflow, the next one
/// (if `n < count`) can run too, and the state is as
/// `lemma_fwd_steps_running` describes. (A step adds the whole part, which
/// is rounded down, and then one; with an end at `i32::MIN` the value in
/// between can fall below `i32::MIN`.)
pub proof fn lemma_fwd_steps(y1: i32, y2: i32, count: i32, n: nat)
    requires
        0 < count,
        dda2_init_ok(y2 - y1, count as int),
        y1 > i32::MIN,
        y2 > i32::MIN,
        n <= count,
    ensures
        ({
            let s0 = dda2_init(y2 - y1, count as int, y1 as int, true);
            let s = s0.steps(n);
            &&& forall|k: nat| k < n ==> #[trigger] s0.steps(k).inc_ok()
            &&& n < count ==> s.inc_ok()
            &&& s.fwd_wf()
            &&& s.m_cnt == s0.m_cnt && s.m_lft == s0.m_lft && s.m_rem == s0.m_rem
            &&& s.position() == y1 * count + n * (y2 - y1) + s0.m_rem - count
            &&& (if y1 <= y2 {
                y1 <= s.m_y <= y2
            } else {
                y2 <= s.m_y <= y1
            })
        }),
    decreases n,
{
    let d = y2 - y1;
    let c = count as int;
    lemma_trunc_div_rem(d, c);
    lemma_new_fwd_wf(y1, y2, count);
    let s0 = dda2_init(d, c, y1 as int, true);
    if n > 0 {
        lemma_fwd_steps(y1, y2, count, (n - 1) as nat);
    }
    assert forall|k: nat| k < n implies #[trigger] s0.steps(k).inc_ok() by {
        if k + 1 < n {
            lemma_fwd_steps(y1, y2, count, (n - 1) as nat);
        }
    }
    lemma_fwd_steps_running(y1, y2, count, n);
    let s = s0.steps(n);
    assert(s.step() == d) by {
        lemma_new_fwd_wf(y1, y2, count);
    }
    if n < count {
        // the value after the next step, and the accumulator, as integers
        let m = s.m_mod + s.m_rem;
        let yv = if m > 0 {
            s.m_y + s.m_lft + 1
        } else {
            s.m_y + s.m_lft
        };
        let mv = if m > 0 {
            m - c
        } else {
            m
        };
        assert(yv * c + mv == s.position() + s.step()) by (nonlinear_arith)
            requires
                yv == (if m > 0 {
                    s.m_y + s.m_lft + 1
                } else {
                    s.m_y + s.m_lft
                }),
                mv == (if m > 0 {
                    m - c
                } else {
                    m
                }),
                m == s.m_mod + s.m_rem,
                c == s.m_cnt,
                s.position() == s.m_y * s.m_cnt + s.m_mod,
                s.step() == s.m_lft * s.m_cnt + s.m_rem,
        ;
        assert(n * d + d == (n + 1) * d) by (nonlinear_arith);
        lemma_value_between(y1 as int, d, c, s0.m_rem as int, n + 1int, yv, mv);
    }
}

/// A forward line built for `count` steps, whose steps run without
/// overflow, ends after the last one exactly at `y2` with its accumulator
/// back where it started.
pub proof fn lemma_fwd_ends_at_y2(y1: i32, y2: i32, count: i32)
    requires
        0 < count,
        dda2_init_ok(y2 - y1, count as int),
        forall|n: nat|
            n < count ==> #[trigger] dda2_init(y2 - y1, count as int, y1 as int, true).steps(
                n,
            ).inc_ok(),
    ensures
        dda2_init(y2 - y1, count as int, y1 as int, true).steps(count as nat).m_y == y2,
        dda2_init(y2 - y1, count as int, y1 as int, true).steps(count as nat).m_mod == dda2_init(
            y2 - y1,
            count as int,
            y1 as int,
            true,
        ).m_mod,
{
    let d = y2 - y1;
    let c = count as int;
    lemma_trunc_div_rem(d, c);
    let s0 = dda2_init(d, c, y1 as int, true);
    lemma_fwd_steps_running(y1, y2, count, count as nat);
    lemma_new_fwd_wf(y1, y2, count);
    let s = s0.steps(count as nat);
    // the state with value y2 and accumulator rem - cnt has the same position
    let e = Dda2LineIp { m_y: y2, m_mod: (s0.m_rem - c) as i32, ..s };
    assert(c * d == d * c) by (nonlinear_arith);
    assert(y2 * c == y1 * c + d * c) by (nonlinear_arith)
        requires
            d == y2 - y1,
    ;
    lemma_position_determines(s, e);
}

/// A forward line built for `count` steps between ends above `i32::MIN`
/// can take each of them without overflow; after the last one its value is
/// exactly `y2` and its accumulator is back where it started.
pub proof fn lemma_fwd_reaches_end(y1: i32, y2: i32, count: i32)
    requires
        0 < count,
        dda2_init_ok(y2 - y1, count as int),
        y1 > i32::MIN,
        y2 > i32::MIN,
    ensures
        forall|n: nat|
            n < count ==> #[trigger] dda2_init(y2 - y1, count as int, y1 as int, true).steps(
                n,
            ).inc_ok(),
        dda2_init(y2 - y1, count as int, y1 as int, true).steps(count as nat).m_y == y2,
        dda2_init(y2 - y1, count as int, y1 as int, true).steps(count as nat).m_mod == dda2_init(
            y2 - y1,
            count as int,
            y1 as int,
            true,
        ).m_mod,
{
    lemma_fwd_steps(y1, y2, count, count as nat);
    lemma_fwd_ends_at_y2(y1, y2, count);
}

/// Stepping forward, turning to the backward adjustment, stepping back and
/// turning forward again gives back the state one started from.
pub proof fn lemma_inc_dec_round_trip(s: Dda2LineIp)
    requires
        s.fwd_wf(),
        s.inc_ok(),
        s.m_cnt < 0x4000_0000,
        -0x4000_0000 <= s.m_y <= 0x4000_0000,
        -0x4000_0000 <= s.m_lft <= 0x4000_0000,
    ensures
        ({
            let t = s.inc_spec();
            let b = Dda2LineIp { m_mod: (t.m_mod + t.m_cnt) as i32, ..t };
            &&& b.bwd_wf()
            &&& b.dec_ok()
            &&& b.dec_spec().bwd_wf()
            &&& Dda2LineIp {
                m_mod: (b.dec_spec().m_mod - b.m_cnt) as i32,
                ..b.dec_spec()
            } == s
        }),
{
    lemma_inc_step(s);
    let t = s.inc_spec();
    let b = Dda2LineIp { m_mod: (t.m_mod + t.m_cnt) as i32, ..t };
    let m = s.m_mod + s.m_rem;
    if m > 0 {
        assert(t.m_mod == m - s.m_cnt);
        assert(t.m_y == s.m_y + s.m_lft + 1);
        assert(b.m_mod == m);
        assert(b.m_mod <= b.m_rem);
        assert(b.dec_ok());
        assert(b.dec_spec().m_mod == s.m_mod + s.m_cnt);
        assert(b.dec_spec().m_y == s.m_y);
    } else {
        assert(t.m_mod == m);
        assert(t.m_y == s.m_y + s.m_lft);
        assert(b.m_mod == m + s.m_cnt);
        assert(b.m_mod > b.m_rem);
        assert(b.dec_ok());
        assert(b.dec_spec().m_mod == s.m_mod + s.m_cnt);
        assert(b.dec_spec().m_y == s.m_y);
    }
}

/// Stepping never changes a line's count, whole step or remainder: `inc`,
/// `dec` and both adjustments keep them.
pub proof fn lemma_steps_keep_shape(s: Dda2LineIp)
    ensures
        s.inc_spec().m_cnt == s.m_cnt && s.inc_spec().m_lft == s.m_lft && s.inc_spec().m_rem == s.m_rem,
        s.dec_spec().m_cnt == s.m_cnt && s.dec_spec().m_lft == s.m_lft && s.dec_spec().m_rem == s.m_rem,
{
}

/// What `save` stored, `load` restores: a line saved into `buf`, then moved
/// on by steps that keep its count, whole step and remainder, is the saved
/// line again once the stored values are loaded back.
pub proof fn lemma_save_load_round_trip(saved: Dda2LineIp, buf: Seq<i32>, later: Dda2LineIp)
    requires
        buf.len() >= 2,
        later.m_cnt == saved.m_cnt,
        later.m_lft == saved.m_lft,
        later.m_rem == saved.m_rem,
    ensures
        ({
            let stored = buf.update(0, saved.m_mod).update(1, saved.m_y);
            Dda2LineIp { m_mod: stored[0], m_y: stored[1], ..later } == saved
        }),
{
}

/// A subpixel coordinate lies in the 256 subpixels of its pixel.
proof fn lemma_subpixel_floor(v: i32)
    ensures
        256 * (v >> 8u32) <= v < 256 * (v >> 8u32) + 256,
        -0x80_0000 <= v >> 8u32 < 0x80_0000,
{
    assert(256 * (v >> 8u32) <= v < 256 * (v >> 8u32) + 256 && -0x80_0000 <= v >> 8u32 < 0x80_0000)
        by (bit_vector);
}

/// A difference less than `256 c + 256` in size, split into `c > 0` steps,
/// gives steps of at most 512.
proof fn lemma_trunc_div_small(d: int, c: int)
    requires
        c > 0,
        -256 * c - 256 < d < 256 * c + 256,
    ensures
        -512 <= trunc_div(d, c) <= 512,
{
    let a = abs_spec(d);
    vstd::arithmetic::div_mod::lemma_fundamental_div_mod(a, c);
    vstd::arithmetic::div_mod::lemma_mod_bound(a, c);
    let q = a / c;
    assert(q <= 512) by (nonlinear_arith)
        requires
            c > 0,
            a == c * q + a % c,
            0 <= a % c,
            a < 256 * c + 256,
    ;
    assert(q >= 0) by (nonlinear_arith)
        requires
            c > 0,
            a >= 0,
            a == c * q + a % c,
            a % c < c,
    ;
}

//---------------------------------------------LineBresenhamIp
/// Bresenham interpolation of a line given in subpixel coordinates.
pub struct LineBresenhamIp {
    m_x1_lr: i32,
    m_y1_lr: i32,
    m_x2_lr: i32,
    m_y2_lr: i32,
    m_ver: bool,
    m_len: u32,
    m_inc: i32,
    m_interpolator: Dda2LineIp,
}

pub const SUBPIXEL_SHIFT: u32 = 8;

pub const SUBPIXEL_SCALE: u32 = 256;

pub const SUBPIXEL_MASK: u32 = 255;

pub open spec fn abs_spec(v: int) -> int {
    if v < 0 {
        -v
    } else {
        v
    }
}

fn abs_i32(v: i32) -> (r: i32)
    requires
        v != i32::MIN,
    ensures
        r == abs_spec(v as int),
{
    if v < 0 {
        -v
    } else {
        v
    }
}

impl LineBresenhamIp {
    /// The line is walked along y.
    pub closed spec fn spec_ver(&self) -> bool {
        self.m_ver
    }

    /// The low-resolution start point.
    pub closed spec fn spec_x1(&self) -> int {
        self.m_x1_lr as int
    }

    pub closed spec fn spec_y1(&self) -> int {
        self.m_y1_lr as int
    }

    pub closed spec fn spec_len(&self) -> u32 {
        self.m_len
    }

    pub closed spec fn spec_inc(&self) -> int {
        self.m_inc as int
    }

    /// The interpolator of the other coordinate.
    pub closed spec fn spec_interpolator(&self) -> Dda2LineIp {
        self.m_interpolator
    }

    /// A coordinate in low resolution: its whole pixels.
    pub fn line_lr(v: i32) -> (r: i32)
        ensures
            r == v >> 8u32,
    {
        return v >> SUBPIXEL_SHIFT;
    }

    pub fn new(x1: i32, y1: i32, x2: i32, y2: i32) -> (r: LineBresenhamIp)
        requires
            i32::MIN <= x2 - x1 <= i32::MAX,
            i32::MIN <= y2 - y1 <= i32::MAX,
        ensures
            ({
                let dx = abs_spec((x2 >> 8u32) - (x1 >> 8u32));
                let dy = abs_spec((y2 >> 8u32) - (y1 >> 8u32));
                let ver = dx < dy;
                let len = if ver {
                    dy
                } else {
                    dx
                };
                &&& r.spec_ver() == ver
                &&& r.spec_len() == len
                &&& r.spec_x1() == x1 >> 8u32
                &&& r.spec_y1() == y1 >> 8u32
                &&& r.spec_inc() == (if ver {
                    if y2 > y1 {
                        1int
                    } else {
                        -1
                    }
                } else {
                    if x2 > x1 {
                        1int
                    } else {
                        -1
                    }
                })
                &&& r.spec_interpolator() == (if ver {
                    dda2_init(x2 - x1, len, x1 as int, true)
                } else {
                    dda2_init(y2 - y1, len, y1 as int, true)
                })
            }),
    {
        let x1_lr = Self::line_lr(x1);
        let y1_lr = Self::line_lr(y1);
        let x2_lr = Self::line_lr(x2);
        let y2_lr = Self::line_lr(y2);
        proof {
            lemma_subpixel_floor(x1);
            lemma_subpixel_floor(x2);
            lemma_subpixel_floor(y1);
            lemma_subpixel_floor(y2);
        }
        let adx = abs_i32(x2_lr - x1_lr);
        let ady = abs_i32(y2_lr - y1_lr);
        let ver = adx < ady;
        let len = if ver {
            ady
        } else {
            adx
        };
        let inc = if ver {
            if y2 > y1 {
                1
            } else {
                -1
            }
        } else {
            if x2 > x1 {
                1
            } else {
                -1
            }
        };
        proof {
            let c = if len <= 0 {
                1int
            } else {
                len as int
            };
            let dd = if ver {
                x2 - x1
            } else {
                y2 - y1
            };
            // the subpixel difference is less than 256 times the pixel run plus 256
            assert(-256 * c - 256 < dd < 256 * c + 256);
            lemma_trunc_div_rem(dd, c);
            lemma_trunc_div_small(dd, c);
        }
        let interp = Dda2LineIp::new_fwd(
            if ver {
                x1
            } else {
                y1
            },
            if ver {
                x2
            } else {
                y2
            },
            len,
        );
        LineBresenhamIp {
            m_x1_lr: x1_lr,
            m_y1_lr: y1_lr,
            m_x2_lr: x2_lr,
            m_y2_lr: y2_lr,
            m_ver: ver,
            m_len: len as u32,
            m_inc: inc,
            m_interpolator: interp,
        }
    }

    pub fn is_ver(&self) -> (r: bool)
        ensures
            r == self.spec_ver(),
    {
        self.m_ver
    }

    pub fn get_len(&self) -> (r: u32)
        ensures
            r == self.spec_len(),
    {
        self.m_len
    }

    pub fn get_inc(&self) -> (r: i32)
        ensures
            r == self.spec_inc(),
    {
        self.m_inc
    }

    /// A step along x: the interpolated y moves on, x by one pixel.
    pub fn hstep(&mut self)
        requires
            old(self).spec_interpolator().inc_ok(),
            i32::MIN <= old(self).spec_x1() + old(self).spec_inc() <= i32::MAX,
        ensures
            final(self).spec_interpolator() == old(self).spec_interpolator().inc_spec(),
            final(self).spec_x1() == old(self).spec_x1() + old(self).spec_inc(),
            final(self).spec_y1() == old(self).spec_y1(),
            final(self).spec_ver() == old(self).spec_ver(),
            final(self).spec_len() == old(self).spec_len(),
            final(self).spec_inc() == old(self).spec_inc(),
    {
        self.m_interpolator.inc();
        self.m_x1_lr += self.m_inc;
    }

    /// A step along y: the interpolated x moves on, y by one pixel.
    pub fn vstep(&mut self)
        requires
            old(self).spec_interpolator().inc_ok(),
            i32::MIN <= old(self).spec_y1() + old(self).spec_inc() <= i32::MAX,
        ensures
            final(self).spec_interpolator() == old(self).spec_interpolator().inc_spec(),
            final(self).spec_y1() == old(self).spec_y1() + old(self).spec_inc(),
            final(self).spec_x1() == old(self).spec_x1(),
            final(self).spec_ver() == old(self).spec_ver(),
            final(self).spec_len() == old(self).spec_len(),
            final(self).spec_inc() == old(self).spec_inc(),
    {
        self.m_interpolator.inc();
        self.m_y1_lr += self.m_inc;
    }

    pub fn x1(&self) -> (r: i32)
        ensures
            r == self.spec_x1(),
    {
        self.m_x1_lr
    }

    pub fn y1(&self) -> (r: i32)
        ensures
            r == self.spec_y1(),
    {
        self.m_y1_lr
    }

    pub fn x2(&self) -> (r: i32)
        ensures
            r == self.spec_interpolator().m_y >> 8u32,
    {
        self.m_interpolator.y() >> 8
    }

    pub fn y2(&self) -> (r: i32)
        ensures
            r == self.spec_interpolator().m_y >> 8u32,
    {
        self.m_interpolator.y() >> 8
    }

    pub fn x2_hr(&self) -> (r: i32)
        ensures
            r == self.spec_interpolator().m_y,
    {
        self.m_interpolator.y()
    }

    pub fn y2_hr(&self) -> (r: i32)
        ensures
            r == self.spec_interpolator().m_y,
    {
        self.m_interpolator.y()
    }
}

} // verus!
