//! Gamma correction read from two lookup tables: `dir` from the low
//! resolution to the high one, `inv` back.
use crate::{AggInteger, Gamma};
use vstd::prelude::*;

verus! {

/// Lookup tables of `2^GAMMA_SHIFT` entries of `HiResT` (the direct curve)
/// and `2^HI_RES_SHIFT` entries of `LoResT` (the inverse curve).
pub struct GammaLut<LoResT: AggInteger, HiResT: AggInteger, const GAMMA_SHIFT: u32, const HI_RES_SHIFT: u32> {
    dir_gamma: Vec<HiResT>,
    inv_gamma: Vec<LoResT>,
}

/// The entry of the linear direct table at `i`: `i` scaled up to the high
/// resolution.
pub open spec fn linear_dir<HiResT: AggInteger>(i: u32, gamma_shift: u32, hi_res_shift: u32) -> HiResT {
    HiResT::spec_from_u32(i << ((hi_res_shift - gamma_shift) as u32))
}

/// The entry of the linear inverse table at `i`: `i` scaled down to the low
/// resolution.
pub open spec fn linear_inv<LoResT: AggInteger>(i: u32, gamma_shift: u32, hi_res_shift: u32) -> LoResT {
    LoResT::spec_from_u32(i >> ((hi_res_shift - gamma_shift) as u32))
}

impl<LoResT: AggInteger, HiResT: AggInteger, const GAMMA_SHIFT: u32, const HI_RES_SHIFT: u32> GammaLut<
    LoResT,
    HiResT,
    GAMMA_SHIFT,
    HI_RES_SHIFT,
> {
    /// The direct and the inverse table.
    pub closed spec fn tables(&self) -> (Seq<HiResT>, Seq<LoResT>) {
        (self.dir_gamma@, self.inv_gamma@)
    }

    /// Both tables have their full sizes.
    pub open spec fn sized(&self) -> bool {
        &&& self.tables().0.len() == (1u32 << GAMMA_SHIFT)
        &&& self.tables().1.len() == (1u32 << HI_RES_SHIFT)
    }

    /// Linear tables: the direct one scales up, the inverse one scales down.
    pub fn new_linear() -> (r: Self)
        requires
            GAMMA_SHIFT <= HI_RES_SHIFT < 32,
        ensures
            r.sized(),
            forall|i: int|
                0 <= i < (1u32 << GAMMA_SHIFT) ==> #[trigger] r.tables().0[i] == linear_dir::<HiResT>(
                    i as u32,
                    GAMMA_SHIFT,
                    HI_RES_SHIFT,
                ),
            forall|i: int|
                0 <= i < (1u32 << HI_RES_SHIFT) ==> #[trigger] r.tables().1[i] == linear_inv::<LoResT>(
                    i as u32,
                    GAMMA_SHIFT,
                    HI_RES_SHIFT,
                ),
    {
        let gamma_size: u32 = 1u32 << GAMMA_SHIFT;
        let hi_res_size: u32 = 1u32 << HI_RES_SHIFT;
        let shift = HI_RES_SHIFT - GAMMA_SHIFT;
        let mut dir_gamma: Vec<HiResT> = Vec::new();
        let mut inv_gamma: Vec<LoResT> = Vec::new();
        let mut i: u32 = 0;
        while i < gamma_size
            invariant
                i <= gamma_size,
                shift == HI_RES_SHIFT - GAMMA_SHIFT,
                GAMMA_SHIFT <= HI_RES_SHIFT < 32,
                dir_gamma@.len() == i,
                forall|j: int|
                    0 <= j < i ==> #[trigger] dir_gamma@[j] == linear_dir::<HiResT>(
                        j as u32,
                        GAMMA_SHIFT,
                        HI_RES_SHIFT,
                    ),
            decreases gamma_size - i,
        {
            dir_gamma.push(HiResT::from_u32(i << shift));
            i += 1;
        }
        let mut i: u32 = 0;
        while i < hi_res_size
            invariant
                i <= hi_res_size,
                shift == HI_RES_SHIFT - GAMMA_SHIFT,
                GAMMA_SHIFT <= HI_RES_SHIFT < 32,
                inv_gamma@.len() == i,
                forall|j: int|
                    0 <= j < i ==> #[trigger] inv_gamma@[j] == linear_inv::<LoResT>(
                        j as u32,
                        GAMMA_SHIFT,
                        HI_RES_SHIFT,
                    ),
            decreases hi_res_size - i,
        {
            inv_gamma.push(LoResT::from_u32(i >> shift));
            i += 1;
        }
        GammaLut { dir_gamma: dir_gamma, inv_gamma: inv_gamma }
    }

    /// Sets entry `i` of the direct table to `v` converted to `HiResT`.
    pub fn set_dir_entry(&mut self, i: u32, v: u32)
        requires
            i < old(self).tables().0.len(),
        ensures
            final(self).tables() == (
                old(self).tables().0.update(i as int, HiResT::spec_from_u32(v)),
                old(self).tables().1,
            ),
    {
        self.dir_gamma.set(i as usize, HiResT::from_u32(v));
    }

    /// Sets entry `i` of the inverse table to `v` converted to `LoResT`.
    pub fn set_inv_entry(&mut self, i: u32, v: u32)
        requires
            i < old(self).tables().1.len(),
        ensures
            final(self).tables() == (
                old(self).tables().0,
                old(self).tables().1.update(i as int, LoResT::spec_from_u32(v)),
            ),
    {
        self.inv_gamma.set(i as usize, LoResT::from_u32(v));
    }

    /// The direct table's entry for `v`.
    pub fn dir_at(&self, v: LoResT) -> (r: HiResT)
        requires
            v.spec_into_u32() < self.tables().0.len(),
        ensures
            r == self.tables().0[v.spec_into_u32() as int],
    {
        self.dir_gamma[v.into_u32() as usize]
    }

    /// The inverse table's entry for `v`.
    pub fn inv_at(&self, v: HiResT) -> (r: LoResT)
        requires
            v.spec_into_u32() < self.tables().1.len(),
        ensures
            r == self.tables().1[v.spec_into_u32() as int],
    {
        self.inv_gamma[v.into_u32() as usize]
    }
}

impl Gamma<u8, u8> for GammaLut<u8, u8, 8, 8> {
    open spec fn dir_spec(&self, v: u8) -> u8 {
        self.tables().0[v as int]
    }

    open spec fn inv_spec(&self, v: u8) -> u8 {
        self.tables().1[v as int]
    }

    open spec fn gamma_wf(&self) -> bool {
        self.tables().0.len() == 256 && self.tables().1.len() == 256
    }

    /// The linear tables: both directions change nothing.
    fn new() -> (r: Self)
        ensures
            forall|v: u8| #[trigger] r.dir_spec(v) == v && r.inv_spec(v) == v,
    {
        assert((1u32 << 8u32) == 256u32 && forall|i: u32| i < 256 ==> (i << 0u32) == i && (i >> 0u32)
            == i) by (bit_vector);
        let r = Self::new_linear();
        assert forall|v: u8| #[trigger] r.dir_spec(v) == v && r.inv_spec(v) == v by {
            assert(r.tables().0[v as int] == linear_dir::<u8>(v as u32, 8, 8));
            assert(r.tables().1[v as int] == linear_inv::<u8>(v as u32, 8, 8));
        }
        r
    }

    fn dir(&self, v: u8) -> (r: u8) {
        self.dir_at(v)
    }

    fn inv(&self, v: u8) -> (r: u8) {
        self.inv_at(v)
    }
}

/// With the linear tables a round trip through both directions gives back
/// the value it started from.
pub proof fn lemma_linear_round_trip(g: GammaLut<u8, u8, 8, 8>, v: u8)
    requires
        forall|w: u8| #[trigger] g.dir_spec(w) == w && g.inv_spec(w) == w,
    ensures
        g.inv_spec(g.dir_spec(v)) == v,
{
    assert(g.dir_spec(v) == v);
    assert(g.inv_spec(v) == v);
}

} // verus!
