//! Wrap modes: maps from an arbitrary pixel coordinate into the range of an
//! image, repeating or mirroring the image along the axis.
use crate::ImageWrap;
use vstd::prelude::*;

verus! {

/// A coordinate read as unsigned, shifted by `add` and reduced modulo `period`.
pub open spec fn shifted_mod(v: i32, add: u32, period: u32) -> int {
    ((v as u32) as int + add as int) % (period as int)
}

/// The offset that a repeating mode adds before it reduces: the largest
/// multiple of `period` that does not exceed `0x3FFF_FFFF`.
pub open spec fn repeat_offset(period: u32) -> int {
    period as int * (0x3FFF_FFFFint / period as int)
}

/// The offset that `WrapModeReflect` adds: twice its size times twice the
/// number of times its size fits into `0x3FFF_FFFF`.
pub open spec fn reflect_offset(size: u32) -> int {
    (size as int * 2) * ((0x3FFF_FFFFint / size as int) * 2)
}

/// An index of the doubled period folded back into `0 .. size`: the second
/// half runs backwards.
pub open spec fn reflect_index(value: int, size: int) -> int {
    if value >= size {
        2 * size - value - 1
    } else {
        value
    }
}

/// The mask `0 .. 2^k - 1` where `2^k` is the largest power of two not above
/// `size` (or `1` for a size of zero).
pub open spec fn is_floor_pow2_mask(mask: u32, size: u32) -> bool {
    exists|k: nat|
        #![trigger vstd::bits::low_bits_mask(k)]
        k < 32 && mask == vstd::bits::low_bits_mask(k) && vstd::arithmetic::power2::pow2(k) <= (if size == 0 {
            1
        } else {
            size as int
        }) < vstd::arithmetic::power2::pow2(k + 1)
}

/// `size` is a power of two, as the bit trick `size & (size - 1) == 0` tells.
pub open spec fn pow2_bits(size: u32) -> bool {
    size & ((size - 1) as u32) == 0
}

/// Stepping an index below `m` by one stays below `m`, wrapping to zero.
proof fn lemma_mod_step(x: int, m: int)
    requires
        0 <= x < m,
    ensures
        (x + 1) % m == (if x + 1 == m {
            0
        } else {
            x + 1
        }),
{
    if x + 1 == m {
        vstd::arithmetic::div_mod::lemma_mod_self_0(m);
    } else {
        vstd::arithmetic::div_mod::lemma_small_mod((x + 1) as nat, m as nat);
    }
}

/// Reducing before adding one changes nothing modulo `m`.
proof fn lemma_mod_succ(x: int, m: int)
    requires
        0 <= x,
        0 < m,
    ensures
        ((x % m) + 1) % m == (x + 1) % m,
{
    vstd::arithmetic::div_mod::lemma_add_mod_noop(x, 1, m);
    if m == 1 {
        vstd::arithmetic::div_mod::lemma_mod_bound(x % m + 1, 1);
        vstd::arithmetic::div_mod::lemma_mod_bound(x + 1, 1);
    } else {
        vstd::arithmetic::div_mod::lemma_small_mod(1, m as nat);
    }
}

proof fn lemma_offset_bounds(period: u32)
    requires
        period > 0,
    ensures
        0 <= repeat_offset(period) <= 0x3FFF_FFFF,
        repeat_offset(period) % period as int == 0,
{
    let q = 0x3FFF_FFFFint / period as int;
    assert(0 <= q);
    assert(period as int * q <= 0x3FFF_FFFF) by (nonlinear_arith)
        requires
            q == 0x3FFF_FFFFint / period as int,
            period > 0,
    ;
    assert(0 <= period as int * q) by (nonlinear_arith)
        requires
            q >= 0,
            period > 0,
    ;
    vstd::arithmetic::div_mod::lemma_mod_multiples_vanish(q, 0, period as int);
}

proof fn lemma_reflect_offset_bounds(size: u32)
    requires
        0 < size <= 0x7FFF_FFFF,
    ensures
        0 <= reflect_offset(size) <= 0xFFFF_FFFC,
{
    let q = 0x3FFF_FFFFint / size as int;
    assert(0 <= q);
    assert(size as int * q <= 0x3FFF_FFFF) by (nonlinear_arith)
        requires
            q == 0x3FFF_FFFFint / size as int,
            size > 0,
    ;
    assert((size as int * 2) * (q * 2) == 4 * (size as int * q)) by (nonlinear_arith);
    assert(0 <= size as int * q) by (nonlinear_arith)
        requires
            q >= 0,
            size > 0,
    ;
}

/// Reduces `shifted_mod` of a nonnegative coordinate: the offset is a
/// multiple of the period and drops out.
proof fn lemma_shifted_mod_nonneg(v: i32, add: u32, period: u32)
    requires
        0 <= v,
        period > 0,
        add as int % period as int == 0,
    ensures
        shifted_mod(v, add, period) == v as int % period as int,
{
    let p = period as int;
    let q = add as int / p;
    assert(add as int == p * q) by {
        vstd::arithmetic::div_mod::lemma_fundamental_div_mod(add as int, p);
    }
    assert((v as u32) as int == v as int);
    vstd::arithmetic::div_mod::lemma_mod_multiples_vanish(q, v as int, p);
}

//--------------------------------------------------------WrapModeRepeat
/// Repeats the image: coordinates are taken modulo the size.
pub struct WrapModeRepeat {
    size: u32,
    add: u32,
    value: u32,
}

impl WrapModeRepeat {
    /// The size, the offset added before the reduction, and the index last
    /// handed out.
    pub closed spec fn state(&self) -> (u32, u32, u32) {
        (self.size, self.add, self.value)
    }
}

impl ImageWrap for WrapModeRepeat {
    open spec fn bound(&self) -> u32 {
        self.state().0
    }

    closed spec fn wrap_wf(&self) -> bool {
        &&& 0 < self.size
        &&& self.value < self.size
        &&& self.add == repeat_offset(self.size)
    }

    open spec fn new_ok(size: u32) -> bool {
        size > 0
    }

    open spec fn get_ok(&self, v: i32) -> bool {
        (v as u32) as int + self.state().1 as int <= u32::MAX
    }

    fn new(size: u32) -> (r: WrapModeRepeat)
        ensures
            r.state() == (size, repeat_offset(size) as u32, 0u32),
    {
        proof {
            lemma_offset_bounds(size);
        }
        WrapModeRepeat { size: size, add: size * (0x3FFFFFFF / size), value: 0 }
    }

    fn get(&mut self, v: i32) -> (r: u32)
        ensures
            r == shifted_mod(v, old(self).state().1, old(self).state().0),
            final(self).state() == (old(self).state().0, old(self).state().1, r),
    {
        self.value = (v as u32 + self.add) % self.size;
        self.value
    }

    fn inc(&mut self) -> (r: u32)
        ensures
            r == (old(self).state().2 + 1) % old(self).state().0 as int,
            final(self).state() == (old(self).state().0, old(self).state().1, r),
    {
        proof {
            lemma_mod_step(self.value as int, self.size as int);
        }
        self.value += 1;
        if self.value >= self.size {
            self.value = 0;
        }
        self.value
    }
}

impl WrapModeRepeat {
    /// A nonnegative coordinate is taken modulo the size: the offset drops out.
    pub proof fn lemma_get_nonneg(&self, v: i32)
        requires
            self.wrap_wf(),
            0 <= v,
        ensures
            shifted_mod(v, self.state().1, self.state().0) == v as int % self.state().0 as int,
    {
        lemma_offset_bounds(self.size);
        lemma_shifted_mod_nonneg(v, self.add, self.size);
    }

    /// `inc` after `get(v)` hands out what `get(v + 1)` would, but where the
    /// unsigned reading of `v` wraps (`v == -1`).
    pub proof fn lemma_inc_follows_get(&self, v: i32)
        requires
            self.wrap_wf(),
            v < i32::MAX,
            v != -1,
            self.get_ok(v),
        ensures
            (shifted_mod(v, self.state().1, self.state().0) + 1) % self.state().0 as int
                == shifted_mod((v + 1) as i32, self.state().1, self.state().0),
    {
        assert((((v + 1) as i32) as u32) as u64 == (v as u32) as u64 + 1) by (bit_vector)
            requires
                v < i32::MAX,
                v != -1i32,
        ;
        lemma_mod_succ((v as u32) as int + self.add as int, self.size as int);
    }
}

//---------------------------------------------------WrapModeRepeatPow2
/// Repeats the image with the largest power of two not above its size as
/// the period, reducing by a bit mask.
pub struct WrapModeRepeatPow2 {
    mask: u32,
    value: u32,
}

impl WrapModeRepeatPow2 {
    /// The mask and the index last handed out.
    pub closed spec fn state(&self) -> (u32, u32) {
        (self.mask, self.value)
    }
}

impl ImageWrap for WrapModeRepeatPow2 {
    open spec fn bound(&self) -> u32 {
        (self.state().0 + 1) as u32
    }

    closed spec fn wrap_wf(&self) -> bool {
        &&& exists|k: nat| #![trigger vstd::bits::low_bits_mask(k)] k < 32 && self.mask == vstd::bits::low_bits_mask(k)
        &&& self.value <= self.mask
    }

    open spec fn new_ok(size: u32) -> bool {
        true
    }

    open spec fn get_ok(&self, v: i32) -> bool {
        true
    }

    fn new(size: u32) -> (r: WrapModeRepeatPow2)
        ensures
            is_floor_pow2_mask(r.state().0, size),
            r.state().1 == 0,
    {
        let mut mask: u32 = 1;
        let ghost mut k: nat = 1;
        proof {
            vstd::arithmetic::power2::lemma_pow2_unfold(1);
            vstd::arithmetic::power2::lemma2_to64();
            vstd::bits::lemma_low_bits_mask_values();
        }
        while mask < size
            invariant
                1 <= k <= 32,
                mask == vstd::bits::low_bits_mask(k),
                vstd::arithmetic::power2::pow2((k - 1) as nat) <= (if size == 0 {
                    1
                } else {
                    size as int
                }),
            decreases 32 - k,
        {
            proof {
                vstd::arithmetic::power2::lemma_pow2_pos(k);
                if k == 32 {
                    vstd::bits::lemma_low_bits_mask_values();
                    assert(false);
                }
                assert(vstd::arithmetic::power2::pow2(k) == mask + 1);
                assert(vstd::arithmetic::power2::pow2(k) <= size);
                vstd::arithmetic::power2::lemma2_to64();
                if k < 31 {
                    vstd::arithmetic::power2::lemma_pow2_strictly_increases(k, 31);
                }
                assert(mask < 0x8000_0000);
                vstd::arithmetic::power2::lemma_pow2_unfold(k + 1);
                vstd::bits::lemma_low_bits_mask_unfold(k + 1);
            }
            let old_mask = mask;
            mask = (mask << 1) | 1;
            assert(mask == 2 * old_mask + 1) by (bit_vector)
                requires
                    mask == (old_mask << 1) | 1,
                    old_mask < 0x8000_0000,
            ;
            proof {
                k = k + 1;
            }
        }
        let old_mask = mask;
        mask >>= 1;
        assert(mask == old_mask / 2) by (bit_vector)
            requires
                mask == old_mask >> 1,
        ;
        proof {
            vstd::bits::lemma_low_bits_mask_div2(k);
            vstd::arithmetic::power2::lemma_pow2_pos((k - 1) as nat);
            assert(vstd::arithmetic::power2::pow2(k) == old_mask + 1);
            vstd::arithmetic::power2::lemma_pow2_unfold(k);
            let kk = (k - 1) as nat;
            assert(mask == vstd::bits::low_bits_mask(kk));
            assert(vstd::arithmetic::power2::pow2(kk + 1) == vstd::arithmetic::power2::pow2(k));
            assert(is_floor_pow2_mask(mask, size));
        }
        WrapModeRepeatPow2 { mask: mask, value: 0 }
    }

    fn get(&mut self, v: i32) -> (r: u32)
        ensures
            r == (v as u32) & old(self).state().0,
            r as int == (v as u32) as int % (old(self).state().0 as int + 1),
            final(self).state() == (old(self).state().0, r),
    {
        proof {
            let k = choose|k: nat| #![trigger vstd::bits::low_bits_mask(k)] k < 32 && self.mask == vstd::bits::low_bits_mask(k);
            vstd::bits::lemma_u32_low_bits_mask_is_mod(v as u32, k);
            vstd::bits::lemma_u32_pow2_no_overflow(k);
        }
        let x = v as u32;
        let m = self.mask;
        self.value = x & m;
        assert(x & m <= m) by (bit_vector);
        self.value
    }

    fn inc(&mut self) -> (r: u32)
        ensures
            r == (old(self).state().1 + 1) % (old(self).state().0 as int + 1),
            final(self).state() == (old(self).state().0, r),
    {
        proof {
            let k = choose|k: nat| #![trigger vstd::bits::low_bits_mask(k)] k < 32 && self.mask == vstd::bits::low_bits_mask(k);
            vstd::bits::lemma_u32_pow2_no_overflow(k);
        }
        proof {
            lemma_mod_step(self.value as int, self.mask as int + 1);
        }
        self.value += 1;
        if self.value > self.mask {
            self.value = 0;
        }
        self.value
    }
}

impl WrapModeRepeatPow2 {
    /// `inc` after `get(v)` hands out what `get(v + 1)` would, for every `v`.
    pub proof fn lemma_inc_follows_get(&self, v: i32)
        requires
            self.wrap_wf(),
            v < i32::MAX,
        ensures
            (((v as u32) as int % (self.state().0 as int + 1)) + 1) % (self.state().0 as int + 1)
                == (((v + 1) as i32) as u32) as int % (self.state().0 as int + 1),
    {
        let k = choose|k: nat| #![trigger vstd::bits::low_bits_mask(k)] k < 32 && self.mask == vstd::bits::low_bits_mask(k);
        vstd::bits::lemma_u32_pow2_no_overflow(k);
        let p = self.mask as int + 1;
        if v == -1 {
            vstd::bits::lemma_u32_low_bits_mask_is_mod(v as u32, k);
            let m = self.mask;
            assert((v as u32) & m == m) by (bit_vector)
                requires
                    v == -1i32,
            ;
            vstd::arithmetic::div_mod::lemma_mod_self_0(p);
            assert((((v + 1) as i32) as u32) == 0);
        } else {
            assert((((v + 1) as i32) as u32) as u64 == (v as u32) as u64 + 1) by (bit_vector)
                requires
                    v < i32::MAX,
                    v != -1i32,
            ;
            lemma_mod_succ((v as u32) as int, p);
        }
    }
}

//----------------------------------------------WrapModeRepeatAutoPow2
/// Repeats the image, reducing by a bit mask when the size is a power of
/// two and by a division otherwise.
pub struct WrapModeRepeatAutoPow2 {
    size: u32,
    add: u32,
    mask: u32,
    value: u32,
}

impl WrapModeRepeatAutoPow2 {
    /// The size, the offset, the mask (zero when the division is used) and
    /// the index last handed out.
    pub closed spec fn state(&self) -> (u32, u32, u32, u32) {
        (self.size, self.add, self.mask, self.value)
    }
}

impl ImageWrap for WrapModeRepeatAutoPow2 {
    open spec fn bound(&self) -> u32 {
        self.state().0
    }

    closed spec fn wrap_wf(&self) -> bool {
        &&& 0 < self.size
        &&& self.value < self.size
        &&& self.mask == (if pow2_bits(self.size) {
            (self.size - 1) as u32
        } else {
            0
        })
        &&& self.add == repeat_offset(self.size)
    }

    open spec fn new_ok(size: u32) -> bool {
        size > 0
    }

    open spec fn get_ok(&self, v: i32) -> bool {
        self.state().2 != 0 || (v as u32) as int + self.state().1 as int <= u32::MAX
    }

    fn new(size: u32) -> (r: WrapModeRepeatAutoPow2)
        ensures
            r.state() == (
                size,
                repeat_offset(size) as u32,
                if pow2_bits(size) {
                    (size - 1) as u32
                } else {
                    0u32
                },
                0u32,
            ),
    {
        proof {
            lemma_offset_bounds(size);
        }
        let mask = if size & (size - 1) == 0 {
            size - 1
        } else {
            0
        };
        WrapModeRepeatAutoPow2 { size: size, add: size * (0x3FFFFFFF / size), mask: mask, value: 0 }
    }

    fn get(&mut self, v: i32) -> (r: u32)
        ensures
            r == (if old(self).state().2 != 0 {
                ((v as u32) & old(self).state().2) as int
            } else {
                shifted_mod(v, old(self).state().1, old(self).state().0)
            }),
            final(self).state() == (
                old(self).state().0,
                old(self).state().1,
                old(self).state().2,
                r,
            ),
    {
        if self.mask != 0 {
            let x = v as u32;
            let m = self.mask;
            self.value = x & m;
            assert(x & m <= m) by (bit_vector);
        } else {
            self.value = (v as u32 + self.add) % self.size;
        }
        self.value
    }

    fn inc(&mut self) -> (r: u32)
        ensures
            r == (old(self).state().3 + 1) % old(self).state().0 as int,
            final(self).state() == (
                old(self).state().0,
                old(self).state().1,
                old(self).state().2,
                r,
            ),
    {
        proof {
            lemma_mod_step(self.value as int, self.size as int);
        }
        self.value += 1;
        if self.value >= self.size {
            self.value = 0;
        }
        self.value
    }
}

impl WrapModeRepeatAutoPow2 {
    /// Whichever reduction it picks, a nonnegative coordinate is taken
    /// modulo the size.
    pub proof fn lemma_get_nonneg(&self, v: i32)
        requires
            self.wrap_wf(),
            0 <= v,
        ensures
            (if self.state().2 != 0 {
                ((v as u32) & self.state().2) as int
            } else {
                shifted_mod(v, self.state().1, self.state().0)
            }) == v as int % self.state().0 as int,
    {
        lemma_offset_bounds(self.size);
        if self.mask != 0 {
            lemma_pow2_bits_mask(self.size, v as u32);
        } else {
            lemma_shifted_mod_nonneg(v, self.add, self.size);
        }
    }
}

/// With a power-of-two size, masking by `size - 1` is the reduction modulo
/// the size.
proof fn lemma_pow2_bits_mask(size: u32, x: u32)
    requires
        size > 0,
        pow2_bits(size),
    ensures
        (x & ((size - 1) as u32)) as int == x as int % size as int,
{
    let k = lemma_pow2_bits_exp(size);
    vstd::bits::lemma_u32_low_bits_mask_is_mod(x, k);
    vstd::bits::lemma_u32_pow2_no_overflow(k);
}

/// A size that passes the bit trick is `2^k` for some `k < 32`.
proof fn lemma_pow2_bits_exp(size: u32) -> (k: nat)
    requires
        size > 0,
        pow2_bits(size),
    ensures
        k < 32,
        vstd::arithmetic::power2::pow2(k) == size,
        vstd::bits::low_bits_mask(k) == size - 1,
{
    vstd::bits::lemma_low_bits_mask_values();
    vstd::arithmetic::power2::lemma2_to64();
    vstd::arithmetic::power2::lemma2_to64_rest();
    assert(size == 0x1 || size == 0x2 || size == 0x4 || size == 0x8 || size == 0x10 || size == 0x20
        || size == 0x40 || size == 0x80 || size == 0x100 || size == 0x200 || size == 0x400
        || size == 0x800 || size == 0x1000 || size == 0x2000 || size == 0x4000 || size == 0x8000
        || size == 0x1_0000 || size == 0x2_0000 || size == 0x4_0000 || size == 0x8_0000
        || size == 0x10_0000 || size == 0x20_0000 || size == 0x40_0000 || size == 0x80_0000
        || size == 0x100_0000 || size == 0x200_0000 || size == 0x400_0000 || size == 0x800_0000
        || size == 0x1000_0000 || size == 0x2000_0000 || size == 0x4000_0000
        || size == 0x8000_0000) by (bit_vector)
        requires
            size > 0,
            size & ((size - 1) as u32) == 0,
    ;
    if size == 0x1 { 0 }
    else if size == 0x2 { 1 }
    else if size == 0x4 { 2 }
    else if size == 0x8 { 3 }
    else if size == 0x10 { 4 }
    else if size == 0x20 { 5 }
    else if size == 0x40 { 6 }
    else if size == 0x80 { 7 }
    else if size == 0x100 { 8 }
    else if size == 0x200 { 9 }
    else if size == 0x400 { 10 }
    else if size == 0x800 { 11 }
    else if size == 0x1000 { 12 }
    else if size == 0x2000 { 13 }
    else if size == 0x4000 { 14 }
    else if size == 0x8000 { 15 }
    else if size == 0x1_0000 { 16 }
    else if size == 0x2_0000 { 17 }
    else if size == 0x4_0000 { 18 }
    else if size == 0x8_0000 { 19 }
    else if size == 0x10_0000 { 20 }
    else if size == 0x20_0000 { 21 }
    else if size == 0x40_0000 { 22 }
    else if size == 0x80_0000 { 23 }
    else if size == 0x100_0000 { 24 }
    else if size == 0x200_0000 { 25 }
    else if size == 0x400_0000 { 26 }
    else if size == 0x800_0000 { 27 }
    else if size == 0x1000_0000 { 28 }
    else if size == 0x2000_0000 { 29 }
    else if size == 0x4000_0000 { 30 }
    else { 31 }
}

//-------------------------------------------------------WrapModeReflect
/// Mirrors the image: the period is twice the size and its second half
/// runs backwards.
pub struct WrapModeReflect {
    size: u32,
    size2: u32,
    add: u32,
    value: u32,
}

impl WrapModeReflect {
    /// The size, twice the size, the offset and the unfolded index last
    /// reached.
    pub closed spec fn state(&self) -> (u32, u32, u32, u32) {
        (self.size, self.size2, self.add, self.value)
    }
}

impl ImageWrap for WrapModeReflect {
    open spec fn bound(&self) -> u32 {
        self.state().0
    }

    closed spec fn wrap_wf(&self) -> bool {
        &&& 0 < self.size <= 0x7FFF_FFFF
        &&& self.size2 == 2 * self.size
        &&& self.value < self.size2
        &&& self.add == reflect_offset(self.size)
    }

    open spec fn new_ok(size: u32) -> bool {
        0 < size <= 0x7FFF_FFFF
    }

    open spec fn get_ok(&self, v: i32) -> bool {
        (v as u32) as int + self.state().2 as int <= u32::MAX
    }

    fn new(size: u32) -> (r: WrapModeReflect)
        ensures
            r.state() == (size, (2 * size) as u32, reflect_offset(size) as u32, 0u32),
    {
        proof {
            lemma_reflect_offset_bounds(size);
        }
        WrapModeReflect {
            size: size,
            size2: size * 2,
            add: size * 2 * (0x3FFFFFFF / size * 2),
            value: 0,
        }
    }

    fn get(&mut self, v: i32) -> (r: u32)
        ensures
            r == reflect_index(
                shifted_mod(v, old(self).state().2, old(self).state().1),
                old(self).state().0 as int,
            ),
            final(self).state() == (
                old(self).state().0,
                old(self).state().1,
                old(self).state().2,
                shifted_mod(v, old(self).state().2, old(self).state().1) as u32,
            ),
    {
        self.value = (v as u32 + self.add) % self.size2;
        if self.value >= self.size {
            self.size2 - self.value - 1
        } else {
            self.value
        }
    }

    fn inc(&mut self) -> (r: u32)
        ensures
            final(self).state() == (
                old(self).state().0,
                old(self).state().1,
                old(self).state().2,
                ((old(self).state().3 + 1) % old(self).state().1 as int) as u32,
            ),
            r == reflect_index(final(self).state().3 as int, old(self).state().0 as int),
    {
        proof {
            lemma_mod_step(self.value as int, self.size2 as int);
        }
        self.value += 1;
        if self.value >= self.size2 {
            self.value = 0;
        }
        if self.value >= self.size {
            self.size2 - self.value - 1
        } else {
            self.value
        }
    }
}

//---------------------------------------------WrapModeReflectAutoPow2
/// Mirrors the image, reducing by a bit mask when twice the size is a power
/// of two and by a wrapping division otherwise.
pub struct WrapModeReflectAutoPow2 {
    size: u32,
    size2: u32,
    add: u32,
    mask: u32,
    value: u32,
}

impl WrapModeReflectAutoPow2 {
    /// The size, twice the size, the offset, the mask (zero when the
    /// division is used) and the unfolded index last reached.
    pub closed spec fn state(&self) -> (u32, u32, u32, u32, u32) {
        (self.size, self.size2, self.add, self.mask, self.value)
    }
}

impl ImageWrap for WrapModeReflectAutoPow2 {
    open spec fn bound(&self) -> u32 {
        self.state().0
    }

    closed spec fn wrap_wf(&self) -> bool {
        &&& 0 < self.size <= 0x7FFF_FFFF
        &&& self.size2 == 2 * self.size
        &&& self.value < self.size2
        &&& self.add == repeat_offset(self.size2)
        &&& self.mask == (if pow2_bits(self.size2) {
            (self.size2 - 1) as u32
        } else {
            0
        })
    }

    open spec fn new_ok(size: u32) -> bool {
        0 < size <= 0x7FFF_FFFF
    }

    open spec fn get_ok(&self, v: i32) -> bool {
        true
    }

    fn new(size: u32) -> (r: WrapModeReflectAutoPow2)
        ensures
            r.state() == (
                size,
                (2 * size) as u32,
                repeat_offset((2 * size) as u32) as u32,
                if pow2_bits((2 * size) as u32) {
                    (2 * size - 1) as u32
                } else {
                    0u32
                },
                0u32,
            ),
    {
        let size2 = size * 2;
        proof {
            lemma_offset_bounds(size2);
        }
        let add = size2 * (0x3FFFFFFF / size2);
        let mask = if size2 & (size2 - 1) == 0 {
            size2 - 1
        } else {
            0
        };
        WrapModeReflectAutoPow2 { size: size, size2: size2, add: add, mask: mask, value: 0 }
    }

    fn get(&mut self, v: i32) -> (r: u32)
        ensures
            final(self).state() == (
                old(self).state().0,
                old(self).state().1,
                old(self).state().2,
                old(self).state().3,
                (if old(self).state().3 != 0 {
                    ((v as u32) & old(self).state().3) as int
                } else {
                    vstd::wrapping::u32_specs::wrapping_add(old(self).state().2, v as u32) as int
                        % old(self).state().1 as int
                }) as u32,
            ),
            r == reflect_index(final(self).state().4 as int, old(self).state().0 as int),
    {
        self.value = if self.mask != 0 {
            let x = v as u32;
            let m = self.mask;
            assert(x & m <= m) by (bit_vector);
            x & m
        } else {
            (self.add.wrapping_add(v as u32)) % self.size2
        };
        if self.value >= self.size {
            self.size2 - self.value - 1
        } else {
            self.value
        }
    }

    fn inc(&mut self) -> (r: u32)
        ensures
            final(self).state() == (
                old(self).state().0,
                old(self).state().1,
                old(self).state().2,
                old(self).state().3,
                ((old(self).state().4 + 1) % old(self).state().1 as int) as u32,
            ),
            r == reflect_index(final(self).state().4 as int, old(self).state().0 as int),
    {
        proof {
            lemma_mod_step(self.value as int, self.size2 as int);
        }
        self.value += 1;
        if self.value >= self.size2 {
            self.value = 0;
        }
        if self.value >= self.size {
            self.size2 - self.value - 1
        } else {
            self.value
        }
    }
}

/// Folding the doubled period back gives an index below the size, and it
/// reads the second half backwards: indices `i` and `2 * size - 1 - i` meet.
pub proof fn lemma_reflect_index_symmetric(i: int, size: int)
    requires
        0 < size,
        0 <= i < 2 * size,
    ensures
        0 <= reflect_index(i, size) < size,
        reflect_index(i, size) == reflect_index(2 * size - 1 - i, size),
{
}

} // verus!
