//! Walks the bits of a byte string, most significant bit of each byte first.
use vstd::prelude::*;

verus! {

/// The place of a one-bit mask within its byte, counted from the most
/// significant bit.
pub open spec fn mask_index(mask: u8) -> nat {
    if mask == 0x80 {
        0
    } else if mask == 0x40 {
        1
    } else if mask == 0x20 {
        2
    } else if mask == 0x10 {
        3
    } else if mask == 0x08 {
        4
    } else if mask == 0x04 {
        5
    } else if mask == 0x02 {
        6
    } else {
        7
    }
}

/// The one-bit mask at place `k` of a byte, counted from the most
/// significant bit.
pub open spec fn index_mask(k: nat) -> u8 {
    if k == 0 {
        0x80
    } else if k == 1 {
        0x40
    } else if k == 2 {
        0x20
    } else if k == 3 {
        0x10
    } else if k == 4 {
        0x08
    } else if k == 5 {
        0x04
    } else if k == 6 {
        0x02
    } else {
        0x01
    }
}

/// Bit `pos` of `bits`, counted from the most significant bit of the first
/// byte: nonzero exactly when that bit is set.
pub open spec fn bit_at(bits: Seq<u8>, pos: nat) -> u32 {
    (bits[(pos / 8) as int] & index_mask(pos % 8)) as u32
}

/// A position in a byte string: a byte and a one-bit mask within it.
pub struct BitsetIterator<'a> {
    bits: &'a [u8],
    byte: usize,
    mask: u8,
}

proof fn shift_facts(offset: u32)
    by (bit_vector)
    ensures
        offset & 7 == offset % 8,
        offset >> 3u32 == offset / 8,
        0x80u8 >> 0u32 == 0x80u8,
        0x80u8 >> 1u32 == 0x40u8,
        0x80u8 >> 2u32 == 0x20u8,
        0x80u8 >> 3u32 == 0x10u8,
        0x80u8 >> 4u32 == 0x08u8,
        0x80u8 >> 5u32 == 0x04u8,
        0x80u8 >> 6u32 == 0x02u8,
        0x80u8 >> 7u32 == 0x01u8,
        0x40u8 >> 1u32 == 0x20u8,
        0x20u8 >> 1u32 == 0x10u8,
        0x10u8 >> 1u32 == 0x08u8,
        0x08u8 >> 1u32 == 0x04u8,
        0x04u8 >> 1u32 == 0x02u8,
        0x02u8 >> 1u32 == 0x01u8,
        0x01u8 >> 1u32 == 0x00u8,
{
}

impl<'a> BitsetIterator<'a> {
    /// The bytes walked.
    pub closed spec fn bytes(&self) -> Seq<u8> {
        self.bits@
    }

    /// The number of the current bit, counted from the most significant bit
    /// of the first byte.
    pub closed spec fn position(&self) -> nat {
        self.byte as nat * 8 + mask_index(self.mask)
    }

    /// The mask holds exactly one bit.
    pub closed spec fn wf(&self) -> bool {
        self.mask == index_mask(mask_index(self.mask))
    }

    /// Starts at bit `offset`.
    pub fn new(bits: &'a [u8], offset: u32) -> (r: BitsetIterator<'a>)
        ensures
            r.wf(),
            r.bytes() == bits@,
            r.position() == offset,
    {
        proof {
            shift_facts(offset);
        }
        let k = offset & 7;
        BitsetIterator { bits: bits, byte: (offset >> 3u32) as usize, mask: 0x80u8 >> k }
    }

    /// Moves to the next bit.
    pub fn inc(&mut self)
        requires
            old(self).wf(),
            old(self).position() / 8 < usize::MAX,
        ensures
            final(self).wf(),
            final(self).bytes() == old(self).bytes(),
            final(self).position() == old(self).position() + 1,
    {
        proof {
            shift_facts(0);
        }
        self.mask = self.mask >> 1u32;
        if self.mask == 0 {
            self.byte = self.byte + 1;
            self.mask = 0x80;
        }
    }

    /// The current bit: nonzero exactly when it is set.
    pub fn bit(&self) -> (r: u32)
        requires
            self.wf(),
            self.position() / 8 < self.bytes().len(),
        ensures
            r == bit_at(self.bytes(), self.position()),
    {
        (self.bits[self.byte] & self.mask) as u32
    }
}

} // verus!
