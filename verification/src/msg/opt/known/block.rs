use vstd::prelude::*;
use vstd::std_specs::convert::FromSpecImpl;

verus! {

/// A Block1 or Block2 option value: the size of the block (`szx`, low 3 bits),
/// whether more blocks follow (bit 3) and the number of the block (the rest).
#[derive(Debug, Clone, Copy, PartialEq, Eq, Structural, Hash)]
pub struct Block(pub u32);

/// The size exponent for a requested block size: the size is clamped to
/// `[16, 1024]` and rounded down to a power of two `2^(szx + 4)`.
pub open spec fn spec_szx(size: u16) -> u32 {
    if size >= 1024 {
        6
    } else if size >= 512 {
        5
    } else if size >= 256 {
        4
    } else if size >= 128 {
        3
    } else if size >= 64 {
        2
    } else if size >= 32 {
        1
    } else {
        0
    }
}

/// The raw value of a block: the number shifted past 4 bits (cut to 32 bits),
/// the "more" flag in bit 3 and the size exponent in the low 3 bits.
pub open spec fn spec_block_value(size: u16, num: u32, more: bool) -> u32 {
    (((num as int * 16) % 0x1_0000_0000) + (if more {
        8int
    } else {
        0int
    }) + spec_szx(size)) as u32
}

/// `2` to the power `e`.
pub open spec fn pow2(e: nat) -> nat
    decreases e,
{
    if e == 0 {
        1
    } else {
        2 * pow2((e - 1) as nat)
    }
}

impl Block {
    /// The raw value of this block
    pub open spec fn value(&self) -> u32 {
        self.0
    }

    /// Create a block of the given size (rounded down to a power of two in
    /// `[16, 1024]`), number, and "more blocks follow" flag
    pub fn new(size: u16, num: u32, more: bool) -> (r: Self)
        ensures
            r.value() == spec_block_value(size, num, more),
    {
        let n0 = num;
        let num = n0 << 4;
        assert(num & 15 == 0 && num as int == (n0 as int * 16) % 0x1_0000_0000) by (bit_vector)
            requires
                num == n0 << 4,
        ;
        let m1: u32 = if more {
            1
        } else {
            0
        };
        let more = m1 << 3;
        assert(more == m1 * 8) by (bit_vector)
            requires
                m1 <= 1,
                more == m1 << 3,
        ;
        let szx: u32 = if size >= 1024 {
            6
        } else if size >= 512 {
            5
        } else if size >= 256 {
            4
        } else if size >= 128 {
            3
        } else if size >= 64 {
            2
        } else if size >= 32 {
            1
        } else {
            0
        };
        let r = num | more | szx;
        assert(r == ((num as int) + (more as int) + (szx as int)) as u32) by (bit_vector)
            requires
                num & 15 == 0,
                more == 0 || more == 8,
                szx < 8,
                r == num | more | szx,
        ;
        Block(r)
    }

    /// The size of the block in bytes: `2^(szx + 4)`, with `szx` at most 6
    pub fn size(&self) -> (r: u16)
        ensures
            r == pow2((if self.0 % 8 < 6 {
                self.0 % 8
            } else {
                6
            }) as nat + 4),
    {
        let v = self.0;
        let low = v & 0b111;
        assert(low == v % 8) by (bit_vector)
            requires
                low == v & 0b111,
        ;
        let szx = if low < 6 {
            low
        } else {
            6
        };
        let mut r: u16 = 16;
        let mut i: u32 = 0;
        assert(pow2(4) == 16) by {
            reveal_with_fuel(pow2, 5);
        }
        while i < szx
            invariant
                0 <= i <= szx <= 6,
                r == pow2(i as nat + 4),
                r <= 1024,
            decreases szx - i,
        {
            assert(pow2(i as nat + 5) == 2 * pow2(i as nat + 4));
            assert(pow2(10) == 1024) by {
                reveal_with_fuel(pow2, 11);
            }
            proof {
                lemma_pow2_mono(i as nat + 5, 10);
            }
            r = r * 2;
            i = i + 1;
        }
        r
    }

    /// Whether more blocks follow this one (bit 3)
    pub fn more(&self) -> (r: bool)
        ensures
            r == ((self.0 / 8) % 2 == 1),
    {
        let v = self.0;
        let b = (v & 0b1000) >> 3;
        assert(b == (v / 8) % 2) by (bit_vector)
            requires
                b == (v & 0b1000) >> 3,
        ;
        b == 1
    }

    /// The number of the block within its sequence (bits 4 and up)
    pub fn num(&self) -> (r: u32)
        ensures
            r == self.0 / 16,
    {
        let v = self.0;
        let r = v >> 4;
        assert(r == v / 16) by (bit_vector)
            requires
                r == v >> 4,
        ;
        r
    }
}

/// Powers of two grow with the exponent.
pub proof fn lemma_pow2_mono(a: nat, b: nat)
    requires
        a <= b,
    ensures
        pow2(a) <= pow2(b),
    decreases b,
{
    if a < b {
        lemma_pow2_mono(a, (b - 1) as nat);
    }
}

impl From<Block> for u32 {
    fn from(b: Block) -> (r: u32) {
        b.0
    }
}

impl FromSpecImpl<Block> for u32 {
    open spec fn obeys_from_spec() -> bool {
        true
    }

    open spec fn from_spec(b: Block) -> u32 {
        b.0
    }
}

impl From<u32> for Block {
    fn from(n: u32) -> (r: Block) {
        Block(n)
    }
}

impl FromSpecImpl<u32> for Block {
    open spec fn obeys_from_spec() -> bool {
        true
    }

    open spec fn from_spec(n: u32) -> Block {
        Block(n)
    }
}

} // verus!
