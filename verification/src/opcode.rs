//! A fetched 16-bit instruction word and its bit-field accessors: nibbles
//! (numbered 0, most significant, to 3), the immediate byte operand and the
//! 12-bit address operand.

use vstd::prelude::*;

verus! {

/// The n-th 4-bit group of an instruction word, counting from the most
/// significant nibble.
pub open spec fn spec_nibble(op: u16, n: u8) -> u16
    recommends
        n <= 3,
{
    if n == 0 {
        (op >> 12) & 0xF
    } else if n == 1 {
        (op >> 8) & 0xF
    } else if n == 2 {
        (op >> 4) & 0xF
    } else {
        op & 0xF
    }
}

/// The immediate byte operand (bits 7-0), `kk` in conventional notation.
pub open spec fn spec_lowest_byte(op: u16) -> u8 {
    (op & 0x00FF) as u8
}

/// The 12-bit address operand (bits 11-0).
pub open spec fn spec_address(op: u16) -> u16 {
    op & 0x0FFF
}

/// Every nibble is a 4-bit value.
pub proof fn lemma_nibble_bound(op: u16, n: u8)
    ensures
        spec_nibble(op, n) <= 0xF,
{
    assert((op >> 12) & 0xF <= 0xF && (op >> 8) & 0xF <= 0xF && (op >> 4) & 0xF <= 0xF && op
        & 0xF <= 0xF) by (bit_vector);
}

/// The address operand is a 12-bit value.
pub proof fn lemma_address_bound(op: u16)
    ensures
        spec_address(op) <= 0xFFF,
{
    assert(op & 0x0FFF <= 0xFFF) by (bit_vector);
}

/// One decoded 16-bit instruction word.
pub struct Opcode {
    pub opcode: u16,
}

impl Opcode {
    pub open spec fn view(&self) -> u16 {
        self.opcode
    }

    pub fn new(opcode: u16) -> (r: Opcode)
        ensures
            r@ == opcode,
    {
        Opcode { opcode }
    }

    /// Bits 7-0: the immediate byte operand.
    pub fn get_lowest_byte(&self) -> (r: u8)
        ensures
            r == spec_lowest_byte(self@),
    {
        (self.opcode & 0x00FF) as u8
    }

    /// The n-th 4-bit group, n = 0 being bits 15-12.
    pub fn get_nibble(&self, nibble: u8) -> (r: usize)
        requires
            nibble <= 3,
        ensures
            r == spec_nibble(self@, nibble),
            r <= 0xF,
    {
        proof {
            lemma_nibble_bound(self.opcode, nibble);
        }
        if nibble == 0 {
            ((self.opcode >> 12) & 0xF) as usize
        } else if nibble == 1 {
            ((self.opcode >> 8) & 0xF) as usize
        } else if nibble == 2 {
            ((self.opcode >> 4) & 0xF) as usize
        } else {
            (self.opcode & 0xF) as usize
        }
    }

    /// Bits 11-0: the 12-bit address operand.
    pub fn get_address(&self) -> (r: usize)
        ensures
            r == spec_address(self@),
            r <= 0xFFF,
    {
        proof {
            lemma_address_bound(self.opcode);
        }
        (self.opcode & 0x0FFF) as usize
    }

    /// The two register-index operands `(x, y)` of two-register instructions.
    pub fn get_xy_register_numbers(&self) -> (r: (usize, usize))
        ensures
            r.0 == spec_nibble(self@, 1),
            r.1 == spec_nibble(self@, 2),
            r.0 <= 0xF && r.1 <= 0xF,
    {
        (self.get_nibble(1), self.get_nibble(2))
    }
}

} // verus!
