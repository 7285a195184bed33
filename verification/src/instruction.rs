//! The instruction decoder: one 16-bit word split into its opcode fields.

use vstd::prelude::*;

verus! {

/// A decoded instruction word.
///
/// All fields are cut from the same word, so they overlap: `nn` holds `y`
/// and `n`, and `nnn` holds `x`, `y` and `n`.
#[derive(Debug, Clone, Copy)]
pub struct Instruction {
    /// The word as it was fetched.
    pub full: u16,
    /// The top four bits: the operation selector.
    pub op: u8,
    /// Bits 8 to 11: the first register index.
    pub x: usize,
    /// Bits 4 to 7: the second register index.
    pub y: usize,
    /// The bottom four bits.
    pub n: u8,
    /// The bottom eight bits.
    pub nn: u8,
    /// The bottom twelve bits: an address.
    pub nnn: u16,
}

/// The fields of the word `full`, each given by division and remainder.
pub open spec fn decode(full: u16) -> Instruction {
    Instruction {
        full,
        op: (full / 4096) as u8,
        x: ((full / 256) % 16) as usize,
        y: ((full / 16) % 16) as usize,
        n: (full % 16) as u8,
        nn: (full % 256) as u8,
        nnn: (full % 4096) as u16,
    }
}

impl Instruction {
    /// Every field lies within its width: a nibble for `op`, `x`, `y` and
    /// `n`, twelve bits for `nnn`.
    pub open spec fn wf(self) -> bool {
        &&& self.op < 16
        &&& self.x < 16
        &&& self.y < 16
        &&& self.n < 16
        &&& self.nnn < 4096
    }

    /// Splits a word into its fields.
    pub fn from(full: u16) -> (ins: Instruction)
        ensures
            ins == decode(full),
            ins.wf(),
    {
        assert(full >> 12 == full / 4096) by (bit_vector);
        assert((full >> 8) & 0xF == (full / 256) % 16) by (bit_vector);
        assert((full >> 4) & 0xF == (full / 16) % 16) by (bit_vector);
        assert(full & 0xF == full % 16) by (bit_vector);
        assert(full & 0xFF == full % 256) by (bit_vector);
        assert(full & 0xFFF == full % 4096) by (bit_vector);
        Instruction {
            full,
            op: (full >> 12) as u8,
            x: ((full >> 8) & 0xF) as usize,
            y: ((full >> 4) & 0xF) as usize,
            n: (full & 0xF) as u8,
            nn: (full & 0xFF) as u8,
            nnn: full & 0xFFF,
        }
    }
}

/// Every field of a decoded word lies in the range its width allows, and the
/// wider fields are made of the narrower ones.
pub proof fn lemma_decode_fields(full: u16)
    ensures
        decode(full).op < 16,
        decode(full).x < 16,
        decode(full).y < 16,
        decode(full).n < 16,
        decode(full).nnn < 4096,
        decode(full).nn == decode(full).y * 16 + decode(full).n,
        decode(full).nnn == decode(full).x * 256 + decode(full).nn,
        full == decode(full).op * 4096 + decode(full).nnn,
{
}

} // verus!
