use vstd::prelude::*;

verus! {

/// Bits 0..12 of an opcode word: an address.
pub open spec fn nnn_of(op: u16) -> u16 {
    op & 0xFFF
}

/// Bits 0..8 of an opcode word: an immediate byte.
pub open spec fn kk_of(op: u16) -> u8 {
    (op & 0xFF) as u8
}

/// Bits 8..12 of an opcode word: a register index.
pub open spec fn x_of(op: u16) -> usize {
    ((op >> 8u16) & 0xF) as usize
}

/// Bits 4..8 of an opcode word: a register index.
pub open spec fn y_of(op: u16) -> usize {
    ((op >> 4u16) & 0xF) as usize
}

/// Bits 0..4 of an opcode word.
pub open spec fn low_nibble_of(op: u16) -> u8 {
    (op & 0xF) as u8
}

/// Bits 12..16 of an opcode word: the opcode family.
pub open spec fn high_nibble_of(op: u16) -> u8 {
    ((op >> 12u16) & 0xF) as u8
}

/// Every field lies in its width.
pub proof fn lemma_fields_bounded(op: u16)
    ensures
        nnn_of(op) < 0x1000,
        x_of(op) < 16,
        y_of(op) < 16,
        low_nibble_of(op) < 16,
        high_nibble_of(op) < 16,
{
    assert(op & 0xFFF < 0x1000 && (op >> 8u16) & 0xF < 16 && (op >> 4u16) & 0xF < 16 && op & 0xF < 16
        && (op >> 12u16) & 0xF < 16) by (bit_vector);
}

/// One 16-bit opcode word, with its fixed bit-fields.
#[derive(Clone, Copy, Debug, PartialEq, Eq, Structural)]
pub struct Instruction {
    instruction: u16,
}

impl View for Instruction {
    type V = u16;

    closed spec fn view(&self) -> u16 {
        self.instruction
    }
}

impl Instruction {
    /// The instruction whose opcode word is `op`.
    pub closed spec fn from_op(op: u16) -> Instruction {
        Instruction { instruction: op }
    }

    pub proof fn lemma_from_op_view(op: u16)
        ensures
            (#[trigger] Instruction::from_op(op))@ == op,
    {
    }

    pub fn new(instruction: u16) -> (r: Self)
        ensures
            r@ == instruction,
            r == Instruction::from_op(instruction),
    {
        Self { instruction }
    }

    pub fn nnn(&self) -> (r: u16)
        ensures
            r == nnn_of(self@),
            r < 0x1000,
    {
        proof {
            let op = self.instruction;
            assert(op & 0xFFF < 0x1000) by (bit_vector);
        }
        self.instruction & 0xFFF
    }

    pub fn kk(&self) -> (r: u8)
        ensures
            r == kk_of(self@),
    {
        (self.instruction & 0xFF) as u8
    }

    pub fn x(&self) -> (r: usize)
        ensures
            r == x_of(self@),
            r < 16,
    {
        proof {
            let op = self.instruction;
            assert((op >> 8u16) & 0xF < 16) by (bit_vector);
        }
        ((self.instruction >> 8u16) & 0xF) as usize
    }

    pub fn y(&self) -> (r: usize)
        ensures
            r == y_of(self@),
            r < 16,
    {
        proof {
            let op = self.instruction;
            assert((op >> 4u16) & 0xF < 16) by (bit_vector);
        }
        ((self.instruction >> 4u16) & 0xF) as usize
    }

    pub fn low_nibble(&self) -> (r: u8)
        ensures
            r == low_nibble_of(self@),
            r < 16,
    {
        proof {
            let op = self.instruction;
            assert(op & 0xF < 16) by (bit_vector);
        }
        (self.instruction & 0xF) as u8
    }

    pub fn high_nibble(&self) -> (r: u8)
        ensures
            r == high_nibble_of(self@),
            r < 16,
    {
        proof {
            let op = self.instruction;
            assert((op >> 12u16) & 0xF < 16) by (bit_vector);
        }
        ((self.instruction >> 12u16) & 0xF) as u8
    }
}

} // verus!
