use vstd::prelude::*;

verus! {

/// Byte that opens a `Constant` instruction.
pub const OP_CONSTANT: u8 = 0;

/// Byte of the `Add` instruction.
pub const OP_ADD: u8 = 1;

/// Byte of the `Sub` instruction.
pub const OP_SUB: u8 = 2;

/// Byte of the `Mul` instruction.
pub const OP_MUL: u8 = 3;

/// Byte of the `Div` instruction.
pub const OP_DIV: u8 = 4;

/// Byte of the `True` instruction.
pub const OP_TRUE: u8 = 5;

/// Byte of the `False` instruction.
pub const OP_FALSE: u8 = 6;

/// Byte of the `Pop` instruction.
pub const OP_POP: u8 = 7;

/// One instruction of the stack machine, with its operand if it has one.
#[derive(Clone, Copy, Debug, PartialEq, Eq, Structural)]
pub enum Instruction {
    /// Push the constant at the given pool index.
    Constant(u16),
    Add,
    Sub,
    Mul,
    Div,
    True,
    False,
    Pop,
}

/// The opcode byte of an instruction.
pub open spec fn opcode_of(ins: Instruction) -> u8 {
    match ins {
        Instruction::Constant(_) => OP_CONSTANT,
        Instruction::Add => OP_ADD,
        Instruction::Sub => OP_SUB,
        Instruction::Mul => OP_MUL,
        Instruction::Div => OP_DIV,
        Instruction::True => OP_TRUE,
        Instruction::False => OP_FALSE,
        Instruction::Pop => OP_POP,
    }
}

/// The bytes of one instruction: its opcode, then a two-byte big-endian
/// index for `Constant`, nothing for the others.
pub open spec fn instruction_bytes(ins: Instruction) -> Seq<u8> {
    match ins {
        Instruction::Constant(i) => seq![OP_CONSTANT, (i / 256) as u8, (i % 256) as u8],
        _ => seq![opcode_of(ins)],
    }
}

/// The byte stream of a sequence of instructions, laid end to end.
pub open spec fn encode_all(s: Seq<Instruction>) -> Seq<u8>
    decreases s.len(),
{
    if s.len() == 0 {
        Seq::empty()
    } else {
        encode_all(s.drop_last()) + instruction_bytes(s.last())
    }
}

/// Encoding a concatenation gives the concatenation of the encodings.
pub proof fn lemma_encode_all_concat(a: Seq<Instruction>, b: Seq<Instruction>)
    ensures
        encode_all(a + b) == encode_all(a) + encode_all(b),
    decreases b.len(),
{
    if b.len() == 0 {
        assert(a + b =~= a);
        assert(encode_all(b) =~= Seq::<u8>::empty());
        assert(encode_all(a) + encode_all(b) =~= encode_all(a));
    } else {
        lemma_encode_all_concat(a, b.drop_last());
        assert((a + b).drop_last() =~= a + b.drop_last());
        assert((a + b).last() == b.last());
        assert(encode_all(a + b) =~= encode_all(a) + encode_all(b));
    }
}

/// The encoding of a single instruction.
pub proof fn lemma_encode_one(ins: Instruction)
    ensures
        encode_all(seq![ins]) == instruction_bytes(ins),
{
    assert(seq![ins].drop_last() =~= Seq::<Instruction>::empty());
    assert(seq![ins].last() == ins);
    assert(encode_all(Seq::<Instruction>::empty()) == Seq::<u8>::empty());
    assert(Seq::<u8>::empty() + instruction_bytes(ins) =~= instruction_bytes(ins));
}

impl Instruction {
    /// The opcode byte of this instruction.
    pub fn opcode(&self) -> (r: u8)
        ensures
            r == opcode_of(*self),
    {
        match self {
            Instruction::Constant(_) => OP_CONSTANT,
            Instruction::Add => OP_ADD,
            Instruction::Sub => OP_SUB,
            Instruction::Mul => OP_MUL,
            Instruction::Div => OP_DIV,
            Instruction::True => OP_TRUE,
            Instruction::False => OP_FALSE,
            Instruction::Pop => OP_POP,
        }
    }

    /// Serialises this instruction into its bytes.
    pub fn encode(&self) -> (r: Vec<u8>)
        ensures
            r@ == instruction_bytes(*self),
    {
        match self {
            Instruction::Constant(i) => {
                let hi: u8 = (*i / 256) as u8;
                let lo: u8 = (*i % 256) as u8;
                let r = vec![OP_CONSTANT, hi, lo];
                assert(r@ =~= instruction_bytes(*self));
                r
            },
            _ => {
                let r = vec![self.opcode()];
                assert(r@ =~= instruction_bytes(*self));
                r
            },
        }
    }
}

} // verus!
