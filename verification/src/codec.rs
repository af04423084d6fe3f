//! Instruction codec: the lossless, bidirectional mapping between a symbolic
//! operation with its operand fields and the 16-bit instruction word that
//! carries it.
//!
//! Bit layout (bit 15 is the most significant):
//! - bits 15..11: opcode (a 5-bit field holding a value 0..15; 16..31 is invalid),
//! - bits 10..8:  register A index (3 bits),
//! - bits 7..5:   register B index (3 bits, two-register operations only),
//! - bits 7..0:   immediate / address field (8 bits, overlapping register B).

use vstd::prelude::*;

verus! {

/// A 16-bit encoded instruction word.
pub type Instruction = u16;

/// A 16-bit value held in a register or in a data-memory cell.
pub type Word = u16;

/// An absolute address into instruction or data memory.
pub type Address = u16;

/// Index of one of the 8 general-purpose registers, in the range 0..8.
pub type RegisterIndex = usize;

/// The closed set of 16 operations, with wire values 0..15 carried in the
/// opcode field. The numeric identity is given by `code_of`, not by the
/// declaration order.
#[derive(Clone, Copy, PartialEq, Eq, Structural, Debug)]
pub enum OpCode {
    MOV,
    ADD,
    SUB,
    AND,
    OR,
    SL,
    SR,
    SRA,
    LDL,
    LDH,
    CMP,
    JE,
    JMP,
    LD,
    ST,
    HLT,
}

/// The wire value of each opcode: the explicit numeric identity packed into
/// bits 15..11 of an encoding.
pub open spec fn code_of(op: OpCode) -> u16 {
    match op {
        OpCode::MOV => 0,
        OpCode::ADD => 1,
        OpCode::SUB => 2,
        OpCode::AND => 3,
        OpCode::OR => 4,
        OpCode::SL => 5,
        OpCode::SR => 6,
        OpCode::SRA => 7,
        OpCode::LDL => 8,
        OpCode::LDH => 9,
        OpCode::CMP => 10,
        OpCode::JE => 11,
        OpCode::JMP => 12,
        OpCode::LD => 13,
        OpCode::ST => 14,
        OpCode::HLT => 15,
    }
}

/// The opcode denoted by a 5-bit opcode-field value; `None` exactly for the
/// invalid values 16..31, which no opcode occupies.
pub open spec fn decode_op(v: u16) -> Option<OpCode> {
    if v == 0 {
        Some(OpCode::MOV)
    } else if v == 1 {
        Some(OpCode::ADD)
    } else if v == 2 {
        Some(OpCode::SUB)
    } else if v == 3 {
        Some(OpCode::AND)
    } else if v == 4 {
        Some(OpCode::OR)
    } else if v == 5 {
        Some(OpCode::SL)
    } else if v == 6 {
        Some(OpCode::SR)
    } else if v == 7 {
        Some(OpCode::SRA)
    } else if v == 8 {
        Some(OpCode::LDL)
    } else if v == 9 {
        Some(OpCode::LDH)
    } else if v == 10 {
        Some(OpCode::CMP)
    } else if v == 11 {
        Some(OpCode::JE)
    } else if v == 12 {
        Some(OpCode::JMP)
    } else if v == 13 {
        Some(OpCode::LD)
    } else if v == 14 {
        Some(OpCode::ST)
    } else if v == 15 {
        Some(OpCode::HLT)
    } else {
        None
    }
}

/// The 5-bit opcode field of an instruction word.
pub open spec fn spec_op_field(ir: u16) -> u16 {
    ir >> 11
}

/// The 3-bit register A field of an instruction word.
pub open spec fn spec_reg_a(ir: u16) -> u16 {
    (ir >> 8) & 0x0007
}

/// The 3-bit register B field of an instruction word.
pub open spec fn spec_reg_b(ir: u16) -> u16 {
    (ir >> 5) & 0x0007
}

/// The 8-bit immediate / address field of an instruction word. The two are
/// one physical field, told apart only by the opcode that reads it.
pub open spec fn spec_data(ir: u16) -> u16 {
    ir & 0x00ff
}

/// An instruction word whose opcode field denotes one of the 16 operations.
pub open spec fn valid_instr(ir: u16) -> bool {
    decode_op(spec_op_field(ir)) is Some
}

/// Whether an opcode reads or writes the register A field.
pub open spec fn uses_reg_a(op: OpCode) -> bool {
    !(op is JE || op is JMP || op is HLT)
}

/// Whether an opcode reads the register B field.
pub open spec fn uses_reg_b(op: OpCode) -> bool {
    op is MOV || op is ADD || op is SUB || op is AND || op is OR || op is CMP
}

/// Whether an opcode reads the immediate / address field.
pub open spec fn uses_data(op: OpCode) -> bool {
    op is LDL || op is LDH || op is JE || op is JMP || op is LD || op is ST
}

/// The encoding of an operation: each opcode packs only the fields it uses,
/// and the unused bit positions are zero. An immediate or address value wider
/// than 8 bits is narrowed to its low 8 bits.
pub open spec fn spec_encode(op: OpCode, ra: u16, rb: u16, val: u16) -> u16 {
    match op {
        OpCode::MOV | OpCode::ADD | OpCode::SUB | OpCode::AND | OpCode::OR | OpCode::CMP => (
        code_of(op) << 11) | (ra << 8) | (rb << 5),
        OpCode::SL | OpCode::SR | OpCode::SRA => (code_of(op) << 11) | (ra << 8),
        OpCode::LDL | OpCode::LDH | OpCode::LD | OpCode::ST => (code_of(op) << 11) | (ra << 8) | (
        val & 0x00ff),
        OpCode::JE | OpCode::JMP => (code_of(op) << 11) | (val & 0x00ff),
        OpCode::HLT => code_of(op) << 11,
    }
}

/// Law: the operand fields are range-limited by their bit widths, so a
/// register index is always below 8 and an address or immediate below 256.
pub proof fn lemma_field_bounds(ir: u16)
    by (bit_vector)
    ensures
        spec_op_field(ir) < 32,
        spec_reg_a(ir) < 8,
        spec_reg_b(ir) < 8,
        spec_data(ir) < 256,
{
}

proof fn lemma_pack_regs(code: u16, a: u16, b: u16)
    by (bit_vector)
    requires
        code < 16,
        a < 8,
        b < 8,
    ensures
        ((code << 11) | (a << 8) | (b << 5)) >> 11 == code,
        (((code << 11) | (a << 8) | (b << 5)) >> 8) & 0x0007 == a,
        (((code << 11) | (a << 8) | (b << 5)) >> 5) & 0x0007 == b,
{
}

proof fn lemma_pack_reg_only(code: u16, a: u16)
    by (bit_vector)
    requires
        code < 16,
        a < 8,
    ensures
        ((code << 11) | (a << 8)) >> 11 == code,
        (((code << 11) | (a << 8)) >> 8) & 0x0007 == a,
{
}

proof fn lemma_pack_data(code: u16, a: u16, d: u16)
    by (bit_vector)
    requires
        code < 16,
        a < 8,
    ensures
        ((code << 11) | (a << 8) | (d & 0x00ff)) >> 11 == code,
        (((code << 11) | (a << 8) | (d & 0x00ff)) >> 8) & 0x0007 == a,
        ((code << 11) | (a << 8) | (d & 0x00ff)) & 0x00ff == d % 256,
{
}

proof fn lemma_pack_addr(code: u16, d: u16)
    by (bit_vector)
    requires
        code < 16,
    ensures
        ((code << 11) | (d & 0x00ff)) >> 11 == code,
        (((code << 11) | (d & 0x00ff)) >> 8) & 0x0007 == 0,
        ((code << 11) | (d & 0x00ff)) & 0x00ff == d % 256,
{
}

proof fn lemma_pack_code_only(code: u16)
    by (bit_vector)
    requires
        code < 16,
    ensures
        (code << 11) >> 11 == code,
        ((code << 11) >> 8) & 0x0007 == 0,
        (code << 11) & 0x00ff == 0,
{
}

/// Law: the codec is lossless. Decoding the encoding of any valid operand
/// tuple recovers the opcode and exactly the fields that opcode uses; an
/// immediate or address value is recovered modulo 256.
pub proof fn lemma_encode_decode_roundtrip(op: OpCode, ra: u16, rb: u16, val: u16)
    requires
        ra < 8,
        rb < 8,
    ensures
        decode_op(spec_op_field(spec_encode(op, ra, rb, val))) == Some(op),
        uses_reg_a(op) ==> spec_reg_a(spec_encode(op, ra, rb, val)) == ra,
        uses_reg_b(op) ==> spec_reg_b(spec_encode(op, ra, rb, val)) == rb,
        uses_data(op) ==> spec_data(spec_encode(op, ra, rb, val)) == val % 256,
{
    match op {
        OpCode::MOV => lemma_pack_regs(0, ra, rb),
        OpCode::ADD => lemma_pack_regs(1, ra, rb),
        OpCode::SUB => lemma_pack_regs(2, ra, rb),
        OpCode::AND => lemma_pack_regs(3, ra, rb),
        OpCode::OR => lemma_pack_regs(4, ra, rb),
        OpCode::SL => lemma_pack_reg_only(5, ra),
        OpCode::SR => lemma_pack_reg_only(6, ra),
        OpCode::SRA => lemma_pack_reg_only(7, ra),
        OpCode::LDL => lemma_pack_data(8, ra, val),
        OpCode::LDH => lemma_pack_data(9, ra, val),
        OpCode::CMP => lemma_pack_regs(10, ra, rb),
        OpCode::JE => lemma_pack_addr(11, val),
        OpCode::JMP => lemma_pack_addr(12, val),
        OpCode::LD => lemma_pack_data(13, ra, val),
        OpCode::ST => lemma_pack_data(14, ra, val),
        OpCode::HLT => lemma_pack_code_only(15),
    }
}

/// The explicit opcode-to-wire-value table, the executable side of `code_of`.
pub fn op_value(op: OpCode) -> (v: u16)
    ensures
        v == code_of(op),
        v < 16,
{
    match op {
        OpCode::MOV => 0,
        OpCode::ADD => 1,
        OpCode::SUB => 2,
        OpCode::AND => 3,
        OpCode::OR => 4,
        OpCode::SL => 5,
        OpCode::SR => 6,
        OpCode::SRA => 7,
        OpCode::LDL => 8,
        OpCode::LDH => 9,
        OpCode::CMP => 10,
        OpCode::JE => 11,
        OpCode::JMP => 12,
        OpCode::LD => 13,
        OpCode::ST => 14,
        OpCode::HLT => 15,
    }
}

/// Total decoder for the opcode field. Returns `None` exactly when the 5-bit
/// field holds one of the invalid values 16..31; no such value is ever mapped
/// to an existing opcode.
pub fn try_op_code(ir: Instruction) -> (r: Option<OpCode>)
    ensures
        r == decode_op(spec_op_field(ir)),
        r is Some <==> spec_op_field(ir) < 16,
{
    let v: u16 = ir >> 11;
    if v == 0 {
        Some(OpCode::MOV)
    } else if v == 1 {
        Some(OpCode::ADD)
    } else if v == 2 {
        Some(OpCode::SUB)
    } else if v == 3 {
        Some(OpCode::AND)
    } else if v == 4 {
        Some(OpCode::OR)
    } else if v == 5 {
        Some(OpCode::SL)
    } else if v == 6 {
        Some(OpCode::SR)
    } else if v == 7 {
        Some(OpCode::SRA)
    } else if v == 8 {
        Some(OpCode::LDL)
    } else if v == 9 {
        Some(OpCode::LDH)
    } else if v == 10 {
        Some(OpCode::CMP)
    } else if v == 11 {
        Some(OpCode::JE)
    } else if v == 12 {
        Some(OpCode::JMP)
    } else if v == 13 {
        Some(OpCode::LD)
    } else if v == 14 {
        Some(OpCode::ST)
    } else if v == 15 {
        Some(OpCode::HLT)
    } else {
        None
    }
}

/// Decoder for the opcode field of a valid instruction word. An invalid
/// opcode field (value 16..31) is a fatal condition and is excluded by the
/// precondition; `try_op_code` reports it as `None` instead.
pub fn op_code(ir: Instruction) -> (op: OpCode)
    requires
        valid_instr(ir),
    ensures
        decode_op(spec_op_field(ir)) == Some(op),
{
    match try_op_code(ir) {
        Some(op) => op,
        None => unreached(),
    }
}

/// Extracts the register A index, always in 0..8.
pub fn op_reg_a(ir: Instruction) -> (r: RegisterIndex)
    ensures
        r == spec_reg_a(ir) as usize,
        r < 8,
{
    let v: u16 = (ir >> 8) & 0x0007;
    proof {
        assert((ir >> 8) & 0x0007 < 8) by (bit_vector);
    }
    v as usize
}

/// Extracts the register B index, always in 0..8.
pub fn op_reg_b(ir: Instruction) -> (r: RegisterIndex)
    ensures
        r == spec_reg_b(ir) as usize,
        r < 8,
{
    let v: u16 = (ir >> 5) & 0x0007;
    proof {
        assert((ir >> 5) & 0x0007 < 8) by (bit_vector);
    }
    v as usize
}

/// Extracts the 8-bit immediate-data field, always in 0..256.
pub fn op_data(ir: Instruction) -> (r: Word)
    ensures
        r == spec_data(ir),
        r < 256,
{
    let v: u16 = ir & 0x00ff;
    proof {
        assert(ir & 0x00ff < 256) by (bit_vector);
    }
    v
}

/// Extracts the 8-bit address field: the same physical bits as the
/// immediate-data field, read as an absolute address.
pub fn op_addr(ir: Instruction) -> (r: Address)
    ensures
        r == spec_data(ir),
        r < 256,
{
    let v: u16 = ir & 0x00ff;
    proof {
        assert(ir & 0x00ff < 256) by (bit_vector);
    }
    v
}

/// Encodes: register A ← register B.
pub fn mov(ra: RegisterIndex, rb: RegisterIndex) -> (ir: Instruction)
    requires
        ra < 8,
        rb < 8,
    ensures
        ir == spec_encode(OpCode::MOV, ra as u16, rb as u16, 0),
        decode_op(spec_op_field(ir)) == Some(OpCode::MOV),
        spec_reg_a(ir) == ra as u16,
        spec_reg_b(ir) == rb as u16,
{
    let code: u16 = op_value(OpCode::MOV);
    let a: u16 = ra as u16;
    let b: u16 = rb as u16;
    proof {
        lemma_pack_regs(code, a, b);
    }
    (code << 11) | (a << 8) | (b << 5)
}

/// Encodes: register A ← register A + register B, wrapping modulo 2^16.
pub fn add(ra: RegisterIndex, rb: RegisterIndex) -> (ir: Instruction)
    requires
        ra < 8,
        rb < 8,
    ensures
        ir == spec_encode(OpCode::ADD, ra as u16, rb as u16, 0),
        decode_op(spec_op_field(ir)) == Some(OpCode::ADD),
        spec_reg_a(ir) == ra as u16,
        spec_reg_b(ir) == rb as u16,
{
    let code: u16 = op_value(OpCode::ADD);
    let a: u16 = ra as u16;
    let b: u16 = rb as u16;
    proof {
        lemma_pack_regs(code, a, b);
    }
    (code << 11) | (a << 8) | (b << 5)
}

/// Encodes: register A ← register A - register B, wrapping modulo 2^16.
pub fn sub(ra: RegisterIndex, rb: RegisterIndex) -> (ir: Instruction)
    requires
        ra < 8,
        rb < 8,
    ensures
        ir == spec_encode(OpCode::SUB, ra as u16, rb as u16, 0),
        decode_op(spec_op_field(ir)) == Some(OpCode::SUB),
        spec_reg_a(ir) == ra as u16,
        spec_reg_b(ir) == rb as u16,
{
    let code: u16 = op_value(OpCode::SUB);
    let a: u16 = ra as u16;
    let b: u16 = rb as u16;
    proof {
        lemma_pack_regs(code, a, b);
    }
    (code << 11) | (a << 8) | (b << 5)
}

/// Encodes: register A ← register A bitwise-and register B.
pub fn and(ra: RegisterIndex, rb: RegisterIndex) -> (ir: Instruction)
    requires
        ra < 8,
        rb < 8,
    ensures
        ir == spec_encode(OpCode::AND, ra as u16, rb as u16, 0),
        decode_op(spec_op_field(ir)) == Some(OpCode::AND),
        spec_reg_a(ir) == ra as u16,
        spec_reg_b(ir) == rb as u16,
{
    let code: u16 = op_value(OpCode::AND);
    let a: u16 = ra as u16;
    let b: u16 = rb as u16;
    proof {
        lemma_pack_regs(code, a, b);
    }
    (code << 11) | (a << 8) | (b << 5)
}

/// Encodes: register A ← register A bitwise-or register B.
pub fn or(ra: RegisterIndex, rb: RegisterIndex) -> (ir: Instruction)
    requires
        ra < 8,
        rb < 8,
    ensures
        ir == spec_encode(OpCode::OR, ra as u16, rb as u16, 0),
        decode_op(spec_op_field(ir)) == Some(OpCode::OR),
        spec_reg_a(ir) == ra as u16,
        spec_reg_b(ir) == rb as u16,
{
    let code: u16 = op_value(OpCode::OR);
    let a: u16 = ra as u16;
    let b: u16 = rb as u16;
    proof {
        lemma_pack_regs(code, a, b);
    }
    (code << 11) | (a << 8) | (b << 5)
}

/// Encodes: register A ← register A shifted left by one bit.
pub fn sl(ra: RegisterIndex) -> (ir: Instruction)
    requires
        ra < 8,
    ensures
        ir == spec_encode(OpCode::SL, ra as u16, 0, 0),
        decode_op(spec_op_field(ir)) == Some(OpCode::SL),
        spec_reg_a(ir) == ra as u16,
{
    let code: u16 = op_value(OpCode::SL);
    let a: u16 = ra as u16;
    proof {
        lemma_pack_reg_only(code, a);
    }
    (code << 11) | (a << 8)
}

/// Encodes: register A ← register A shifted right by one bit, logically.
pub fn sr(ra: RegisterIndex) -> (ir: Instruction)
    requires
        ra < 8,
    ensures
        ir == spec_encode(OpCode::SR, ra as u16, 0, 0),
        decode_op(spec_op_field(ir)) == Some(OpCode::SR),
        spec_reg_a(ir) == ra as u16,
{
    let code: u16 = op_value(OpCode::SR);
    let a: u16 = ra as u16;
    proof {
        lemma_pack_reg_only(code, a);
    }
    (code << 11) | (a << 8)
}

/// Encodes: register A ← one-shot arithmetic right shift of register A.
pub fn sra(ra: RegisterIndex) -> (ir: Instruction)
    requires
        ra < 8,
    ensures
        ir == spec_encode(OpCode::SRA, ra as u16, 0, 0),
        decode_op(spec_op_field(ir)) == Some(OpCode::SRA),
        spec_reg_a(ir) == ra as u16,
{
    let code: u16 = op_value(OpCode::SRA);
    let a: u16 = ra as u16;
    proof {
        lemma_pack_reg_only(code, a);
    }
    (code << 11) | (a << 8)
}

/// Encodes: low 8 bits of register A ← the immediate, high bits unchanged.
/// An immediate wider than 8 bits is narrowed to `imm` modulo 256.
pub fn ldl(ra: RegisterIndex, imm: u16) -> (ir: Instruction)
    requires
        ra < 8,
    ensures
        ir == spec_encode(OpCode::LDL, ra as u16, 0, imm),
        decode_op(spec_op_field(ir)) == Some(OpCode::LDL),
        spec_reg_a(ir) == ra as u16,
        spec_data(ir) == imm % 256,
{
    let code: u16 = op_value(OpCode::LDL);
    let a: u16 = ra as u16;
    proof {
        lemma_pack_data(code, a, imm);
    }
    (code << 11) | (a << 8) | (imm & 0x00ff)
}

/// Encodes: high 8 bits of register A ← the immediate, low bits unchanged.
/// An immediate wider than 8 bits is narrowed to `imm` modulo 256.
pub fn ldh(ra: RegisterIndex, imm: u16) -> (ir: Instruction)
    requires
        ra < 8,
    ensures
        ir == spec_encode(OpCode::LDH, ra as u16, 0, imm),
        decode_op(spec_op_field(ir)) == Some(OpCode::LDH),
        spec_reg_a(ir) == ra as u16,
        spec_data(ir) == imm % 256,
{
    let code: u16 = op_value(OpCode::LDH);
    let a: u16 = ra as u16;
    proof {
        lemma_pack_data(code, a, imm);
    }
    (code << 11) | (a << 8) | (imm & 0x00ff)
}

/// Encodes: equality flag ← (register A == register B).
pub fn cmp(ra: RegisterIndex, rb: RegisterIndex) -> (ir: Instruction)
    requires
        ra < 8,
        rb < 8,
    ensures
        ir == spec_encode(OpCode::CMP, ra as u16, rb as u16, 0),
        decode_op(spec_op_field(ir)) == Some(OpCode::CMP),
        spec_reg_a(ir) == ra as u16,
        spec_reg_b(ir) == rb as u16,
{
    let code: u16 = op_value(OpCode::CMP);
    let a: u16 = ra as u16;
    let b: u16 = rb as u16;
    proof {
        lemma_pack_regs(code, a, b);
    }
    (code << 11) | (a << 8) | (b << 5)
}

/// Encodes: if the equality flag is set, program counter ← the absolute
/// address. An address wider than 8 bits is narrowed to `addr` modulo 256.
pub fn je(addr: Address) -> (ir: Instruction)
    ensures
        ir == spec_encode(OpCode::JE, 0, 0, addr),
        decode_op(spec_op_field(ir)) == Some(OpCode::JE),
        spec_data(ir) == addr % 256,
{
    let code: u16 = op_value(OpCode::JE);
    proof {
        lemma_pack_addr(code, addr);
    }
    (code << 11) | (addr & 0x00ff)
}

/// Encodes: program counter ← the absolute address, unconditionally.
/// An address wider than 8 bits is narrowed to `addr` modulo 256.
pub fn jmp(addr: Address) -> (ir: Instruction)
    ensures
        ir == spec_encode(OpCode::JMP, 0, 0, addr),
        decode_op(spec_op_field(ir)) == Some(OpCode::JMP),
        spec_data(ir) == addr % 256,
{
    let code: u16 = op_value(OpCode::JMP);
    proof {
        lemma_pack_addr(code, addr);
    }
    (code << 11) | (addr & 0x00ff)
}

/// Encodes: register A ← data memory at the address.
/// An address wider than 8 bits is narrowed to `addr` modulo 256.
pub fn ld(ra: RegisterIndex, addr: u16) -> (ir: Instruction)
    requires
        ra < 8,
    ensures
        ir == spec_encode(OpCode::LD, ra as u16, 0, addr),
        decode_op(spec_op_field(ir)) == Some(OpCode::LD),
        spec_reg_a(ir) == ra as u16,
        spec_data(ir) == addr % 256,
{
    let code: u16 = op_value(OpCode::LD);
    let a: u16 = ra as u16;
    proof {
        lemma_pack_data(code, a, addr);
    }
    (code << 11) | (a << 8) | (addr & 0x00ff)
}

/// Encodes: data memory at the address ← register A.
/// An address wider than 8 bits is narrowed to `addr` modulo 256.
pub fn st(ra: RegisterIndex, addr: u16) -> (ir: Instruction)
    requires
        ra < 8,
    ensures
        ir == spec_encode(OpCode::ST, ra as u16, 0, addr),
        decode_op(spec_op_field(ir)) == Some(OpCode::ST),
        spec_reg_a(ir) == ra as u16,
        spec_data(ir) == addr % 256,
{
    let code: u16 = op_value(OpCode::ST);
    let a: u16 = ra as u16;
    proof {
        lemma_pack_data(code, a, addr);
    }
    (code << 11) | (a << 8) | (addr & 0x00ff)
}

/// Encodes: halt.
pub fn hlt() -> (ir: Instruction)
    ensures
        ir == spec_encode(OpCode::HLT, 0, 0, 0),
        decode_op(spec_op_field(ir)) == Some(OpCode::HLT),
{
    let code: u16 = op_value(OpCode::HLT);
    proof {
        lemma_pack_code_only(code);
    }
    code << 11
}

} // verus!
