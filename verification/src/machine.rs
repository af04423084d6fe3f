//! The machine: processor state (program counter, equality flag, 8 registers,
//! 256-word instruction memory, 256-word data memory) and the
//! fetch-decode-execute cycle. The whole transition of one step is given by
//! the specification function `step_view`; `tick` is proved to implement it
//! exactly.

use vstd::pervasive::VecAdditionalExecFns;
use vstd::prelude::*;

use crate::codec::decode_op;
use crate::codec::spec_data;
use crate::codec::spec_encode;
use crate::codec::spec_op_field;
use crate::codec::spec_reg_a;
use crate::codec::spec_reg_b;
use crate::codec::valid_instr;
use crate::codec::op_addr;
use crate::codec::op_code;
use crate::codec::op_data;
use crate::codec::op_reg_a;
use crate::codec::op_reg_b;
use crate::codec::Instruction;
use crate::codec::OpCode;
use crate::codec::Word;

verus! {

/// 16-bit wrapping sum: the mathematical sum reduced modulo 2^16.
pub open spec fn wrap_add(a: u16, b: u16) -> u16 {
    ((a + b) % 0x10000) as u16
}

/// 16-bit wrapping difference: the mathematical difference reduced modulo
/// 2^16, so an underflow wraps around.
pub open spec fn wrap_sub(a: u16, b: u16) -> u16 {
    ((a - b + 0x10000) % 0x10000) as u16
}

/// The mathematical model of the processor state.
#[verifier::ext_equal]
pub ghost struct ChipView {
    /// Address of the next instruction to fetch.
    pub pc: u16,
    /// Equality flag: set only by compare, read only by jump-if-equal.
    pub flag_eq: bool,
    /// The 8 general-purpose registers.
    pub reg: Seq<u16>,
    /// The 256-word instruction memory.
    pub rom: Seq<u16>,
    /// The 256-word data memory.
    pub ram: Seq<u16>,
}

impl ChipView {
    /// Well-formedness: the memories have their fixed sizes and every word of
    /// instruction memory carries a decodable opcode.
    pub open spec fn wf(self) -> bool {
        &&& self.reg.len() == 8
        &&& self.rom.len() == 256
        &&& self.ram.len() == 256
        &&& forall|i: int| 0 <= i < 256 ==> valid_instr(#[trigger] self.rom[i])
    }
}

/// Whether the machine is halted: the instruction at the current program
/// counter decodes to halt. A lookahead on the not-yet-executed instruction;
/// no other part of the state plays a part.
pub open spec fn spec_is_halted(s: ChipView) -> bool {
    decode_op(spec_op_field(s.rom[s.pc as int])) == Some(OpCode::HLT)
}

/// The effect of executing one instruction: fetch the word at the program
/// counter, advance the counter by one, then apply the decoded operation.
/// Jump targets are absolute, so a taken jump overrides the advanced counter.
pub open spec fn step_view(s: ChipView) -> ChipView {
    let ir: u16 = s.rom[s.pc as int];
    let pc1: u16 = (s.pc + 1) as u16;
    let ra: int = spec_reg_a(ir) as int;
    let rb: int = spec_reg_b(ir) as int;
    let a: u16 = s.reg[ra];
    let b: u16 = s.reg[rb];
    let data: u16 = spec_data(ir);
    match decode_op(spec_op_field(ir)) {
        Some(op) => match op {
            OpCode::MOV => ChipView { pc: pc1, reg: s.reg.update(ra, b), ..s },
            OpCode::ADD => ChipView { pc: pc1, reg: s.reg.update(ra, wrap_add(a, b)), ..s },
            OpCode::SUB => ChipView { pc: pc1, reg: s.reg.update(ra, wrap_sub(a, b)), ..s },
            OpCode::AND => ChipView { pc: pc1, reg: s.reg.update(ra, a & b), ..s },
            OpCode::OR => ChipView { pc: pc1, reg: s.reg.update(ra, a | b), ..s },
            OpCode::SL => ChipView { pc: pc1, reg: s.reg.update(ra, a << 1), ..s },
            OpCode::SR => ChipView { pc: pc1, reg: s.reg.update(ra, a >> 1), ..s },
            OpCode::SRA => ChipView {
                pc: pc1,
                reg: s.reg.update(ra, (a & 0x8000) | (a >> 1)),
                ..s
            },
            OpCode::LDL => ChipView {
                pc: pc1,
                reg: s.reg.update(ra, (a & 0xff00) | (data & 0x00ff)),
                ..s
            },
            OpCode::LDH => ChipView {
                pc: pc1,
                reg: s.reg.update(ra, (data << 8) | (a & 0x00ff)),
                ..s
            },
            OpCode::CMP => ChipView { pc: pc1, flag_eq: a == b, ..s },
            OpCode::JE => ChipView { pc: if s.flag_eq { data } else { pc1 }, ..s },
            OpCode::JMP => ChipView { pc: data, ..s },
            OpCode::LD => ChipView { pc: pc1, reg: s.reg.update(ra, s.ram[data as int]), ..s },
            OpCode::ST => ChipView { pc: pc1, ram: s.ram.update(data as int, a), ..s },
            OpCode::HLT => ChipView { pc: pc1, ..s },
        },
        None => s,
    }
}

/// Law: one step of a well-formed machine leaves it well-formed; in
/// particular, instruction memory is never written.
pub proof fn lemma_step_view_preserves_wf(s: ChipView)
    requires
        s.wf(),
        s.pc < 256,
    ensures
        step_view(s).wf(),
        step_view(s).rom == s.rom,
{
    crate::codec::lemma_field_bounds(s.rom[s.pc as int]);
}

/// Law: whether the machine is halted depends only on the instruction word
/// at the current program counter, never on the registers, the flag or the
/// data memory.
pub proof fn lemma_halted_depends_only_on_fetched(s1: ChipView, s2: ChipView)
    requires
        s1.pc == s2.pc,
        s1.rom[s1.pc as int] == s2.rom[s2.pc as int],
    ensures
        spec_is_halted(s1) == spec_is_halted(s2),
{
}

/// Law: add and subtract wrap modulo 65536. The register A result of an add
/// is the mathematical sum of the two registers reduced modulo 2^16, and of
/// a subtract the mathematical difference shifted into range and reduced the
/// same way; there is no overflow flag and no trap.
pub proof fn lemma_arithmetic_wraps(s: ChipView)
    requires
        s.wf(),
        s.pc < 256,
    ensures
        decode_op(spec_op_field(s.rom[s.pc as int])) == Some(OpCode::ADD)
            ==> step_view(s).reg[spec_reg_a(s.rom[s.pc as int]) as int] == (s.reg[spec_reg_a(
            s.rom[s.pc as int],
        ) as int] + s.reg[spec_reg_b(s.rom[s.pc as int]) as int]) % 0x10000,
        decode_op(spec_op_field(s.rom[s.pc as int])) == Some(OpCode::SUB)
            ==> step_view(s).reg[spec_reg_a(s.rom[s.pc as int]) as int] == (s.reg[spec_reg_a(
            s.rom[s.pc as int],
        ) as int] - s.reg[spec_reg_b(s.rom[s.pc as int]) as int] + 0x10000) % 0x10000,
{
    crate::codec::lemma_field_bounds(s.rom[s.pc as int]);
}

/// Law: a jump-if-equal with the flag false leaves the program counter at
/// one past its original value, the ordinary fall-through; with the flag
/// true it sets the counter to the instruction's address field, an absolute
/// target that discards the increment.
pub proof fn lemma_je_program_counter(s: ChipView)
    requires
        s.wf(),
        s.pc < 256,
        decode_op(spec_op_field(s.rom[s.pc as int])) == Some(OpCode::JE),
    ensures
        !s.flag_eq ==> step_view(s).pc == s.pc + 1,
        s.flag_eq ==> step_view(s).pc == spec_data(s.rom[s.pc as int]),
{
}

/// The processor state. The fields are plain data: the instruction and data
/// memories are owned buffers of 256 words each that are never resized, and
/// the register file holds 8 words.
#[derive(Debug)]
pub struct Chip {
    /// Address of the next instruction to fetch.
    pub pc: u16,
    /// Equality flag: set only by compare, read only by jump-if-equal.
    pub flag_eq: bool,
    /// The 8 general-purpose registers.
    pub reg: Vec<Word>,
    /// The 256-word instruction memory.
    pub rom: Vec<Instruction>,
    /// The 256-word data memory.
    pub ram: Vec<Word>,
}

impl View for Chip {
    type V = ChipView;

    open spec fn view(&self) -> ChipView {
        ChipView {
            pc: self.pc,
            flag_eq: self.flag_eq,
            reg: self.reg@,
            rom: self.rom@,
            ram: self.ram@,
        }
    }
}

/// The demonstration program: sum the integers 1 to 10 into register 0,
/// storing each partial sum to data-memory address 64, then halt.
pub open spec fn demo_program() -> Seq<u16> {
    seq![
        spec_encode(OpCode::LDH, 0, 0, 0),
        spec_encode(OpCode::LDL, 0, 0, 0),
        spec_encode(OpCode::LDH, 1, 0, 0),
        spec_encode(OpCode::LDL, 1, 0, 1),
        spec_encode(OpCode::LDH, 2, 0, 0),
        spec_encode(OpCode::LDL, 2, 0, 0),
        spec_encode(OpCode::LDH, 3, 0, 0),
        spec_encode(OpCode::LDL, 3, 0, 10),
        spec_encode(OpCode::ADD, 2, 1, 0),
        spec_encode(OpCode::ADD, 0, 2, 0),
        spec_encode(OpCode::ST, 0, 0, 64),
        spec_encode(OpCode::CMP, 2, 3, 0),
        spec_encode(OpCode::JE, 0, 0, 14),
        spec_encode(OpCode::JMP, 0, 0, 8),
        spec_encode(OpCode::HLT, 0, 0, 0),
    ]
}

/// Assembles the demonstration program as a sequence of encoded instruction
/// words, each carrying a decodable opcode.
pub fn assembler() -> (v: Vec<Instruction>)
    ensures
        v@ == demo_program(),
        forall|i: int| 0 <= i < v@.len() ==> valid_instr(#[trigger] v@[i]),
{
    let mut v: Vec<Instruction> = Vec::new();
    v.push(crate::codec::ldh(0, 0));
    v.push(crate::codec::ldl(0, 0));
    v.push(crate::codec::ldh(1, 0));
    v.push(crate::codec::ldl(1, 1));
    v.push(crate::codec::ldh(2, 0));
    v.push(crate::codec::ldl(2, 0));
    v.push(crate::codec::ldh(3, 0));
    v.push(crate::codec::ldl(3, 10));
    v.push(crate::codec::add(2, 1));
    v.push(crate::codec::add(0, 2));
    v.push(crate::codec::st(0, 64));
    v.push(crate::codec::cmp(2, 3));
    v.push(crate::codec::je(14));
    v.push(crate::codec::jmp(8));
    v.push(crate::codec::hlt());
    proof {
        assert(v@ =~= demo_program());
    }
    v
}

/// Law: the word that fills unprogrammed instruction memory decodes as move
/// register 0 to register 0 — a harmless no-op — not as halt. A program that
/// overruns its loaded length therefore falls into no-ops rather than
/// halting at once.
pub proof fn lemma_fill_word_is_mov()
    ensures
        decode_op(spec_op_field(0)) == Some(OpCode::MOV),
        spec_reg_a(0) == 0,
        spec_reg_b(0) == 0,
{
    assert(0u16 >> 11 == 0u16) by (bit_vector);
    assert((0u16 >> 8) & 0x0007 == 0u16) by (bit_vector);
    assert((0u16 >> 5) & 0x0007 == 0u16) by (bit_vector);
}

fn zero_words(n: usize) -> (v: Vec<u16>)
    ensures
        v@.len() == n,
        forall|i: int| 0 <= i < n ==> v@[i] == 0,
{
    let mut v: Vec<u16> = Vec::new();
    let mut k: usize = 0;
    while k < n
        invariant
            k <= n,
            v@.len() == k,
            forall|i: int| 0 <= i < k ==> v@[i] == 0,
        decreases n - k,
    {
        v.push(0);
        k = k + 1;
    }
    v
}

impl Chip {
    /// A machine ready to run: the demonstration program loaded at the low
    /// addresses of instruction memory, the remaining instruction words zero
    /// (which decode as no-ops), and the program counter, flag, registers and
    /// data memory all cleared.
    pub fn new() -> (c: Chip)
        ensures
            c@.wf(),
            c@.pc == 0,
            !c@.flag_eq,
            forall|i: int| 0 <= i < 8 ==> c@.reg[i] == 0,
            forall|i: int| 0 <= i < 256 ==> c@.ram[i] == 0,
            forall|i: int|
                0 <= i < demo_program().len() ==> c@.rom[i] == demo_program()[i],
            forall|i: int| demo_program().len() <= i < 256 ==> c@.rom[i] == 0,
    {
        let prog = assembler();
        let mut rom: Vec<Instruction> = Vec::new();
        let mut k: usize = 0;
        while k < prog.len()
            invariant
                k <= prog@.len(),
                prog@ == demo_program(),
                forall|i: int| 0 <= i < prog@.len() ==> valid_instr(#[trigger] prog@[i]),
                rom@ =~= prog@.take(k as int),
            decreases prog@.len() - k,
        {
            let w: u16 = prog[k];
            rom.push(w);
            k = k + 1;
        }
        proof {
            assert(rom@ =~= demo_program());
        }
        while rom.len() < 256
            invariant
                demo_program().len() <= rom@.len() <= 256,
                forall|i: int|
                    0 <= i < demo_program().len() ==> rom@[i] == demo_program()[i],
                forall|i: int| demo_program().len() <= i < rom@.len() ==> rom@[i] == 0,
            decreases 256 - rom@.len(),
        {
            rom.push(0);
        }
        let c = Chip { pc: 0, flag_eq: false, reg: zero_words(8), rom, ram: zero_words(256) };
        proof {
            lemma_fill_word_is_mov();
            assert forall|i: int| 0 <= i < 256 implies valid_instr(#[trigger] c@.rom[i]) by {
                if i < demo_program().len() {
                    assert(c@.rom[i] == demo_program()[i]);
                } else {
                    assert(c@.rom[i] == 0);
                }
            }
        }
        c
    }

    /// Reads the encoded instruction at the current program counter. No
    /// mutation.
    pub fn fetch(&self) -> (ir: Instruction)
        requires
            (self.pc as int) < self.rom@.len(),
        ensures
            ir == self.rom@[self.pc as int],
    {
        self.rom[self.pc as usize]
    }

    /// Whether the instruction at the current program counter decodes to
    /// halt: a lookahead check, true if and only if the fetched word's opcode
    /// is halt, whatever the registers, flag or data memory hold.
    pub fn is_halt(&self) -> (r: bool)
        requires
            (self.pc as int) < self.rom@.len(),
            valid_instr(self.rom@[self.pc as int]),
        ensures
            r == spec_is_halted(self@),
    {
        let ir = self.fetch();
        let op = op_code(ir);
        op == OpCode::HLT
    }

    /// Executes exactly one instruction: fetches the word at the program
    /// counter, advances the counter by one, decodes, and applies the
    /// operation — precisely the transition `step_view` describes.
    pub fn tick(&mut self)
        requires
            old(self)@.wf(),
            old(self).pc < 256,
        ensures
            final(self)@ == step_view(old(self)@),
            final(self)@.wf(),
    {
        let ghost pre = self@;
        let ir = self.fetch();
        self.pc = self.pc + 1;

        let ra = op_reg_a(ir);
        let rb = op_reg_b(ir);
        let addr = op_addr(ir);
        let data = op_data(ir);
        match op_code(ir) {
            OpCode::MOV => {
                let v: u16 = self.reg[rb];
                self.reg.set(ra, v);
            },
            OpCode::ADD => {
                let x: u16 = self.reg[ra];
                let y: u16 = self.reg[rb];
                let v: u16 = (((x as u32) + (y as u32)) % 0x10000) as u16;
                self.reg.set(ra, v);
            },
            OpCode::SUB => {
                let x: u16 = self.reg[ra];
                let y: u16 = self.reg[rb];
                let v: u16 = (((x as u32) + 0x10000 - (y as u32)) % 0x10000) as u16;
                self.reg.set(ra, v);
            },
            OpCode::AND => {
                let x: u16 = self.reg[ra];
                let y: u16 = self.reg[rb];
                self.reg.set(ra, x & y);
            },
            OpCode::OR => {
                let x: u16 = self.reg[ra];
                let y: u16 = self.reg[rb];
                self.reg.set(ra, x | y);
            },
            OpCode::SL => {
                let x: u16 = self.reg[ra];
                self.reg.set(ra, x << 1);
            },
            OpCode::SR => {
                let x: u16 = self.reg[ra];
                self.reg.set(ra, x >> 1);
            },
            OpCode::SRA => {
                let x: u16 = self.reg[ra];
                self.reg.set(ra, (x & 0x8000) | (x >> 1));
            },
            OpCode::LDL => {
                let x: u16 = self.reg[ra];
                self.reg.set(ra, (x & 0xff00) | (data & 0x00ff));
            },
            OpCode::LDH => {
                let x: u16 = self.reg[ra];
                self.reg.set(ra, (data << 8) | (x & 0x00ff));
            },
            OpCode::CMP => {
                let x: u16 = self.reg[ra];
                let y: u16 = self.reg[rb];
                self.flag_eq = x == y;
            },
            OpCode::JE => {
                if self.flag_eq {
                    self.pc = addr;
                }
            },
            OpCode::JMP => {
                self.pc = addr;
            },
            OpCode::LD => {
                let v: u16 = self.ram[addr as usize];
                self.reg.set(ra, v);
            },
            OpCode::ST => {
                let v: u16 = self.reg[ra];
                self.ram.set(addr as usize, v);
            },
            OpCode::HLT => {},
        }
        proof {
            assert(self@ =~= step_view(pre));
            lemma_step_view_preserves_wf(pre);
        }
    }
}

} // verus!
