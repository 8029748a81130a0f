use vstd::prelude::*;

verus! {

/// The eight registers of the machine, in the order of their 3-bit codes.
#[derive(Copy, Clone, Debug, PartialEq, Eq, Structural)]
pub enum Register {
    ZX,
    PC,
    R2,
    R3,
    R4,
    R5,
    LP,
    SP,
}

pub open spec fn reg_code(r: Register) -> u16 {
    match r {
        Register::ZX => 0,
        Register::PC => 1,
        Register::R2 => 2,
        Register::R3 => 3,
        Register::R4 => 4,
        Register::R5 => 5,
        Register::LP => 6,
        Register::SP => 7,
    }
}

/// The register named by the low three bits of `c`.
pub open spec fn reg_of(c: u16) -> Register {
    let k = c % 8;
    if k == 0 {
        Register::ZX
    } else if k == 1 {
        Register::PC
    } else if k == 2 {
        Register::R2
    } else if k == 3 {
        Register::R3
    } else if k == 4 {
        Register::R4
    } else if k == 5 {
        Register::R5
    } else if k == 6 {
        Register::LP
    } else {
        Register::SP
    }
}

pub open spec fn reg_name(r: Register) -> Seq<char> {
    match r {
        Register::ZX => seq!['Z', 'X'],
        Register::PC => seq!['P', 'C'],
        Register::R2 => seq!['R', '2'],
        Register::R3 => seq!['R', '3'],
        Register::R4 => seq!['R', '4'],
        Register::R5 => seq!['R', '5'],
        Register::LP => seq!['L', 'P'],
        Register::SP => seq!['S', 'P'],
    }
}

pub proof fn lemma_reg_code_round_trip(r: Register)
    ensures
        reg_of(reg_code(r)) == r,
        reg_code(r) < 8,
{
}

impl Register {
    pub fn code(&self) -> (r: u16)
        ensures
            r == reg_code(*self),
    {
        match self {
            Register::ZX => 0,
            Register::PC => 1,
            Register::R2 => 2,
            Register::R3 => 3,
            Register::R4 => 4,
            Register::R5 => 5,
            Register::LP => 6,
            Register::SP => 7,
        }
    }

    /// The register whose code is the low three bits of `e`.
    pub fn from_code(e: u16) -> (r: Register)
        ensures
            r == reg_of(e),
    {
        let k = e % 8;
        if k == 0 {
            Register::ZX
        } else if k == 1 {
            Register::PC
        } else if k == 2 {
            Register::R2
        } else if k == 3 {
            Register::R3
        } else if k == 4 {
            Register::R4
        } else if k == 5 {
            Register::R5
        } else if k == 6 {
            Register::LP
        } else {
            Register::SP
        }
    }

    /// The register's name as written in source text.
    pub fn name(&self) -> (r: &'static str)
        ensures
            r@ == reg_name(*self),
    {
        let r = match self {
            Register::ZX => "ZX",
            Register::PC => "PC",
            Register::R2 => "R2",
            Register::R3 => "R3",
            Register::R4 => "R4",
            Register::R5 => "R5",
            Register::LP => "LP",
            Register::SP => "SP",
        };
        proof {
            reveal_strlit("ZX");
            reveal_strlit("PC");
            reveal_strlit("R2");
            reveal_strlit("R3");
            reveal_strlit("R4");
            reveal_strlit("R5");
            reveal_strlit("LP");
            reveal_strlit("SP");
        }
        r
    }
}

impl From<u16> for Register {
    /// The register whose code is the low three bits of `e`.
    fn from(e: u16) -> Register {
        Register::from_code(e)
    }
}

impl vstd::std_specs::convert::FromSpecImpl<u16> for Register {
    open spec fn obeys_from_spec() -> bool {
        true
    }

    open spec fn from_spec(e: u16) -> Register {
        reg_of(e)
    }
}

/// An ALU instruction: `dst = op(src_a', src_b')`, each operand and the result
/// optionally negated bitwise.
#[derive(Copy, Clone, Debug, PartialEq, Eq, Structural)]
pub struct AluInstruction {
    pub nx: bool,
    pub ny: bool,
    pub no: bool,
    pub dst: Register,
    pub src_a: Register,
    pub src_b: Register,
}

/// A memory instruction addressing `addr + shift`.
#[derive(Copy, Clone, Debug, PartialEq, Eq, Structural)]
pub struct MemInstruction {
    pub hi: bool,
    pub lo: bool,
    pub sw: bool,
    pub dst: Register,
    pub addr: Register,
    pub shift: i8,
}

/// A conditional relative branch on the sign of `cond`.
#[derive(Copy, Clone, Debug, PartialEq, Eq, Structural)]
pub struct BranchInstruction {
    pub eq: bool,
    pub gt: bool,
    pub lt: bool,
    pub cond: Register,
    pub shift: i8,
}

/// One native instruction of the machine.
#[allow(non_camel_case_types)]
#[derive(Copy, Clone, Debug, PartialEq, Eq, Structural)]
pub enum Instruction {
    NOP,
    AND(AluInstruction),
    ADD(AluInstruction),
    LOAD(MemInstruction),
    STORE(MemInstruction),
    BRANCH(BranchInstruction),
    CUSTOM(u16),
}

#[derive(Copy, Clone, Debug, PartialEq, Eq, Structural)]
pub enum InstructionError {
    InvalidShift,
}

pub open spec fn bit(b: bool) -> u16 {
    if b {
        1
    } else {
        0
    }
}

pub open spec fn shift_sign(s: i8) -> u16 {
    bit(s < 0)
}

pub open spec fn shift_mag(s: i8) -> u16 {
    if s < 0 {
        (-s) as u16
    } else {
        s as u16
    }
}

pub open spec fn flag_bits(a: bool, b: bool, c: bool) -> u16 {
    (bit(a) << 11u16) | (bit(b) << 10u16) | (bit(c) << 9u16)
}

pub open spec fn alu_bits(i: AluInstruction) -> u16 {
    flag_bits(i.nx, i.ny, i.no) | (reg_code(i.dst) << 6u16) | (reg_code(i.src_a) << 3u16)
        | reg_code(i.src_b)
}

pub open spec fn mem_bits(i: MemInstruction) -> u16 {
    flag_bits(i.hi, i.lo, i.sw) | (reg_code(i.dst) << 6u16) | (reg_code(i.addr) << 3u16) | (
    shift_sign(i.shift) << 2u16) | shift_mag(i.shift)
}

pub open spec fn branch_bits(i: BranchInstruction) -> u16 {
    flag_bits(i.eq, i.gt, i.lt) | (reg_code(i.cond) << 6u16) | (shift_sign(i.shift) << 5u16)
        | shift_mag(i.shift)
}

/// Whether every shift field of `i` lies in the range its shape can encode.
pub open spec fn valid_instruction(i: Instruction) -> bool {
    match i {
        Instruction::LOAD(m) => -3 <= m.shift <= 3,
        Instruction::STORE(m) => -3 <= m.shift <= 3,
        Instruction::BRANCH(b) => -31 <= b.shift <= 31,
        _ => true,
    }
}

/// The word of a valid instruction.
pub open spec fn encode_spec(i: Instruction) -> u16 {
    match i {
        Instruction::NOP => 0,
        Instruction::AND(a) => 0x4000u16 | alu_bits(a),
        Instruction::ADD(a) => 0x5000u16 | alu_bits(a),
        Instruction::LOAD(m) => 0x2000u16 | mem_bits(m),
        Instruction::STORE(m) => 0x3000u16 | mem_bits(m),
        Instruction::BRANCH(b) => 0x1000u16 | branch_bits(b),
        Instruction::CUSTOM(v) => v,
    }
}

pub open spec fn flag_at(w: u16, k: u16) -> bool {
    (w >> k) & 1u16 == 1u16
}

pub open spec fn alu_of(w: u16) -> AluInstruction {
    AluInstruction {
        nx: flag_at(w, 11),
        ny: flag_at(w, 10),
        no: flag_at(w, 9),
        dst: reg_of((w >> 6u16) & 7u16),
        src_a: reg_of((w >> 3u16) & 7u16),
        src_b: reg_of(w & 7u16),
    }
}

pub open spec fn signed_field(mag: u16, negative: bool) -> i8 {
    if negative {
        (-(mag as int)) as i8
    } else {
        mag as i8
    }
}

pub open spec fn mem_of(w: u16) -> MemInstruction {
    MemInstruction {
        hi: flag_at(w, 11),
        lo: flag_at(w, 10),
        sw: flag_at(w, 9),
        dst: reg_of((w >> 6u16) & 7u16),
        addr: reg_of((w >> 3u16) & 7u16),
        shift: signed_field(w & 3u16, w & 4u16 == 4u16),
    }
}

pub open spec fn branch_of(w: u16) -> BranchInstruction {
    BranchInstruction {
        eq: flag_at(w, 11),
        gt: flag_at(w, 10),
        lt: flag_at(w, 9),
        cond: reg_of((w >> 6u16) & 7u16),
        shift: signed_field(w & 0x1fu16, w & 0x20u16 == 0x20u16),
    }
}

/// The instruction a word stands for: the top four bits select the shape.
pub open spec fn decode_spec(w: u16) -> Instruction {
    let top = w >> 12u16;
    if top == 0 {
        if w == 0 {
            Instruction::NOP
        } else {
            Instruction::CUSTOM(w)
        }
    } else if top == 4 {
        Instruction::AND(alu_of(w))
    } else if top == 5 {
        Instruction::ADD(alu_of(w))
    } else if top == 2 {
        Instruction::LOAD(mem_of(w))
    } else if top == 3 {
        Instruction::STORE(mem_of(w))
    } else if top == 1 {
        Instruction::BRANCH(branch_of(w))
    } else {
        Instruction::CUSTOM(w)
    }
}

/// A raw data word comes back as raw data only where its top four bits select
/// no other shape, and it is not the all-zero word of NOP.
pub open spec fn raw_word_distinct(i: Instruction) -> bool {
    match i {
        Instruction::CUSTOM(v) => (v >> 12u16 == 0 && v != 0) || v >> 12u16 >= 6,
        _ => true,
    }
}

fn bit_of(b: bool) -> (r: u16)
    ensures
        r == bit(b),
{
    if b {
        1
    } else {
        0
    }
}

proof fn lemma_fields(top: u16, a: u16, b: u16, c: u16, d: u16, e: u16, f: u16)
    requires
        top < 16,
        a <= 1,
        b <= 1,
        c <= 1,
        d < 8,
        e < 8,
        f < 8,
    ensures
        ({
            let w = (top << 12u16) | (((a << 11u16) | (b << 10u16) | (c << 9u16)) | (d << 6u16)
                | (e << 3u16) | f);
            &&& w >> 12u16 == top
            &&& (w >> 11u16) & 1u16 == a
            &&& (w >> 10u16) & 1u16 == b
            &&& (w >> 9u16) & 1u16 == c
            &&& (w >> 6u16) & 7u16 == d
            &&& (w >> 3u16) & 7u16 == e
            &&& w & 7u16 == f
        }),
{
    assert({
        let w = (top << 12u16) | (((a << 11u16) | (b << 10u16) | (c << 9u16)) | (d << 6u16) | (e
            << 3u16) | f);
        &&& w >> 12u16 == top
        &&& (w >> 11u16) & 1u16 == a
        &&& (w >> 10u16) & 1u16 == b
        &&& (w >> 9u16) & 1u16 == c
        &&& (w >> 6u16) & 7u16 == d
        &&& (w >> 3u16) & 7u16 == e
        &&& w & 7u16 == f
    }) by (bit_vector)
        requires
            top < 16,
            a <= 1,
            b <= 1,
            c <= 1,
            d < 8,
            e < 8,
            f < 8,
    ;
}

proof fn lemma_mem_fields(top: u16, a: u16, b: u16, c: u16, d: u16, e: u16, s: u16, m: u16)
    requires
        top < 16,
        a <= 1,
        b <= 1,
        c <= 1,
        d < 8,
        e < 8,
        s <= 1,
        m < 4,
    ensures
        ({
            let w = (top << 12u16) | (((a << 11u16) | (b << 10u16) | (c << 9u16)) | (d << 6u16)
                | (e << 3u16) | (s << 2u16) | m);
            &&& w >> 12u16 == top
            &&& (w >> 11u16) & 1u16 == a
            &&& (w >> 10u16) & 1u16 == b
            &&& (w >> 9u16) & 1u16 == c
            &&& (w >> 6u16) & 7u16 == d
            &&& (w >> 3u16) & 7u16 == e
            &&& (w & 4u16 == 4u16) == (s == 1u16)
            &&& w & 3u16 == m
        }),
{
    assert({
        let w = (top << 12u16) | (((a << 11u16) | (b << 10u16) | (c << 9u16)) | (d << 6u16) | (e
            << 3u16) | (s << 2u16) | m);
        &&& w >> 12u16 == top
        &&& (w >> 11u16) & 1u16 == a
        &&& (w >> 10u16) & 1u16 == b
        &&& (w >> 9u16) & 1u16 == c
        &&& (w >> 6u16) & 7u16 == d
        &&& (w >> 3u16) & 7u16 == e
        &&& (w & 4u16 == 4u16) == (s == 1u16)
        &&& w & 3u16 == m
    }) by (bit_vector)
        requires
            top < 16,
            a <= 1,
            b <= 1,
            c <= 1,
            d < 8,
            e < 8,
            s <= 1,
            m < 4,
    ;
}

proof fn lemma_branch_fields(top: u16, a: u16, b: u16, c: u16, d: u16, s: u16, m: u16)
    requires
        top < 16,
        a <= 1,
        b <= 1,
        c <= 1,
        d < 8,
        s <= 1,
        m < 32,
    ensures
        ({
            let w = (top << 12u16) | (((a << 11u16) | (b << 10u16) | (c << 9u16)) | (d << 6u16)
                | (s << 5u16) | m);
            &&& w >> 12u16 == top
            &&& (w >> 11u16) & 1u16 == a
            &&& (w >> 10u16) & 1u16 == b
            &&& (w >> 9u16) & 1u16 == c
            &&& (w >> 6u16) & 7u16 == d
            &&& (w & 0x20u16 == 0x20u16) == (s == 1u16)
            &&& w & 0x1fu16 == m
        }),
{
    assert({
        let w = (top << 12u16) | (((a << 11u16) | (b << 10u16) | (c << 9u16)) | (d << 6u16) | (s
            << 5u16) | m);
        &&& w >> 12u16 == top
        &&& (w >> 11u16) & 1u16 == a
        &&& (w >> 10u16) & 1u16 == b
        &&& (w >> 9u16) & 1u16 == c
        &&& (w >> 6u16) & 7u16 == d
        &&& (w & 0x20u16 == 0x20u16) == (s == 1u16)
        &&& w & 0x1fu16 == m
    }) by (bit_vector)
        requires
            top < 16,
            a <= 1,
            b <= 1,
            c <= 1,
            d < 8,
            s <= 1,
            m < 32,
    ;
}

proof fn lemma_bit(b: bool)
    ensures
        bit(b) <= 1,
        (bit(b) == 1u16) == b,
{
}

proof fn lemma_alu_round_trip(top: u16, a: AluInstruction)
    requires
        top < 16,
    ensures
        ((top << 12u16) | alu_bits(a)) >> 12u16 == top,
        alu_of((top << 12u16) | alu_bits(a)) == a,
{
    lemma_bit(a.nx);
    lemma_bit(a.ny);
    lemma_bit(a.no);
    lemma_reg_code_round_trip(a.dst);
    lemma_reg_code_round_trip(a.src_a);
    lemma_reg_code_round_trip(a.src_b);
    lemma_fields(
        top,
        bit(a.nx),
        bit(a.ny),
        bit(a.no),
        reg_code(a.dst),
        reg_code(a.src_a),
        reg_code(a.src_b),
    );
}

proof fn lemma_signed_field(s: i8, bound: int)
    requires
        -bound <= s <= bound,
        bound < 128,
    ensures
        shift_mag(s) <= bound,
        shift_sign(s) <= 1,
        signed_field(shift_mag(s), shift_sign(s) == 1u16) == s,
{
}

proof fn lemma_mem_round_trip(top: u16, m: MemInstruction)
    requires
        top < 16,
        -3 <= m.shift <= 3,
    ensures
        ((top << 12u16) | mem_bits(m)) >> 12u16 == top,
        mem_of((top << 12u16) | mem_bits(m)) == m,
{
    lemma_bit(m.hi);
    lemma_bit(m.lo);
    lemma_bit(m.sw);
    lemma_reg_code_round_trip(m.dst);
    lemma_reg_code_round_trip(m.addr);
    lemma_signed_field(m.shift, 3);
    lemma_mem_fields(
        top,
        bit(m.hi),
        bit(m.lo),
        bit(m.sw),
        reg_code(m.dst),
        reg_code(m.addr),
        shift_sign(m.shift),
        shift_mag(m.shift),
    );
}

proof fn lemma_branch_round_trip(top: u16, b: BranchInstruction)
    requires
        top < 16,
        -31 <= b.shift <= 31,
    ensures
        ((top << 12u16) | branch_bits(b)) >> 12u16 == top,
        branch_of((top << 12u16) | branch_bits(b)) == b,
{
    lemma_bit(b.eq);
    lemma_bit(b.gt);
    lemma_bit(b.lt);
    lemma_reg_code_round_trip(b.cond);
    lemma_signed_field(b.shift, 31);
    lemma_branch_fields(
        top,
        bit(b.eq),
        bit(b.gt),
        bit(b.lt),
        reg_code(b.cond),
        shift_sign(b.shift),
        shift_mag(b.shift),
    );
}

/// Decoding the word of a valid instruction gives the instruction back; a raw
/// data word only where its bits do not spell another shape.
pub proof fn lemma_decode_encode(i: Instruction)
    requires
        valid_instruction(i),
        raw_word_distinct(i),
    ensures
        decode_spec(encode_spec(i)) == i,
{
    assert(0x4000u16 == (4u16 << 12u16)) by (bit_vector);
    assert(0x5000u16 == (5u16 << 12u16)) by (bit_vector);
    assert(0x2000u16 == (2u16 << 12u16)) by (bit_vector);
    assert(0x3000u16 == (3u16 << 12u16)) by (bit_vector);
    assert(0x1000u16 == (1u16 << 12u16)) by (bit_vector);
    match i {
        Instruction::NOP => {
            assert(0u16 >> 12u16 == 0) by (bit_vector);
        },
        Instruction::AND(a) => {
            lemma_alu_round_trip(4, a);
        },
        Instruction::ADD(a) => {
            lemma_alu_round_trip(5, a);
        },
        Instruction::LOAD(m) => {
            lemma_mem_round_trip(2, m);
        },
        Instruction::STORE(m) => {
            lemma_mem_round_trip(3, m);
        },
        Instruction::BRANCH(b) => {
            lemma_branch_round_trip(1, b);
        },
        Instruction::CUSTOM(v) => {},
    }
}

/// Every word decodes, and what it decodes to is a valid instruction.
pub proof fn lemma_decode_total(w: u16)
    ensures
        valid_instruction(decode_spec(w)),
{
    assert(w & 3u16 <= 3) by (bit_vector);
    assert(w & 0x1fu16 <= 31) by (bit_vector);
}

impl Instruction {
    /// Checks that each shift field fits its shape.
    pub fn validate(&self) -> (r: Result<(), InstructionError>)
        ensures
            r is Ok <==> valid_instruction(*self),
    {
        match self {
            Instruction::LOAD(m) | Instruction::STORE(m) => {
                if m.shift < -3 || m.shift > 3 {
                    return Err(InstructionError::InvalidShift);
                }
                Ok(())
            },
            Instruction::BRANCH(b) => {
                if b.shift < -31 || b.shift > 31 {
                    return Err(InstructionError::InvalidShift);
                }
                Ok(())
            },
            _ => Ok(()),
        }
    }

    /// The instruction's 16-bit word; `InvalidShift` when a shift is out of range.
    pub fn encode(&self) -> (r: Result<u16, InstructionError>)
        ensures
            valid_instruction(*self) ==> r == Ok::<u16, InstructionError>(encode_spec(*self)),
            !valid_instruction(*self) ==> r == Err::<u16, InstructionError>(
                InstructionError::InvalidShift,
            ),
    {
        match self {
            Instruction::NOP => Ok(0),
            Instruction::AND(a) => Ok(0x4000u16 | alu_word(a)),
            Instruction::ADD(a) => Ok(0x5000u16 | alu_word(a)),
            Instruction::LOAD(m) => {
                if m.shift < -3 || m.shift > 3 {
                    return Err(InstructionError::InvalidShift);
                }
                Ok(0x2000u16 | mem_word(m))
            },
            Instruction::STORE(m) => {
                if m.shift < -3 || m.shift > 3 {
                    return Err(InstructionError::InvalidShift);
                }
                Ok(0x3000u16 | mem_word(m))
            },
            Instruction::BRANCH(b) => {
                if b.shift < -31 || b.shift > 31 {
                    return Err(InstructionError::InvalidShift);
                }
                Ok(0x1000u16 | branch_word(b))
            },
            Instruction::CUSTOM(v) => Ok(*v),
        }
    }

    /// The instruction that a word stands for. Every word decodes.
    pub fn decode(ins: u16) -> (r: Instruction)
        ensures
            r == decode_spec(ins),
    {
        let top = ins >> 12u16;
        if top == 0 {
            if ins == 0 {
                Instruction::NOP
            } else {
                Instruction::CUSTOM(ins)
            }
        } else if top == 4 {
            Instruction::AND(alu_from_word(ins))
        } else if top == 5 {
            Instruction::ADD(alu_from_word(ins))
        } else if top == 2 {
            Instruction::LOAD(mem_from_word(ins))
        } else if top == 3 {
            Instruction::STORE(mem_from_word(ins))
        } else if top == 1 {
            Instruction::BRANCH(branch_from_word(ins))
        } else {
            Instruction::CUSTOM(ins)
        }
    }
}

fn flags_word(a: bool, b: bool, c: bool) -> (r: u16)
    ensures
        r == flag_bits(a, b, c),
{
    (bit_of(a) << 11u16) | (bit_of(b) << 10u16) | (bit_of(c) << 9u16)
}

fn shift_sign_of(s: i8) -> (r: u16)
    ensures
        r == shift_sign(s),
{
    bit_of(s < 0)
}

fn shift_mag_of(s: i8) -> (r: u16)
    requires
        s > -128,
    ensures
        r == shift_mag(s),
{
    if s < 0 {
        (-s) as u16
    } else {
        s as u16
    }
}

fn alu_word(a: &AluInstruction) -> (r: u16)
    ensures
        r == alu_bits(*a),
{
    flags_word(a.nx, a.ny, a.no) | (a.dst.code() << 6u16) | (a.src_a.code() << 3u16)
        | a.src_b.code()
}

fn mem_word(m: &MemInstruction) -> (r: u16)
    requires
        m.shift > -128,
    ensures
        r == mem_bits(*m),
{
    flags_word(m.hi, m.lo, m.sw) | (m.dst.code() << 6u16) | (m.addr.code() << 3u16) | (
    shift_sign_of(m.shift) << 2u16) | shift_mag_of(m.shift)
}

fn branch_word(b: &BranchInstruction) -> (r: u16)
    requires
        b.shift > -128,
    ensures
        r == branch_bits(*b),
{
    flags_word(b.eq, b.gt, b.lt) | (b.cond.code() << 6u16) | (shift_sign_of(b.shift) << 5u16)
        | shift_mag_of(b.shift)
}

fn signed_from(mag: u16, negative: bool) -> (r: i8)
    requires
        mag < 32,
    ensures
        r == signed_field(mag, negative),
{
    let m = mag as i8;
    if negative {
        -m
    } else {
        m
    }
}

fn alu_from_word(w: u16) -> (r: AluInstruction)
    ensures
        r == alu_of(w),
{
    AluInstruction {
        nx: (w >> 11u16) & 1 == 1,
        ny: (w >> 10u16) & 1 == 1,
        no: (w >> 9u16) & 1 == 1,
        dst: Register::from_code((w >> 6u16) & 7),
        src_a: Register::from_code((w >> 3u16) & 7),
        src_b: Register::from_code(w & 7),
    }
}

fn mem_from_word(w: u16) -> (r: MemInstruction)
    ensures
        r == mem_of(w),
{
    assert(w & 3u16 <= 3) by (bit_vector);
    MemInstruction {
        hi: (w >> 11u16) & 1 == 1,
        lo: (w >> 10u16) & 1 == 1,
        sw: (w >> 9u16) & 1 == 1,
        dst: Register::from_code((w >> 6u16) & 7),
        addr: Register::from_code((w >> 3u16) & 7),
        shift: signed_from(w & 3, w & 4 == 4),
    }
}

fn branch_from_word(w: u16) -> (r: BranchInstruction)
    ensures
        r == branch_of(w),
{
    assert(w & 0x1fu16 <= 31) by (bit_vector);
    BranchInstruction {
        eq: (w >> 11u16) & 1 == 1,
        gt: (w >> 10u16) & 1 == 1,
        lt: (w >> 9u16) & 1 == 1,
        cond: Register::from_code((w >> 6u16) & 7),
        shift: signed_from(w & 0x1f, w & 0x20 == 0x20),
    }
}

} // verus!
