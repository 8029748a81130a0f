use vstd::prelude::*;

use crate::cpu::{self, reg_name, Register};
use crate::error::string_of;

verus! {

pub open spec fn hex_digit(d: nat) -> char {
    if d < 10 {
        (('0' as nat) + d) as char
    } else {
        (('a' as nat) + d - 10) as char
    }
}

/// Lower-case hexadecimal digits of `v`, without leading zeros.
pub open spec fn hex_spec(v: nat) -> Seq<char>
    decreases v,
{
    if v < 16 {
        seq![hex_digit(v)]
    } else {
        hex_spec(v / 16).push(hex_digit(v % 16))
    }
}

/// Decimal digits of `v`, without leading zeros.
pub open spec fn dec_spec(v: nat) -> Seq<char>
    decreases v,
{
    if v < 10 {
        seq![hex_digit(v)]
    } else {
        dec_spec(v / 10).push(hex_digit(v % 10))
    }
}

/// A signed shift in decimal.
pub open spec fn shift_text(s: i8) -> Seq<char> {
    if s < 0 {
        seq!['-'] + dec_spec((-s) as nat)
    } else {
        dec_spec(s as nat)
    }
}

/// `.` and the letters of the flags that are set, or nothing when none is.
pub open spec fn flags_text(names: Seq<char>, a: bool, b: bool, c: bool) -> Seq<char> {
    if !a && !b && !c {
        seq![]
    } else {
        seq!['.'] + (if a {
            seq![names[0]]
        } else {
            seq![]
        }) + (if b {
            seq![names[1]]
        } else {
            seq![]
        }) + (if c {
            seq![names[2]]
        } else {
            seq![]
        })
    }
}

pub open spec fn sp() -> Seq<char> {
    seq![' ']
}

pub open spec fn reg_field(r: Register) -> Seq<char> {
    sp() + reg_name(r)
}

pub open spec fn shift_field(s: i8) -> Seq<char> {
    sp() + shift_text(s)
}

pub open spec fn alu_rest(a: cpu::AluInstruction) -> Seq<char> {
    flags_text(seq!['x', 'y', 'o'], a.nx, a.ny, a.no) + reg_field(a.dst) + reg_field(a.src_a)
        + reg_field(a.src_b)
}

pub open spec fn mem_rest(m: cpu::MemInstruction) -> Seq<char> {
    flags_text(seq!['h', 'l', 's'], m.hi, m.lo, m.sw) + reg_field(m.dst) + reg_field(m.addr)
        + shift_field(m.shift)
}

pub open spec fn branch_rest(b: cpu::BranchInstruction) -> Seq<char> {
    flags_text(seq!['e', 'g', 'l'], b.eq, b.gt, b.lt) + reg_field(b.cond) + shift_field(b.shift)
}

/// The text of one instruction: mnemonic, flags, operands.
pub open spec fn disasm_spec(i: cpu::Instruction) -> Seq<char> {
    match i {
        cpu::Instruction::NOP => "NOP"@,
        cpu::Instruction::ADD(a) => "ADD"@ + alu_rest(a),
        cpu::Instruction::AND(a) => "AND"@ + alu_rest(a),
        cpu::Instruction::LOAD(m) => "LOAD"@ + mem_rest(m),
        cpu::Instruction::STORE(m) => "STORE"@ + mem_rest(m),
        cpu::Instruction::BRANCH(b) => "BRANCH"@ + branch_rest(b),
        cpu::Instruction::CUSTOM(v) => "0x"@ + hex_spec(v as nat),
    }
}

fn digit_char(d: u32) -> (c: char)
    requires
        d < 16,
    ensures
        c == hex_digit(d as nat),
{
    if d < 10 {
        (('0' as u8) + d as u8) as char
    } else {
        (('a' as u8) + (d - 10) as u8) as char
    }
}

/// Appends the digits of `v` in base `radix`.
fn push_digits(out: &mut Vec<char>, v: u32, radix: u32)
    requires
        radix == 10 || radix == 16,
    ensures
        radix == 16 ==> final(out)@ == old(out)@ + hex_spec(v as nat),
        radix == 10 ==> final(out)@ == old(out)@ + dec_spec(v as nat),
    decreases v,
{
    if v < radix {
        out.push(digit_char(v));
        proof {
            if radix == 16 {
                assert(hex_spec(v as nat) == seq![hex_digit(v as nat)]);
            } else {
                assert(dec_spec(v as nat) == seq![hex_digit(v as nat)]);
            }
        }
        assert(final(out)@ =~= old(out)@ + seq![hex_digit(v as nat)]);
    } else {
        push_digits(out, v / radix, radix);
        out.push(digit_char(v % radix));
        proof {
            if radix == 16 {
                assert((old(out)@ + hex_spec((v / 16) as nat)).push(hex_digit((v % 16) as nat))
                    =~= old(out)@ + hex_spec(v as nat));
            } else {
                assert((old(out)@ + dec_spec((v / 10) as nat)).push(hex_digit((v % 10) as nat))
                    =~= old(out)@ + dec_spec(v as nat));
            }
        }
    }
}

fn push_str(out: &mut Vec<char>, s: &str)
    ensures
        final(out)@ == old(out)@ + s@,
{
    let n = s.unicode_len();
    let mut i: usize = 0;
    while i < n
        invariant
            n == s@.len(),
            0 <= i <= n,
            out@ == old(out)@ + s@.take(i as int),
        decreases n - i,
    {
        out.push(s.get_char(i));
        assert(old(out)@ + s@.take(i + 1) =~= (old(out)@ + s@.take(i as int)).push(s@[i as int]));
        i = i + 1;
    }
    assert(s@.take(i as int) =~= s@);
}

fn flags_vec(names: [char; 3], a: bool, b: bool, c: bool) -> (r: Vec<char>)
    ensures
        r@ == flags_text(names@, a, b, c),
{
    let mut out: Vec<char> = Vec::new();
    if a || b || c {
        out.push('.');
        if a {
            out.push(names[0]);
        }
        if b {
            out.push(names[1]);
        }
        if c {
            out.push(names[2]);
        }
    }
    assert(out@ =~= flags_text(names@, a, b, c));
    out
}

fn reg_vec(r: Register) -> (v: Vec<char>)
    ensures
        v@ == reg_field(r),
{
    let mut out: Vec<char> = Vec::new();
    out.push(' ');
    push_str(&mut out, r.name());
    assert(out@ =~= reg_field(r));
    out
}

fn shift_vec(s: i8) -> (v: Vec<char>)
    ensures
        v@ == shift_field(s),
{
    let mut out: Vec<char> = Vec::new();
    out.push(' ');
    let ghost mid = out@;
    if s < 0 {
        out.push('-');
        push_digits(&mut out, (-(s as i32)) as u32, 10);
        assert(out@ =~= mid + shift_text(s));
    } else {
        push_digits(&mut out, s as u32, 10);
    }
    assert(out@ =~= shift_field(s));
    out
}

fn concat(a: Vec<char>, b: Vec<char>) -> (r: Vec<char>)
    ensures
        r@ == a@ + b@,
{
    let mut a = a;
    let mut b = b;
    a.append(&mut b);
    a
}

fn alu_vec(a: cpu::AluInstruction) -> (r: Vec<char>)
    ensures
        r@ == alu_rest(a),
{
    concat(
        concat(concat(flags_vec(['x', 'y', 'o'], a.nx, a.ny, a.no), reg_vec(a.dst)), reg_vec(a.src_a)),
        reg_vec(a.src_b),
    )
}

fn mem_vec(m: cpu::MemInstruction) -> (r: Vec<char>)
    ensures
        r@ == mem_rest(m),
{
    concat(
        concat(concat(flags_vec(['h', 'l', 's'], m.hi, m.lo, m.sw), reg_vec(m.dst)), reg_vec(m.addr)),
        shift_vec(m.shift),
    )
}

fn branch_vec(b: cpu::BranchInstruction) -> (r: Vec<char>)
    ensures
        r@ == branch_rest(b),
{
    concat(concat(flags_vec(['e', 'g', 'l'], b.eq, b.gt, b.lt), reg_vec(b.cond)), shift_vec(b.shift))
}

fn str_vec(s: &str) -> (r: Vec<char>)
    ensures
        r@ == s@,
{
    let mut out: Vec<char> = Vec::new();
    push_str(&mut out, s);
    assert(out@ =~= s@);
    out
}

/// The text of an instruction, as `MNEMONIC.flags operands`; raw words in hexadecimal.
pub fn disassemle_instruction(ins: cpu::Instruction) -> (r: String)
    ensures
        r@ == disasm_spec(ins),
{
    let out = match ins {
        cpu::Instruction::NOP => str_vec("NOP"),
        cpu::Instruction::ADD(a) => concat(str_vec("ADD"), alu_vec(a)),
        cpu::Instruction::AND(a) => concat(str_vec("AND"), alu_vec(a)),
        cpu::Instruction::LOAD(m) => concat(str_vec("LOAD"), mem_vec(m)),
        cpu::Instruction::STORE(m) => concat(str_vec("STORE"), mem_vec(m)),
        cpu::Instruction::BRANCH(b) => concat(str_vec("BRANCH"), branch_vec(b)),
        cpu::Instruction::CUSTOM(v) => {
            let mut o = str_vec("0x");
            push_digits(&mut o, v as u32, 16);
            o
        },
    };
    string_of(out.as_slice())
}

/// A signed number in decimal.
pub open spec fn signed_text(v: int) -> Seq<char> {
    if v < 0 {
        seq!['-'] + dec_spec((-v) as nat)
    } else {
        dec_spec(v as nat)
    }
}

/// The decimal text of `v`.
pub fn decimal_text(v: i32) -> (r: String)
    ensures
        r@ == signed_text(v as int),
{
    let mut out: Vec<char> = Vec::new();
    if v < 0 {
        out.push('-');
        let m: u32 = if v == i32::MIN {
            0x8000_0000u32
        } else {
            (-v) as u32
        };
        push_digits(&mut out, m, 10);
        assert(out@ =~= signed_text(v as int));
    } else {
        push_digits(&mut out, v as u32, 10);
        assert(out@ =~= signed_text(v as int));
    }
    string_of(out.as_slice())
}

/// The text of each word of a program, one line per word.
pub fn disassemble(words: &Vec<u16>) -> (r: Vec<String>)
    ensures
        r@.len() == words@.len(),
        forall|i: int| 0 <= i < r@.len() ==> #[trigger] r@[i]@ == disasm_spec(cpu::decode_spec(words@[i])),
{
    let mut r: Vec<String> = Vec::new();
    let mut i: usize = 0;
    while i < words.len()
        invariant
            0 <= i <= words.len(),
            r@.len() == i,
            forall|j: int| 0 <= j < i ==> #[trigger] r@[j]@ == disasm_spec(cpu::decode_spec(words@[j])),
        decreases words.len() - i,
    {
        r.push(disassemle_instruction(cpu::Instruction::decode(words[i])));
        i = i + 1;
    }
    r
}

} // verus!
