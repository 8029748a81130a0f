use vstd::prelude::*;

use crate::context::{wadd, wrapping_add16, wrapping_sub16, wsub};
use crate::cpu::{self, decode_spec, Register};

verus! {

/// A reference machine: program counter, the six writable general registers
/// (R2..R5, LP, SP) and 64 Ki words of memory. Writing 0 to the last word halts it.
///
/// Semantics of the instructions: an ALU word negates its operands and result
/// bitwise as its flags say and ANDs or adds them; a LOAD reads
/// `addr + shift`, byte-swapped when `sw` is set, and writes it to `dst`
/// (adding it when `hi` is set, subtracting it when `lo` is set); a STORE
/// writes `dst` there, byte-swapped when `sw` is set; a BRANCH moves PC by its
/// shift when `cond`, read as signed, is zero, positive or negative as its
/// flags select. A write to PC jumps; otherwise PC moves to the next word.
pub struct ExecCpu {
    pub pc: u16,
    pub registers: Vec<u16>,
    pub mem: Vec<u16>,
}

pub const MEM_WORDS: usize = 0x10000;

pub open spec fn reg_index(r: Register) -> int {
    match r {
        Register::R2 => 0,
        Register::R3 => 1,
        Register::R4 => 2,
        Register::R5 => 3,
        Register::LP => 4,
        Register::SP => 5,
        _ => -1,
    }
}

/// The machine's state as a model.
pub struct CpuState {
    pub pc: u16,
    pub regs: Seq<u16>,
    pub mem: Seq<u16>,
}

pub open spec fn get_reg_spec(s: CpuState, r: Register) -> u16 {
    match r {
        Register::ZX => 0,
        Register::PC => s.pc,
        _ => s.regs[reg_index(r)],
    }
}

/// Writes `v` to `r`; the flag says whether PC was written.
pub open spec fn set_reg_spec(s: CpuState, r: Register, v: u16) -> (CpuState, bool) {
    match r {
        Register::ZX => (s, false),
        Register::PC => (CpuState { pc: v, ..s }, true),
        _ => (CpuState { regs: s.regs.update(reg_index(r), v), ..s }, false),
    }
}

pub open spec fn swap_bytes(v: u16) -> u16 {
    ((v << 8u16) | (v >> 8u16)) as u16
}

pub open spec fn shift_u16(s: i8) -> u16 {
    if s < 0 {
        (0x10000 + s) as u16
    } else {
        s as u16
    }
}

pub open spec fn alu_value(add: bool, i: cpu::AluInstruction, x: u16, y: u16) -> u16 {
    let x1: u16 = if i.nx {
        !x
    } else {
        x
    };
    let y1: u16 = if i.ny {
        !y
    } else {
        y
    };
    let o: u16 = if add {
        wadd(x1, y1)
    } else {
        x1 & y1
    };
    if i.no {
        !o
    } else {
        o
    }
}

pub open spec fn as_signed(v: u16) -> int {
    if v < 0x8000 {
        v as int
    } else {
        v - 0x10000
    }
}

pub open spec fn branch_taken(b: cpu::BranchInstruction, v: u16) -> bool {
    (b.eq && as_signed(v) == 0) || (b.gt && as_signed(v) > 0) || (b.lt && as_signed(v) < 0)
}

/// The state after executing `i`, and whether PC was written.
pub open spec fn exec_spec(s: CpuState, i: cpu::Instruction) -> (CpuState, bool) {
    match i {
        cpu::Instruction::AND(a) => set_reg_spec(
            s,
            a.dst,
            alu_value(false, a, get_reg_spec(s, a.src_a), get_reg_spec(s, a.src_b)),
        ),
        cpu::Instruction::ADD(a) => set_reg_spec(
            s,
            a.dst,
            alu_value(true, a, get_reg_spec(s, a.src_a), get_reg_spec(s, a.src_b)),
        ),
        cpu::Instruction::LOAD(m) => {
            let addr = wadd(get_reg_spec(s, m.addr), shift_u16(m.shift));
            let raw = s.mem[addr as int];
            let v = if m.sw {
                swap_bytes(raw)
            } else {
                raw
            };
            let old = get_reg_spec(s, m.dst);
            let nv = if m.hi {
                wadd(old, v)
            } else if m.lo {
                wsub(old, v)
            } else {
                v
            };
            set_reg_spec(s, m.dst, nv)
        },
        cpu::Instruction::STORE(m) => {
            let addr = wadd(get_reg_spec(s, m.addr), shift_u16(m.shift));
            let raw = get_reg_spec(s, m.dst);
            let v = if m.sw {
                swap_bytes(raw)
            } else {
                raw
            };
            (CpuState { mem: s.mem.update(addr as int, v), ..s }, false)
        },
        cpu::Instruction::BRANCH(b) => if branch_taken(b, get_reg_spec(s, b.cond)) {
            (CpuState { pc: wadd(s.pc, shift_u16(b.shift)), ..s }, true)
        } else {
            (s, false)
        },
        _ => (s, false),
    }
}

/// One step: decode the word at PC, execute it, move to the next word unless PC was written.
pub open spec fn step_spec(s: CpuState) -> CpuState {
    let (t, jumped) = exec_spec(s, decode_spec(s.mem[s.pc as int]));
    if jumped {
        t
    } else {
        CpuState { pc: wadd(t.pc, 1), ..t }
    }
}

/// Up to `k` steps, stopping once the halt word is zero.
pub open spec fn run_spec(s: CpuState, k: nat) -> CpuState
    decreases k,
{
    if k == 0 || s.mem[0xffff] == 0 {
        s
    } else {
        run_spec(step_spec(s), (k - 1) as nat)
    }
}

impl ExecCpu {
    pub open spec fn wf(&self) -> bool {
        self.registers@.len() == 6 && self.mem@.len() == MEM_WORDS
    }

    pub open spec fn state(&self) -> CpuState {
        CpuState { pc: self.pc, regs: self.registers@, mem: self.mem@ }
    }

    /// A machine with `init_ram` loaded at address 0, the rest zero, and the
    /// halt word set; all registers zero.
    pub fn new(init_ram: Vec<u16>) -> (r: ExecCpu)
        ensures
            r.wf(),
            r.pc == 0,
            r.registers@ == seq![0u16, 0, 0, 0, 0, 0],
            forall|i: int| 0 <= i < init_ram@.len() && i < 0xffff ==> r.mem@[i] == init_ram@[i],
            forall|i: int| init_ram@.len() <= i < 0xffff ==> r.mem@[i] == 0,
            r.mem@[0xffff] == 0xffff,
    {
        let mut mem: Vec<u16> = Vec::new();
        let mut i: usize = 0;
        while i < MEM_WORDS
            invariant
                0 <= i <= MEM_WORDS,
                mem@.len() == i,
                forall|j: int| 0 <= j < i && j < init_ram@.len() ==> mem@[j] == init_ram@[j],
                forall|j: int| 0 <= j < i && j >= init_ram@.len() ==> mem@[j] == 0,
            decreases MEM_WORDS - i,
        {
            if i < init_ram.len() {
                mem.push(init_ram[i]);
            } else {
                mem.push(0);
            }
            i = i + 1;
        }
        mem.set(0xffff, 0xffff);
        ExecCpu { pc: 0, registers: vec![0, 0, 0, 0, 0, 0], mem }
    }

    pub fn get_reg(&self, reg: Register) -> (r: u16)
        requires
            self.wf(),
        ensures
            r == get_reg_spec(self.state(), reg),
    {
        match reg {
            Register::ZX => 0,
            Register::PC => self.pc,
            Register::R2 => self.registers[0],
            Register::R3 => self.registers[1],
            Register::R4 => self.registers[2],
            Register::R5 => self.registers[3],
            Register::LP => self.registers[4],
            Register::SP => self.registers[5],
        }
    }

    /// Writes a register; returns whether PC was written.
    pub fn set_reg(&mut self, reg: Register, val: u16) -> (jumped: bool)
        requires
            old(self).wf(),
        ensures
            final(self).wf(),
            (final(self).state(), jumped) == set_reg_spec(old(self).state(), reg, val),
    {
        let r = match reg {
            Register::ZX => false,
            Register::PC => {
                self.pc = val;
                true
            },
            Register::R2 => {
                self.registers.set(0, val);
                false
            },
            Register::R3 => {
                self.registers.set(1, val);
                false
            },
            Register::R4 => {
                self.registers.set(2, val);
                false
            },
            Register::R5 => {
                self.registers.set(3, val);
                false
            },
            Register::LP => {
                self.registers.set(4, val);
                false
            },
            Register::SP => {
                self.registers.set(5, val);
                false
            },
        };
        assert(final(self).state() =~= set_reg_spec(old(self).state(), reg, val).0);
        r
    }

    pub fn get_mem(&self, addr: u16) -> (r: u16)
        requires
            self.wf(),
        ensures
            r == self.mem@[addr as int],
    {
        self.mem[addr as usize]
    }

    pub fn set_mem(&mut self, addr: u16, val: u16)
        requires
            old(self).wf(),
        ensures
            final(self).wf(),
            final(self).state() == (CpuState { mem: old(self).mem@.update(addr as int, val), ..old(self).state() }),
    {
        self.mem.set(addr as usize, val);
    }

    fn execute(&mut self, ins: cpu::Instruction) -> (jumped: bool)
        requires
            old(self).wf(),
        ensures
            final(self).wf(),
            (final(self).state(), jumped) == exec_spec(old(self).state(), ins),
    {
        match ins {
            cpu::Instruction::AND(a) | cpu::Instruction::ADD(a) => {
                let add = match ins {
                    cpu::Instruction::ADD(_) => true,
                    _ => false,
                };
                let x = self.get_reg(a.src_a);
                let y = self.get_reg(a.src_b);
                let x1 = if a.nx {
                    !x
                } else {
                    x
                };
                let y1 = if a.ny {
                    !y
                } else {
                    y
                };
                let o = if add {
                    wrapping_add16(x1, y1)
                } else {
                    x1 & y1
                };
                let v = if a.no {
                    !o
                } else {
                    o
                };
                self.set_reg(a.dst, v)
            },
            cpu::Instruction::LOAD(m) => {
                let addr = wrapping_add16(self.get_reg(m.addr), shift_of(m.shift));
                let raw = self.get_mem(addr);
                let v = if m.sw {
                    swap(raw)
                } else {
                    raw
                };
                let old = self.get_reg(m.dst);
                let nv = if m.hi {
                    wrapping_add16(old, v)
                } else if m.lo {
                    wrapping_sub16(old, v)
                } else {
                    v
                };
                self.set_reg(m.dst, nv)
            },
            cpu::Instruction::STORE(m) => {
                let addr = wrapping_add16(self.get_reg(m.addr), shift_of(m.shift));
                let raw = self.get_reg(m.dst);
                let v = if m.sw {
                    swap(raw)
                } else {
                    raw
                };
                self.set_mem(addr, v);
                false
            },
            cpu::Instruction::BRANCH(b) => {
                let v = self.get_reg(b.cond);
                let neg = v >= 0x8000;
                let taken = (b.eq && v == 0) || (b.gt && v != 0 && !neg) || (b.lt && neg);
                if taken {
                    self.pc = wrapping_add16(self.pc, shift_of(b.shift));
                    true
                } else {
                    false
                }
            },
            _ => false,
        }
    }

    /// Executes the word at PC.
    pub fn exec_next(&mut self)
        requires
            old(self).wf(),
        ensures
            final(self).wf(),
            final(self).state() == step_spec(old(self).state()),
    {
        let cur = self.get_mem(self.pc);
        let ins = cpu::Instruction::decode(cur);
        let jumped = self.execute(ins);
        if !jumped {
            self.pc = wrapping_add16(self.pc, 1);
        }
    }

    /// Whether the halt word has been cleared.
    pub fn halted(&self) -> (r: bool)
        requires
            self.wf(),
        ensures
            r == (self.mem@[0xffff] == 0),
    {
        self.mem[0xffff] == 0
    }

    /// Steps until the machine halts, at most `limit` times; returns whether it halted.
    pub fn run_steps(&mut self, limit: usize) -> (r: bool)
        requires
            old(self).wf(),
        ensures
            final(self).wf(),
            final(self).state() == run_spec(old(self).state(), limit as nat),
            r == (final(self).mem@[0xffff] == 0),
    {
        let mut k: usize = 0;
        while k < limit && !self.halted()
            invariant
                self.wf(),
                k <= limit,
                run_spec(old(self).state(), limit as nat) == run_spec(self.state(), (limit - k) as nat),
            decreases limit - k,
        {
            self.exec_next();
            k = k + 1;
        }
        self.halted()
    }
}

fn swap(v: u16) -> (r: u16)
    ensures
        r == swap_bytes(v),
{
    (v << 8u16) | (v >> 8u16)
}

fn shift_of(s: i8) -> (r: u16)
    ensures
        r == shift_u16(s),
{
    if s < 0 {
        (0x10000i32 + s as i32) as u16
    } else {
        s as u16
    }
}

} // verus!
