use vstd::prelude::*;

pub mod cpu;
pub mod error;
pub mod context;
pub mod ops;
pub mod load_const;
pub mod jump;
pub mod stackop;
pub mod optim;
pub mod comp;
pub mod asm_stack;
pub mod compile;
pub mod parse_parts;
pub mod parse;
pub mod stmt;
pub mod disasm;
pub mod exec;
