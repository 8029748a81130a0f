use easycpu::compile::{compile_pass, compile_program, declare_labels, Atom, Instruction as Stmt};
use easycpu::comp::compile as compile_optimized;
use easycpu::context::CompileContext;
use easycpu::cpu::{AluInstruction, BranchInstruction, Instruction, MemInstruction, Register};
use easycpu::disasm::{disassemble, disassemle_instruction};
use easycpu::error::CompileError;
use easycpu::exec::ExecCpu;
use easycpu::optim::optimize;
use easycpu::parse::{parse_and_compile, parse_listing};
use easycpu::stackop::{
    compile_stackop, AluStackOp, ConstStackOp, LocalOperation, LocalStackOp, ManipStackOp,
    StackLocalMode, StackOperation,
};
use easycpu::ops::AluOperation;
use easycpu::load_const::{LoadConstInstruction, LoadConstOperation};
use easycpu::asm_stack::StackConstInstruction;

fn words(src: &str) -> Vec<u16> {
    match parse_and_compile(src) {
        Ok(w) => w,
        Err(e) => panic!("compile failed: {:?}", e),
    }
}

fn first_error(src: &str) -> CompileError {
    match parse_and_compile(src) {
        Ok(w) => panic!("expected an error, got {:?}", w),
        Err(e) => e[0].error.clone(),
    }
}

fn run(program: &[u16], steps: usize) -> ExecCpu {
    let mut cpu = ExecCpu::new(program.to_vec());
    let mut k = 0;
    while k < steps && !cpu.halted() {
        cpu.exec_next();
        k += 1;
    }
    cpu
}

fn encode_all(ins: &[Instruction]) -> Vec<u16> {
    ins.iter().map(|i| i.encode().unwrap()).collect()
}

#[test]
fn nop_compiles_to_zero() {
    assert_eq!(words("NOP"), vec![0x0000]);
}

#[test]
fn empty_listing_compiles_to_nothing() {
    assert_eq!(words(""), Vec::<u16>::new());
}

#[test]
fn add_zx_zx_zx() {
    let w = words("ADD ZX ZX ZX");
    assert_eq!(w, vec![0x5000]);
    match Instruction::decode(w[0]) {
        Instruction::ADD(a) => {
            assert_eq!(a.dst, Register::ZX);
            assert_eq!(a.src_a, Register::ZX);
            assert_eq!(a.src_b, Register::ZX);
            assert!(!a.nx && !a.ny && !a.no);
        }
        other => panic!("not an ADD: {:?}", other),
    }
}

#[test]
fn mnemonics_are_case_insensitive() {
    assert_eq!(words("add zx zx zx"), vec![0x5000]);
}

#[test]
fn load_label_resolves_to_zero() {
    let w = words("LABEL: NOP\nLLABEL R2 LABEL");
    // NOP; MOV R2 PC ZX; then adding -1 to R2, the short form of the offset.
    assert_eq!(w, vec![0x0000, 0x5088, 0x5490]);
    let cpu = run(&w, 3);
    assert_eq!(cpu.get_reg(Register::R2), 0);
}

#[test]
fn far_conditional_jump_takes_long_form() {
    let mut src = String::from("JEQ R2 FAR\n");
    for _ in 0..40 {
        src.push_str("NOP\n");
    }
    src.push_str("FAR: NOP\n");
    let w = words(&src);
    assert_eq!(w.len(), 3 + 40 + 1);
    assert_eq!(
        Instruction::decode(w[0]),
        Instruction::BRANCH(BranchInstruction { eq: false, gt: true, lt: true, cond: Register::R2, shift: 3 })
    );
    assert_eq!(
        Instruction::decode(w[1]),
        Instruction::LOAD(MemInstruction {
            hi: true,
            lo: false,
            sw: false,
            dst: Register::PC,
            addr: Register::PC,
            shift: 1
        })
    );
    // From the add at address 1 to FAR at address 43.
    assert_eq!(w[2], 42);
}

#[test]
fn near_jump_is_one_branch() {
    let w = words("JMP END\nNOP\nEND: NOP");
    assert_eq!(w.len(), 3);
    assert_eq!(
        Instruction::decode(w[0]),
        Instruction::BRANCH(BranchInstruction { eq: true, gt: true, lt: true, cond: Register::ZX, shift: 2 })
    );
}

#[test]
fn naive_and_optimized_stack_code_agree() {
    let naive = words("$INIT; $PCONST 5; $PCONST 3; $SUB; HALT");
    let listing = parse_listing("$PCONST 5; $PCONST 3; $SUB").unwrap();
    let mut ops: Vec<StackOperation> = Vec::new();
    for fa in listing {
        match fa.compiled {
            Ok(Atom::Instruction(Stmt::StackOp(o))) => ops.push(o.op),
            other => panic!("not a stack operation: {:?}", other),
        }
    }
    assert_eq!(ops.len(), 3);
    let mut opt = words("$INIT");
    opt.extend(encode_all(&compile_optimized(&ops)));
    opt.extend(words("HALT"));

    let a = run(&naive, 1000);
    let b = run(&opt, 1000);
    assert!(a.halted() && b.halted());
    for r in [Register::R2, Register::R3, Register::R4, Register::R5, Register::LP, Register::SP] {
        assert_eq!(a.get_reg(r), b.get_reg(r), "register {:?}", r);
    }
    let sp = a.get_reg(Register::SP);
    assert_eq!(sp, 0x4001);
    for addr in 0x4000u16..sp {
        assert_eq!(a.get_mem(addr), b.get_mem(addr));
    }
    assert_eq!(a.get_mem(0x4000), 2);
}

#[test]
fn compiling_twice_gives_the_same_words() {
    let src = "START: LCONST R2 0x1234\n{ L: JNE R2 L }\nJMP START\n\"hi\"";
    assert_eq!(words(src), words(src));
}

#[test]
fn rerunning_a_converged_pass_changes_nothing() {
    let listing = parse_listing("JMP B\nA: NOP\nB: LLABEL R3 A\nJEQ R3 A").unwrap();
    let atoms: Vec<Atom> = listing.into_iter().map(|fa| fa.compiled.unwrap()).collect();
    let mut ctx = CompileContext::new();
    declare_labels(&atoms, &mut ctx).unwrap();
    let mut passes = 0;
    loop {
        ctx.reset();
        let mut errors = Vec::new();
        compile_pass(&atoms, &mut ctx, &mut errors);
        assert!(errors.is_empty());
        passes += 1;
        if !ctx.should_recompile {
            break;
        }
        assert!(passes < 1024);
    }
    let first = ctx.instructions.clone();
    ctx.reset();
    let mut errors = Vec::new();
    compile_pass(&atoms, &mut ctx, &mut errors);
    assert!(errors.is_empty());
    assert!(!ctx.should_recompile);
    assert_eq!(ctx.instructions, first);
}

#[test]
fn reoptimizing_is_stable() {
    let ops = vec![
        StackOperation::Const(ConstStackOp { val: 3, do_add: false }),
        StackOperation::Alu(AluStackOp { op: AluOperation::SUB, nx: false, ny: false, no: false }),
        StackOperation::Local(LocalStackOp { op: LocalOperation::STORE(StackLocalMode::VAR), idx: 1 }),
        StackOperation::Local(LocalStackOp { op: LocalOperation::LOAD(StackLocalMode::VAR), idx: 1 }),
        StackOperation::Const(ConstStackOp { val: 9, do_add: false }),
        StackOperation::Manip(ManipStackOp::drop(1)),
    ];
    let once = optimize(ops);
    assert_eq!(
        once,
        vec![
            StackOperation::Const(ConstStackOp { val: 0xfffd, do_add: true }),
            StackOperation::Manip(ManipStackOp::dup()),
            StackOperation::Local(LocalStackOp { op: LocalOperation::STORE(StackLocalMode::VAR), idx: 1 }),
            StackOperation::Manip(ManipStackOp::drop(0)),
        ]
    );
    let twice = optimize(once.clone());
    assert_eq!(twice, once);
}

#[test]
fn optimizing_nothing_gives_nothing() {
    assert!(optimize(Vec::new()).is_empty());
    assert!(compile_optimized(&Vec::new()).is_empty());
}

#[test]
fn block_labels_are_local() {
    assert!(matches!(
        first_error("{ INNER: NOP }\nJMP INNER"),
        CompileError::UnknownLabel(s) if s == "INNER"
    ));
    let w = words("{ L: NOP\nJMP L }\n{ L: NOP\nJMP L }");
    assert_eq!(w.len(), 4);
}

#[test]
fn inner_block_sees_outer_label() {
    let w = words("TOP: NOP\n{ JMP TOP }");
    assert_eq!(
        Instruction::decode(w[1]),
        Instruction::BRANCH(BranchInstruction { eq: true, gt: true, lt: true, cond: Register::ZX, shift: -1 })
    );
}

#[test]
fn redefined_label_is_refused() {
    assert!(matches!(first_error("A: NOP\nA: NOP"), CompileError::LabelRedefined(s) if s == "A"));
}

#[test]
fn unknown_command() {
    assert!(matches!(first_error("FOO R2"), CompileError::UnknownCommand(s) if s == "FOO"));
}

#[test]
fn unknown_register() {
    assert!(matches!(first_error("ADD Q1 ZX ZX"), CompileError::UnknownRegister(s) if s == "Q1"));
}

#[test]
fn missing_operand() {
    assert!(matches!(first_error("ADD ZX"), CompileError::NotEnoughArguments));
}

#[test]
fn malformed_number() {
    assert!(matches!(first_error("LCONST R2 0XZZ"), CompileError::InvalidNumber(s) if s == "0XZZ"));
}

#[test]
fn shift_out_of_range() {
    assert!(matches!(first_error("LOAD R2 R3 5"), CompileError::ShiftIsTooBig(5)));
    assert!(matches!(first_error("BRANCH ZX 40"), CompileError::ShiftIsTooBig(40)));
}

#[test]
fn unknown_token() {
    assert!(matches!(first_error("@"), CompileError::UnknownToken('@')));
}

#[test]
fn unterminated_string() {
    assert!(matches!(first_error("\"abc"), CompileError::UnexpectedEndOfFile));
    assert!(matches!(first_error("{ NOP"), CompileError::UnexpectedEndOfFile));
}

#[test]
fn stray_closing_bracket() {
    assert!(matches!(first_error("NOP }"), CompileError::UnmatchedClosingBracket));
}

#[test]
fn errors_of_every_atom_are_reported() {
    match parse_and_compile("FOO\nNOP\nBAR") {
        Ok(_) => panic!("expected errors"),
        Err(e) => {
            assert_eq!(e.len(), 2);
            assert_eq!(e[0].start_pos.line, 0);
            assert_eq!(e[1].start_pos.line, 2);
        }
    }
}

#[test]
fn numeric_literals() {
    assert_eq!(words("0x10 0b101 -1 +7 65535"), vec![16, 5, 0xffff, 7, 0xffff]);
    assert!(matches!(first_error("65536"), CompileError::InvalidNumber(_)));
    assert!(matches!(first_error("-32769"), CompileError::InvalidNumber(_)));
    assert_eq!(words("-32768"), vec![0x8000]);
}

#[test]
fn string_literal_words() {
    assert_eq!(words("\"ab\\n\\t\\0\""), vec![0x61, 0x62, 0x0a, 0x09, 0x00]);
}

#[test]
fn comments_are_skipped() {
    assert_eq!(words("# just a comment\nNOP # trailing"), vec![0]);
}

#[test]
fn parentheses_reorder() {
    // The statement before the parentheses comes after their contents.
    assert_eq!(words("NOP (1 2)"), vec![1, 2, 0]);
}

#[test]
fn load_constant_forms() {
    assert_eq!(words("LCONST R2 0").len(), 1);
    assert_eq!(words("LCONST R2 1").len(), 1);
    assert_eq!(words("LCONST R2 2").len(), 2);
    assert_eq!(words("LCONST R2 -1").len(), 1);
    assert_eq!(words("LCONST R2 100").len(), 2);
    assert_eq!(words("LCONST R2 -100").len(), 3);
    let big = words("LCONST R2 0x8000");
    assert_eq!(big.len(), 3);
    assert_eq!(
        Instruction::decode(big[1]),
        Instruction::BRANCH(BranchInstruction { eq: true, gt: true, lt: true, cond: Register::ZX, shift: 2 })
    );
    for (src, val) in [
        ("LCONST R2 0", 0u16),
        ("LCONST R2 1", 1),
        ("LCONST R2 2", 2),
        ("LCONST R2 -1", 0xffff),
        ("LCONST R2 100", 100),
        ("LCONST R2 -100", 0xff9c),
        ("LCONST R2 0x8000", 0x8000),
    ] {
        let mut w = words(src);
        w.extend(words("HALT"));
        let cpu = run(&w, 100);
        assert!(cpu.halted());
        assert_eq!(cpu.get_reg(Register::R2), val, "{}", src);
    }
}

#[test]
fn add_constant_form() {
    let mut w = words("LCONST R3 40\nACONST R3 2\nACONST R3 0x7000\nHALT");
    w.truncate(w.len());
    let cpu = run(&w, 100);
    assert_eq!(cpu.get_reg(Register::R3), 0x702a);
}

#[test]
fn codec_round_trip() {
    let samples = [
        Instruction::NOP,
        Instruction::ADD(AluInstruction { nx: true, ny: false, no: true, dst: Register::SP, src_a: Register::LP, src_b: Register::R5 }),
        Instruction::AND(AluInstruction { nx: false, ny: true, no: false, dst: Register::R2, src_a: Register::R3, src_b: Register::R4 }),
        Instruction::LOAD(MemInstruction { hi: true, lo: true, sw: true, dst: Register::R4, addr: Register::SP, shift: -3 }),
        Instruction::STORE(MemInstruction { hi: false, lo: false, sw: false, dst: Register::R2, addr: Register::SP, shift: 3 }),
        Instruction::BRANCH(BranchInstruction { eq: true, gt: false, lt: true, cond: Register::R5, shift: -31 }),
        Instruction::BRANCH(BranchInstruction { eq: false, gt: true, lt: false, cond: Register::R3, shift: 31 }),
        Instruction::CUSTOM(0x0abc),
        Instruction::CUSTOM(0xffff),
    ];
    for i in samples {
        assert_eq!(Instruction::decode(i.encode().unwrap()), i);
    }
}

#[test]
fn encoding_rejects_out_of_range_shifts() {
    let m = Instruction::LOAD(MemInstruction { hi: false, lo: false, sw: false, dst: Register::R2, addr: Register::SP, shift: 4 });
    assert!(m.encode().is_err());
    let b = Instruction::BRANCH(BranchInstruction { eq: true, gt: true, lt: true, cond: Register::ZX, shift: -32 });
    assert!(b.encode().is_err());
}

#[test]
fn decode_is_total() {
    for w in 0..=u16::MAX {
        let i = Instruction::decode(w);
        assert!(i.validate().is_ok());
    }
    assert_eq!(Instruction::decode(0), Instruction::NOP);
    assert_eq!(Instruction::decode(0x0001), Instruction::CUSTOM(1));
    assert_eq!(Instruction::decode(0xf123), Instruction::CUSTOM(0xf123));
}

#[test]
fn word_layout() {
    let i = Instruction::BRANCH(BranchInstruction { eq: true, gt: false, lt: false, cond: Register::R2, shift: -5 });
    // 0001 | eq gt lt = 100 | cond 010 | sign 1 | 00101
    assert_eq!(i.encode().unwrap(), 0b0001_1000_1010_0101);
    let m = Instruction::STORE(MemInstruction { hi: false, lo: true, sw: false, dst: Register::SP, addr: Register::LP, shift: -2 });
    // 0011 | 010 | 111 | 110 | 1 | 10
    assert_eq!(m.encode().unwrap(), 0b0011_0101_1111_0110);
}

#[test]
fn disassembly_text() {
    assert_eq!(disassemle_instruction(Instruction::NOP), "NOP");
    assert_eq!(disassemle_instruction(Instruction::decode(0x5000)), "ADD ZX ZX ZX");
    assert_eq!(disassemle_instruction(Instruction::decode(0x5490)), "ADD.y R2 R2 ZX");
    assert_eq!(disassemle_instruction(Instruction::CUSTOM(0x0abc)), "0xabc");
    let m = Instruction::LOAD(MemInstruction { hi: true, lo: false, sw: true, dst: Register::R2, addr: Register::SP, shift: -1 });
    assert_eq!(disassemle_instruction(m), "LOAD.hs R2 SP -1");
    let b = Instruction::BRANCH(BranchInstruction { eq: false, gt: true, lt: true, cond: Register::R3, shift: 12 });
    assert_eq!(disassemle_instruction(b), "BRANCH.gl R3 12");
    assert_eq!(disassemble(&vec![0, 0x0abc]), vec![String::from("NOP"), String::from("0xabc")]);
}

#[test]
fn naive_drop_only_lowers_sp() {
    let v = compile_stackop(StackOperation::Manip(ManipStackOp::drop(2)));
    assert_eq!(v.len(), 2);
    let w = encode_all(&v);
    let dec = words("DEC SP SP");
    assert_eq!(w, vec![dec[0], dec[0]]);
}

#[test]
fn stack_program_runs() {
    let w = words("$INIT; $PCONST 0x10; $PCONST 0x12; $ADD; $DUP; $ADD; HALT");
    let cpu = run(&w, 1000);
    assert!(cpu.halted());
    assert_eq!(cpu.get_reg(Register::SP), 0x4001);
    assert_eq!(cpu.get_mem(0x4000), 0x44);
}

#[test]
fn stack_call_and_return() {
    let src = "$INIT
        $PCONST 7
        $CALL DOUBLE
        HALT
        DOUBLE: $FUNC 0 1 1
        $LARG 0
        $DUP
        $ADD
        $SARG 0
        $RET";
    let w = words(src);
    let cpu = run(&w, 1000);
    assert!(cpu.halted());
    assert_eq!(cpu.get_reg(Register::SP), 0x4001);
    assert_eq!(cpu.get_mem(0x4000), 14);
}

#[test]
fn optimized_local_code_matches_naive() {
    let ops = vec![
        StackOperation::Const(ConstStackOp { val: 21, do_add: false }),
        StackOperation::Manip(ManipStackOp::dup()),
        StackOperation::Alu(AluStackOp { op: AluOperation::ADD, nx: false, ny: false, no: false }),
        StackOperation::Manip(ManipStackOp::puzx()),
        StackOperation::Manip(ManipStackOp::swp()),
    ];
    let mut naive = words("$INIT");
    for o in &ops {
        naive.extend(encode_all(&compile_stackop(*o)));
    }
    naive.extend(words("HALT"));
    let mut opt = words("$INIT");
    opt.extend(encode_all(&compile_optimized(&ops)));
    opt.extend(words("HALT"));
    let a = run(&naive, 1000);
    let b = run(&opt, 1000);
    assert_eq!(a.get_reg(Register::SP), 0x4002);
    assert_eq!(b.get_reg(Register::SP), 0x4002);
    assert_eq!(a.get_mem(0x4000), 0);
    assert_eq!(a.get_mem(0x4001), 42);
    assert_eq!(b.get_mem(0x4000), 0);
    assert_eq!(b.get_mem(0x4001), 42);
}

#[test]
fn compile_program_on_atoms() {
    let atoms = vec![Atom::Label(vec!['X']), Atom::Nop, Atom::Instruction(Stmt::Nop(easycpu::ops::NopInstruction::new()))];
    assert_eq!(compile_program(&atoms).unwrap(), vec![0]);
}

/// Runs `body` with `initial` pushed first; returns the stack afterwards.
fn run_stack_program(initial: &[u16], body: &str) -> Vec<u16> {
    let mut src = String::from("$INIT\n");
    for v in initial {
        src.push_str(&format!("$PCONST {}\n", v));
    }
    src.push_str(body);
    src.push_str("\nHALT");
    let w = words(&src);
    let cpu = run(&w, 100_000);
    assert!(cpu.halted());
    let sp = cpu.get_reg(Register::SP);
    assert!(sp >= 0x4000);
    (0x4000..sp).map(|a| cpu.get_mem(a)).collect()
}

/// Runs `ops` through the optimizer and the register window; returns the stack.
fn run_optimized(initial: &[u16], body: &str) -> Vec<u16> {
    let mut ops: Vec<StackOperation> = initial
        .iter()
        .map(|v| StackOperation::Const(ConstStackOp { val: *v, do_add: false }))
        .collect();
    for fa in parse_listing(body).unwrap() {
        match fa.compiled {
            Ok(Atom::Instruction(Stmt::StackOp(o))) => ops.push(o.op),
            other => panic!("not a stack operation: {:?}", other),
        }
    }
    let mut w = words("$INIT");
    w.extend(encode_all(&easycpu::comp::StackOptAtom::new(ops).compile()));
    w.extend(words("HALT"));
    let cpu = run(&w, 100_000);
    assert!(cpu.halted());
    let sp = cpu.get_reg(Register::SP);
    (0x4000..sp).map(|a| cpu.get_mem(a)).collect()
}

#[test]
fn stack_puzx() {
    assert_eq!(run_stack_program(&[], "$PUZX"), vec![0]);
    assert_eq!(run_optimized(&[], "$PUZX"), vec![0]);
}

#[test]
fn stack_supdup() {
    let body = "$DUP; $DUP; $DUP; $DUP; $DUP; $DUP; $DUP";
    assert_eq!(run_stack_program(&[0x1234], body), vec![0x1234; 8]);
    assert_eq!(run_optimized(&[0x1234], body), vec![0x1234; 8]);
}

#[test]
fn stack_simpexpr() {
    let body = "$AND; $PCONST 14; $PCONST 3; $SUB; $ADD";
    assert_eq!(run_stack_program(&[0x10, 0x12], body), vec![0x1b]);
    assert_eq!(run_optimized(&[0x10, 0x12], body), vec![0x1b]);
}

#[test]
fn stack_condcalc() {
    let body = "$JEQ DO_ADD
        $AND; $JMP END
        DO_ADD: $ADD
        END:
        ";
    assert_eq!(run_stack_program(&[0x14, 0x13, 0x1], body), vec![0x10]);
    assert_eq!(run_stack_program(&[0x14, 0x13, 0x0], body), vec![0x27]);
}

#[test]
fn stack_trickyjump() {
    let body = "$PCONST 0x20
        $PCONST 0

        $DUP
        $JNE LLLL
        $DROP
        $ADD
        LLLL:
        ";
    assert_eq!(run_stack_program(&[0x10], body), vec![0x30]);
}

#[test]
fn stack_drop_after_pure_ops() {
    let body = "$PCONST 123
        $PCONST 109
        $ADD
        $DROP
        ";
    assert_eq!(run_stack_program(&[], body), Vec::<u16>::new());
    assert_eq!(run_optimized(&[], body), Vec::<u16>::new());
}

#[test]
fn stack_locals() {
    let body = "$LOCINIT 2
        $PCONST 5; $SVAR 0
        $PCONST 7; $SVAR 1
        $LVAR 0; $LVAR 1; $SUB
        $SVAR 1; $LVAR 1
        $SVAR 0
        $LOCEND";
    assert_eq!(run_stack_program(&[9], body), vec![9]);
    let body2 = "$LOCINIT 1
        $PCONST 5; $SVAR 0; $LVAR 0; $LVAR 0; $ADD
        $SVAR 0
        $AVAR 0; $LOAD
        $LOCEND";
    // Frame words are popped with the frame; the value read back stays on top.
    let r = run_stack_program(&[], &body2.replace("$LOCEND", "$SWP; $DROP"));
    assert_eq!(r.last(), Some(&10));
}

#[test]
fn empty_statement_has_no_command() {
    let blank: Vec<char> = "   ".chars().collect();
    assert!(matches!(
        easycpu::parse::parse_instruction(&blank),
        Err(CompileError::NoCommandSupplied)
    ));
}

#[test]
fn branch_field_out_of_range_is_invalid_instruction() {
    let b = easycpu::ops::BranchInstruction { eq: true, gt: true, lt: true, cond: Register::ZX, shift: 40 };
    let atoms = vec![Atom::Instruction(Stmt::Branch(b))];
    match compile_program(&atoms) {
        Err(e) => assert!(matches!(e[0], CompileError::InvalidInstruction(_))),
        Ok(w) => panic!("expected an error, got {:?}", w),
    }
}

#[test]
fn signed_constant_constructor() {
    let c = LoadConstInstruction::new_signed(LoadConstOperation::LOAD, Register::R2, -2).unwrap();
    assert_eq!(c.val, 0xfffe);
    match LoadConstInstruction::new_signed(LoadConstOperation::LOAD, Register::R2, 70000) {
        Err(CompileError::InvalidNumber(s)) => assert_eq!(s, "70000"),
        other => panic!("unexpected {:?}", other),
    }
}

#[test]
fn flag_strings() {
    let mut b = easycpu::ops::BranchInstruction::new(Register::R2, 3).unwrap();
    let f: Vec<char> = "GL".chars().collect();
    b.set_flags_from_str(&f);
    assert!(!b.eq && b.gt && b.lt);
    let none: Vec<char> = Vec::new();
    b.set_flags_from_str(&none);
    assert!(!b.eq && b.gt && b.lt);
    assert_eq!(words("BRANCH.E R2 -2"), vec![0b0001_1000_1010_0010]);
}

#[test]
fn stack_constant_statement() {
    let atoms = vec![
        Atom::Instruction(Stmt::StackBase(easycpu::asm_stack::StackBaseInstruction::new(
            easycpu::asm_stack::StackBaseOperation::INIT,
            Register::ZX,
        ))),
        Atom::Instruction(Stmt::StackConst(StackConstInstruction::new_const(40))),
        Atom::Instruction(Stmt::StackConst(StackConstInstruction::new_aconst(2))),
    ];
    let mut w = compile_program(&atoms).unwrap();
    w.extend(words("HALT"));
    let cpu = run(&w, 1000);
    assert!(cpu.halted());
    assert_eq!(cpu.get_reg(Register::SP), 0x4001);
    assert_eq!(cpu.get_mem(0x4000), 42);
}

#[test]
fn register_from_code() {
    assert_eq!(Register::from(13u16), Register::R5);
    assert_eq!(Register::from(0u16), Register::ZX);
    assert_eq!(Register::from(7u16), Register::SP);
    assert_eq!(Register::LP.name(), "LP");
}
