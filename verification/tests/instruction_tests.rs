use sim8051::alu::LogicOp;
use sim8051::assembler::{
    anl_orl_xrl, clr_set_cpl, read_operand, Assembler, Outcome, Status,
};
use sim8051::error::{Diagnostic, ErrorKind};
use sim8051::lexer::TokenType;
use sim8051::machine::{BitOperator, ScratchpadRegisters, Sim8051};
use sim8051::operand::{Mnemonic, Operand};
use sim8051::report::{assemble, AsmData};

fn run(source: &str) -> (Assembler, Outcome) {
    let mut assembler = Assembler::default();
    assembler.read_src_from_string(source);
    assembler.frame_source();
    let outcome = assembler.start(10_000);
    (assembler, outcome)
}

fn mem(a: &Assembler, addr: u8) -> u8 {
    a.simulator.internal_memory.read(addr)
}

#[test]
fn mov_between_addressing_modes() {
    let (a, outcome) = run(
        "mov 30H,#5AH\nmov R0,#30H\nmov A,@R0\nmov @R0,#11H\nmov 31H,30H\nmov R1,A\nmov P1,R1\nmov B,P1\nend",
    );
    assert_eq!(outcome, Outcome::Completed);
    assert_eq!(mem(&a, 0x30), 0x11);
    assert_eq!(mem(&a, 0x31), 0x11);
    assert_eq!(mem(&a, 0x00), 0x30);
    assert_eq!(mem(&a, 0xE0), 0x5A);
    assert_eq!(mem(&a, 0x01), 0x5A);
    assert_eq!(mem(&a, 0x90), 0x5A);
    assert_eq!(mem(&a, 0xF0), 0x5A);
    assert!(a.diagnostics.is_empty());
}

#[test]
fn register_bank_follows_the_status_word() {
    let (a, outcome) = run("mov R0,#1\nmov PSW,#08H\nmov R0,#2\nmov PSW,#10H\nmov R0,#3\nmov PSW,#18H\nmov R7,#4\nend");
    assert_eq!(outcome, Outcome::Completed);
    assert_eq!(mem(&a, 0), 1);
    assert_eq!(mem(&a, 8), 2);
    assert_eq!(mem(&a, 16), 3);
    assert_eq!(mem(&a, 31), 4);
    assert_eq!(a.simulator.active_bank_index(), 3);
    assert_eq!(a.simulator.register_addr(&ScratchpadRegisters::R7), 31);
    assert_eq!(a.simulator.show_scratchpad_registers(), [0, 0, 0, 0, 0, 0, 0, 4]);
}

#[test]
fn immediate_as_destination_is_reported() {
    let (a, outcome) = run("mov #1,A\nmov R0,#7\nend");
    assert_eq!(outcome, Outcome::Completed);
    assert_eq!(mem(&a, 0), 7);
    assert_eq!(a.diagnostics.len(), 1);
    assert_eq!(a.diagnostics[0].kind, ErrorKind::InvalidOperand);
    assert_eq!(a.diagnostics[0].pos, 2);
}

#[test]
fn out_of_domain_operands_are_reported() {
    let (a, outcome) = run("mov 100H,#1\nmov R0,#100H\nmov Q,#1\ninc #1\nadd B,#1\nadd A,P1.1\nswap B\nmul A\nend");
    assert_eq!(outcome, Outcome::Completed);
    assert_eq!(a.diagnostics.len(), 8);
    assert!(a.diagnostics.iter().all(|d| d.kind == ErrorKind::InvalidOperand));
    for addr in 0..=255u8 {
        assert_eq!(mem(&a, addr), 0);
    }
}

#[test]
fn addc_and_subb_use_the_carry() {
    let (a, _) = run("mov A,#0F0H\nadd A,#20H\naddc A,#0\nend");
    assert_eq!(a.simulator.accumulator(), 0x11);
    assert!(!a.simulator.carry());
    let (a, _) = run("mov A,#5\nsubb A,#7\nend");
    assert_eq!(a.simulator.accumulator(), 0xFE);
    assert!(a.simulator.carry());
    assert!(a.simulator.auxiliary_carry());
    assert!(!a.simulator.overflow());
    let (a, _) = run("setb C\nmov A,#10H\nsubb A,#0FH\nend");
    assert_eq!(a.simulator.accumulator(), 0);
    assert!(!a.simulator.carry());
    assert!(a.simulator.auxiliary_carry());
}

#[test]
fn overflow_flag_is_the_sign_overflow() {
    let (a, _) = run("mov A,#7FH\nadd A,#1\nend");
    assert_eq!(a.simulator.accumulator(), 0x80);
    assert!(a.simulator.overflow());
    assert!(!a.simulator.carry());
    assert!(a.simulator.auxiliary_carry());
    let (a, _) = run("mov A,#80H\nadd A,#80H\nend");
    assert_eq!(a.simulator.accumulator(), 0);
    assert!(a.simulator.overflow());
    assert!(a.simulator.carry());
    assert!(!a.simulator.auxiliary_carry());
    let (a, _) = run("mov A,#80H\nsubb A,#1\nend");
    assert_eq!(a.simulator.accumulator(), 0x7F);
    assert!(a.simulator.overflow());
    assert!(!a.simulator.carry());
}

#[test]
fn parity_follows_the_accumulator() {
    let (a, _) = run("mov A,#7\nend");
    assert!(a.simulator.parity_flag());
    let (a, _) = run("mov A,#3\nend");
    assert!(!a.simulator.parity_flag());
    let (a, _) = run("mov A,#1\nmov PSW,#0\nend");
    assert!(a.simulator.parity_flag());
    let (a, _) = run("mov A,#0FEH\ninc A\nend");
    assert_eq!(a.simulator.accumulator(), 0xFF);
    assert!(!a.simulator.parity_flag());
}

#[test]
fn multiply_large_sets_overflow() {
    let (a, outcome) = run("setb C\nmov A,#0FFH\nmov B,#0FFH\nmul AB\nend");
    assert_eq!(outcome, Outcome::Completed);
    assert_eq!(a.simulator.accumulator(), 0x01);
    assert_eq!(a.simulator.register_b(), 0xFE);
    assert!(a.simulator.overflow());
    assert!(!a.simulator.carry());
}

#[test]
fn divide_gives_quotient_and_remainder() {
    let (a, outcome) = run("setb C\nmov A,#17\nmov B,#5\ndiv AB\nend");
    assert_eq!(outcome, Outcome::Completed);
    assert_eq!(a.simulator.accumulator(), 0x17 / 5);
    assert_eq!(a.simulator.register_b(), 0x17 % 5);
    assert!(!a.simulator.overflow());
    assert!(!a.simulator.carry());
    assert!(a.diagnostics.is_empty());
}

#[test]
fn rotations_and_swap() {
    let (a, _) = run("mov A,#0A5H\nswap A\nend");
    assert_eq!(a.simulator.accumulator(), 0x5A);
    let (a, _) = run("mov A,#81H\nrl A\nend");
    assert_eq!(a.simulator.accumulator(), 0x03);
    let (a, _) = run("mov A,#81H\nrr A\nend");
    assert_eq!(a.simulator.accumulator(), 0xC0);
    let (a, _) = run("mov A,#81H\nrlc A\nend");
    assert_eq!(a.simulator.accumulator(), 0x02);
    assert!(a.simulator.carry());
    let (a, _) = run("setb C\nmov A,#02H\nrlc A\nend");
    assert_eq!(a.simulator.accumulator(), 0x05);
    assert!(!a.simulator.carry());
    let (a, _) = run("mov A,#81H\nrrc A\nend");
    assert_eq!(a.simulator.accumulator(), 0x40);
    assert!(a.simulator.carry());
    let (a, _) = run("setb C\nmov A,#02H\nrrc A\nend");
    assert_eq!(a.simulator.accumulator(), 0x81);
    assert!(!a.simulator.carry());
}

#[test]
fn inc_and_dec_wrap() {
    let (a, _) = run("mov 40H,#0FFH\ninc 40H\ndec 41H\nmov R0,#42H\ninc @R0\ninc R0\ndec A\nend");
    assert_eq!(mem(&a, 0x40), 0);
    assert_eq!(mem(&a, 0x41), 0xFF);
    assert_eq!(mem(&a, 0x42), 1);
    assert_eq!(mem(&a, 0x00), 0x43);
    assert_eq!(a.simulator.accumulator(), 0xFF);
}

#[test]
fn push_and_pop() {
    let (a, outcome) = run("mov SP,#50H\nmov A,#12H\nmov B,#34H\npush A\npush B\npop R0\npop R1\nend");
    assert_eq!(outcome, Outcome::Completed);
    assert_eq!(mem(&a, 0x51), 0x12);
    assert_eq!(mem(&a, 0x52), 0x34);
    assert_eq!(mem(&a, 0x00), 0x34);
    assert_eq!(mem(&a, 0x01), 0x12);
    assert_eq!(mem(&a, 0x81), 0x50);
}

#[test]
fn bit_instructions() {
    let (a, outcome) = run("setb C\nsetb 0H\nsetb 0FH\nsetb P1.3\ncpl P1.3\ncpl P1.0\nsetb 7FH\nclr 7FH\nend");
    assert_eq!(outcome, Outcome::Completed);
    assert!(a.simulator.carry());
    assert_eq!(mem(&a, 0x20), 0x01);
    assert_eq!(mem(&a, 0x21), 0x80);
    assert_eq!(mem(&a, 0x90), 0x01);
    assert_eq!(mem(&a, 0x2F), 0x00);
    assert!(a.simulator.internal_memory.get_bit_status_addr_memory(0x0F));
    assert!(!a.simulator.internal_memory.get_bit_status_addr_memory(0x0E));
    let (a, _) = run("mov A,#5AH\ncpl A\nend");
    assert_eq!(a.simulator.accumulator(), 0xA5);
    let (a, _) = run("mov A,#5AH\nclr A\nend");
    assert_eq!(a.simulator.accumulator(), 0);
    let (a, _) = run("setb C\nclr C\nend");
    assert!(!a.simulator.carry());
    let (a, _) = run("setb A\nsetb 100H\nclr R0\nend");
    assert_eq!(a.diagnostics.len(), 3);
    assert_eq!(a.simulator.accumulator(), 0);
}

#[test]
fn logic_on_the_accumulator() {
    let (a, _) = run("mov A,#0F0H\nanl A,#3CH\nend");
    assert_eq!(a.simulator.accumulator(), 0x30);
    let (a, _) = run("mov A,#0F0H\norl A,#3CH\nend");
    assert_eq!(a.simulator.accumulator(), 0xFC);
    let (a, _) = run("mov A,#0F0H\nmov R3,#3CH\nxrl A,R3\nend");
    assert_eq!(a.simulator.accumulator(), 0xCC);
    let (a, _) = run("mov 40H,#0FH\nmov R0,#40H\nmov A,#0FFH\nanl A,@R0\nend");
    assert_eq!(a.simulator.accumulator(), 0x0F);
}

#[test]
fn logic_on_the_carry() {
    let (a, _) = run("setb C\nanl C,5H\nend");
    assert!(!a.simulator.carry());
    let (a, _) = run("setb C\nanl C,/5H\nend");
    assert!(a.simulator.carry());
    let (a, _) = run("setb 5H\norl C,5H\nend");
    assert!(a.simulator.carry());
    let (a, _) = run("setb P2.1\nsetb C\nxrl C,P2.1\nend");
    assert!(!a.simulator.carry());
    let (a, _) = run("setb P2.1\nxrl C, /P2.1\nend");
    assert!(!a.simulator.carry());
    let (a, _) = run("orl C,R0\nanl B,#1\nend");
    assert_eq!(a.diagnostics.len(), 2);
}

#[test]
fn conditional_jumps() {
    let (a, _) = run("setb C\njc over\nmov R0,#1\nover: jnc out\nmov R1,#1\nout: end");
    assert_eq!(mem(&a, 0), 0);
    assert_eq!(mem(&a, 1), 1);
    let (a, _) = run("jz over\nmov R0,#1\nover: jnz out\nmov R1,#1\nout: end");
    assert_eq!(mem(&a, 0), 0);
    assert_eq!(mem(&a, 1), 1);
    let (a, _) = run("setb P1.2\njb P1.2,over\nmov R0,#1\nover: jnb P1.2,out\nmov R1,#1\nout: jnb 3H,fin\nmov R2,#1\nfin: end");
    assert_eq!(mem(&a, 0), 0);
    assert_eq!(mem(&a, 1), 1);
    assert_eq!(mem(&a, 2), 0);
}

#[test]
fn jump_target_is_checked_even_when_not_taken() {
    let (a, outcome) = run("mov R0,#1\njc nowhere\nmov R0,#2\nend");
    assert_eq!(outcome, Outcome::Failed(Diagnostic { kind: ErrorKind::UnresolvedLabel, pos: 12 }));
    assert_eq!(mem(&a, 0), 1);
    let (a, outcome) = run("mov R0,#9\ndjnz R0,nowhere\nend");
    assert!(matches!(outcome, Outcome::Failed(Diagnostic { kind: ErrorKind::UnresolvedLabel, .. })));
    assert_eq!(mem(&a, 0), 9);
}

#[test]
fn cjne_sets_carry_and_always_jumps() {
    let (a, outcome) = run("mov A,#3\ncjne A,#5,over\nmov R0,#1\nover: end");
    assert_eq!(outcome, Outcome::Completed);
    assert!(a.simulator.carry());
    assert_eq!(mem(&a, 0), 0);
    let (a, _) = run("mov A,#5\nsetb C\ncjne A,#5,over\nmov R0,#1\nover: end");
    assert!(!a.simulator.carry());
    assert_eq!(mem(&a, 0), 0);
    let (a, _) = run("mov R1,#9\nmov A,#10\ncjne A,R1,over\nmov R0,#1\nover: end");
    assert!(!a.simulator.carry());
    let (a, outcome) = run("cjne #1,#2,over\nover: end");
    assert_eq!(outcome, Outcome::Completed);
    assert_eq!(a.diagnostics.len(), 1);
    let (_, outcome) = run("cjne A,#2,nowhere\nend");
    assert!(matches!(outcome, Outcome::Failed(Diagnostic { kind: ErrorKind::UnresolvedLabel, .. })));
}

#[test]
fn unknown_mnemonics() {
    let (_, outcome) = run("halt\nend");
    assert_eq!(outcome, Outcome::Failed(Diagnostic { kind: ErrorKind::UnknownMnemonic, pos: 2 }));
    let (a, outcome) = run("frob A\nmov R0,#1\nend");
    assert_eq!(outcome, Outcome::Completed);
    assert_eq!(a.diagnostics, vec![Diagnostic { kind: ErrorKind::UnknownMnemonic, pos: 2 }]);
    assert_eq!(mem(&a, 0), 1);
    let (a, outcome) = run("mov A\nend");
    assert_eq!(outcome, Outcome::Completed);
    assert_eq!(a.diagnostics.len(), 1);
    let (_, outcome) = run("swap A,B\nend");
    assert_eq!(outcome, Outcome::Failed(Diagnostic { kind: ErrorKind::UnknownMnemonic, pos: 2 }));
    let (_, outcome) = run("mov A,B,lbl\nlbl: end");
    assert_eq!(outcome, Outcome::Failed(Diagnostic { kind: ErrorKind::UnknownMnemonic, pos: 2 }));
}

#[test]
fn lex_failures_abort() {
    let (_, outcome) = run("mov A,22\nend");
    assert_eq!(outcome, Outcome::Failed(Diagnostic { kind: ErrorKind::LexFailure, pos: 8 }));
    let (_, outcome) = run("?\nend");
    assert_eq!(outcome, Outcome::Failed(Diagnostic { kind: ErrorKind::LexFailure, pos: 2 }));
    let (_, outcome) = run("mov A,\nend");
    assert!(matches!(outcome, Outcome::Failed(Diagnostic { kind: ErrorKind::LexFailure, .. })));
    let (_, outcome) = run("#5\nend");
    assert!(matches!(outcome, Outcome::Failed(Diagnostic { kind: ErrorKind::LexFailure, .. })));
}

#[test]
fn unframed_text_is_not_run() {
    let mut a = Assembler::new(b"mov A,#1\nend".to_vec());
    a.simulator.mov(5, 5);
    let outcome = a.start(100);
    assert_eq!(outcome, Outcome::Failed(Diagnostic { kind: ErrorKind::LexFailure, pos: 0 }));
    assert_eq!(a.simulator.accumulator(), 0);
    assert_eq!(mem(&a, 5), 0);
    let mut a = Assembler::default();
    assert_eq!(a.start(100), Outcome::Failed(Diagnostic { kind: ErrorKind::LexFailure, pos: 0 }));
}

#[test]
fn program_ends_at_marker_or_end_of_text() {
    let (a, outcome) = run("mov R0,#1");
    assert_eq!(outcome, Outcome::Completed);
    assert_eq!(mem(&a, 0), 1);
    let mut a = Assembler::new(b"^ mov R0,#1\n mov R1,#2".to_vec());
    assert_eq!(a.start(100), Outcome::Completed);
    assert_eq!(mem(&a, 1), 2);
    let mut a = Assembler::new(b"^ mov R0,#1\n$ mov R1,#2".to_vec());
    assert_eq!(a.start(100), Outcome::Completed);
    assert_eq!(mem(&a, 0), 1);
    assert_eq!(mem(&a, 1), 0);
    let (a, outcome) = run("");
    assert_eq!(outcome, Outcome::Completed);
    assert!(a.diagnostics.is_empty());
}

#[test]
fn step_limit_stops_endless_loops() {
    let mut a = Assembler::default();
    a.read_src_from_string("loop: inc A\najmp loop");
    a.frame_source();
    assert_eq!(a.start(30), Outcome::OutOfSteps);
    assert_eq!(a.simulator.accumulator(), 10);
    assert_eq!(a.start(0), Outcome::OutOfSteps);
    assert_eq!(a.simulator.accumulator(), 0);
}

#[test]
fn labels_are_collected_with_last_definition_winning() {
    let mut a = Assembler::new(b"^\nfirst: nop\n twice: nop\ntwice: nop\n$ after: nop".to_vec());
    a.collect_labels();
    assert_eq!(a.tokenizer.pos, 0);
    assert_eq!(a.jmptable.len(), 2);
    assert_eq!(a.jmptable.get(b"first"), Some(2));
    assert_eq!(a.jmptable.get(b"twice"), Some(25));
    assert_eq!(a.jmptable.get(b"after"), None);
    a.jmptable.insert(b"stale".to_vec(), 1);
    a.collect_labels();
    assert_eq!(a.jmptable.get(b"stale"), None);
    assert_eq!(a.jmptable.len(), 2);
}

#[test]
fn nested_call_overwrites_the_return_slot() {
    let (a, outcome) = run("acall one\nmov R7,#1\nend\none: acall two\nmov R6,#1\nret\ntwo: mov R5,#1\nret");
    assert_eq!(outcome, Outcome::Completed);
    assert_eq!(mem(&a, 5), 1);
    assert_eq!(mem(&a, 6), 1);
    assert_eq!(mem(&a, 7), 0);
    assert_eq!(a.jmptable.get(b"ret"), None);
    let (a, outcome) = run("ret\nmov R0,#1\nend");
    assert_eq!(outcome, Outcome::Completed);
    assert_eq!(mem(&a, 0), 1);
}

#[test]
fn operands_are_read_with_their_prefix() {
    let (op, n) = read_operand(b" /22H,", 0).unwrap();
    assert_eq!(op, Operand { token: TokenType::HEX(0x22), negated: true });
    assert_eq!(n, 5);
    let (op, n) = read_operand(b"  R3 ", 0).unwrap();
    assert_eq!(op, Operand { token: TokenType::ID(b"R3".to_vec()), negated: false });
    assert_eq!(n, 4);
    assert!(op.names(b"R3"));
    assert!(!op.names(b"R4"));
    assert_eq!(op.target(), Some(&b"R3".to_vec()));
    assert_eq!(read_operand(b" \n R3", 0), None);
    assert_eq!(read_operand(b",", 0), None);
    assert_eq!(read_operand(b"lbl: ", 0), None);
    assert_eq!(read_operand(b"", 0), None);
    let c = Operand { token: TokenType::ID(b"C".to_vec()), negated: false };
    assert_eq!(c.retrieve_bit(), Some((0xD0, 7)));
    let h = Operand { token: TokenType::HEX(0x47), negated: false };
    assert_eq!(h.retrieve_bit(), Some((0x28, 7)));
    let sim = Sim8051::default();
    assert_eq!(sim.retrieve_lvalue(&h), Some(0x47));
    assert_eq!(sim.retrieve_rvalue(&h), Some(0));
    let i = Operand { token: TokenType::IMM(0x47), negated: false };
    assert_eq!(sim.retrieve_lvalue(&i), None);
    assert_eq!(sim.retrieve_rvalue(&i), Some(0x47));
    assert_eq!(sim.address_named(b"A"), Some(0xE0));
    assert_eq!(sim.address_named(b"SP"), Some(0x81));
    assert_eq!(sim.address_named(b"X"), None);
}

#[test]
fn statement_functions_can_be_driven_directly() {
    let mut a = Assembler::new(b" A\n".to_vec());
    assert_eq!(a.sstmt(Mnemonic::Inc, 0), Status::Running);
    assert_eq!(a.simulator.accumulator(), 1);
    assert_eq!(a.tokenizer.pos, 2);
    let mut a = Assembler::new(b"\n".to_vec());
    assert_eq!(a.stmt(Mnemonic::End, 0), Status::Halted);
    assert_eq!(a.stmt(Mnemonic::Nop, 0), Status::Running);
    let acc = Operand { token: TokenType::ID(b"A".to_vec()), negated: false };
    let imm = Operand { token: TokenType::IMM(0x0F), negated: false };
    assert_eq!(anl_orl_xrl(&mut a, LogicOp::Or, &acc, &imm, 0), Status::Running);
    assert_eq!(a.simulator.accumulator(), 0x0F);
    assert_eq!(clr_set_cpl(&mut a, BitOperator::ComplementBit, &acc, 0), Status::Running);
    assert_eq!(a.simulator.accumulator(), 0xF0);
    assert_eq!(a.execute_binary(Mnemonic::Mov, &acc, &imm, 0), Status::Running);
    assert_eq!(a.simulator.accumulator(), 0x0F);
    assert_eq!(a.report(ErrorKind::InvalidOperand, 3), Status::Running);
    assert_eq!(a.diagnostics, vec![Diagnostic { kind: ErrorKind::InvalidOperand, pos: 3 }]);
}

#[test]
fn assemble_reports_the_final_state() {
    let data = assemble("mov A,#0FH\nmov B,#0F0H\nadd A,B\nmov PSW,#08H\nmov R2,#9\nmov P3,#3", 1000);
    assert!(data.compiled);
    assert_eq!(data.psw, 0x08);
    assert_eq!(data.sfr_arr, [0x08, 0xFF, 0xF0, 0, 0, 0, 3]);
    assert_eq!(data.reg_arr, [0, 0, 9, 0, 0, 0, 0, 0]);
    assert_eq!(data.memory[0xE0], 0xFF);
    assert_eq!(data.memory[10], 9);
    let failed = assemble("mov R0,#1\najmp nowhere", 1000);
    assert!(!failed.compiled);
    assert_eq!(failed.memory[0], 1);
    let endless = assemble("l: ajmp l", 50);
    assert!(!endless.compiled);
    let empty = AsmData::default();
    assert!(!empty.compiled);
    assert_eq!(empty.memory, [0u8; 256]);
}
