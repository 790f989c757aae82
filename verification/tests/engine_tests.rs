use sim8051::assembler::{Assembler, Outcome, Status};
use sim8051::error::{Diagnostic, ErrorKind};

fn run(source: &str) -> (Assembler, Outcome) {
    let mut assembler = Assembler::new(Vec::new());
    assembler.read_src_from_string(source);
    assembler.frame_source();
    let outcome = assembler.start(10_000);
    (assembler, outcome)
}

#[test]
fn addition_with_carry_out() {
    let (a, outcome) = run("mov A,#0FFH\nadd A,#01H\nend");
    assert_eq!(outcome, Outcome::Completed);
    assert_eq!(a.simulator.accumulator(), 0x00);
    assert!(a.simulator.carry());
    assert!(a.simulator.auxiliary_carry());
    assert!(!a.simulator.parity_flag());
}

#[test]
fn addition_without_carry() {
    let (a, outcome) = run("mov A,#0FH\nadd A,#10H\nend");
    assert_eq!(outcome, Outcome::Completed);
    assert_eq!(a.simulator.accumulator(), 0x1F);
    assert!(!a.simulator.carry());
    assert!(!a.simulator.auxiliary_carry());
    assert!(a.simulator.parity_flag());
}

#[test]
fn end_to_end_add_registers() {
    let (a, outcome) = run("mov A,#0FH\nmov B,#0F0H\nadd A,B\nend");
    assert_eq!(outcome, Outcome::Completed);
    assert_eq!(a.simulator.accumulator(), 0xFF);
    assert_eq!(a.simulator.register_b(), 0xF0);
    assert!(!a.simulator.carry());
    assert!(a.diagnostics.is_empty());
}

#[test]
fn forward_and_backward_jumps() {
    let (a, outcome) = run(
        "ajmp fwd\nmov R0,#11H\nback: mov R1,#22H\najmp done\nfwd: mov R2,#33H\najmp back\ndone: mov R3,#44H\nend",
    );
    assert_eq!(outcome, Outcome::Completed);
    assert_eq!(a.simulator.internal_memory.read(0), 0x00);
    assert_eq!(a.simulator.internal_memory.read(1), 0x22);
    assert_eq!(a.simulator.internal_memory.read(2), 0x33);
    assert_eq!(a.simulator.internal_memory.read(3), 0x44);
}

#[test]
fn djnz_counts_down() {
    let (a, outcome) = run("mov R0,#1\nmov R1,#0\nloop: inc R1\ndjnz R0,loop\nend");
    assert_eq!(outcome, Outcome::Completed);
    assert_eq!(a.simulator.internal_memory.read(0), 0);
    assert_eq!(a.simulator.internal_memory.read(1), 1);
    let (a, outcome) = run("mov R0,#2\nmov R1,#0\nloop: inc R1\ndjnz R0,loop\nend");
    assert_eq!(outcome, Outcome::Completed);
    assert_eq!(a.simulator.internal_memory.read(0), 0);
    assert_eq!(a.simulator.internal_memory.read(1), 2);
}

#[test]
fn multiply_small() {
    let (a, outcome) = run("mov A,#0AH\nmov B,#0AH\nmul AB\nend");
    assert_eq!(outcome, Outcome::Completed);
    assert_eq!(a.simulator.accumulator(), 0x64);
    assert_eq!(a.simulator.register_b(), 0x00);
    assert!(!a.simulator.overflow());
    assert!(!a.simulator.carry());
}

#[test]
fn divide_by_zero_goes_on() {
    let (a, outcome) = run("mov A,#10H\nmov B,#0\ndiv AB\nmov R5,#77H\nend");
    assert_eq!(outcome, Outcome::Completed);
    assert_eq!(a.simulator.accumulator(), 0x10);
    assert_eq!(a.simulator.register_b(), 0x00);
    assert!(a.simulator.overflow());
    assert_eq!(a.simulator.internal_memory.read(5), 0x77);
    assert_eq!(a.diagnostics.len(), 1);
    assert_eq!(a.diagnostics[0].kind, ErrorKind::DivisionByZero);
}

#[test]
fn call_and_return() {
    let (a, outcome) = run("acall sub\nmov R1,#2\nend\nsub: mov R0,#1\nret");
    assert_eq!(outcome, Outcome::Completed);
    assert_eq!(a.simulator.internal_memory.read(0), 1);
    assert_eq!(a.simulator.internal_memory.read(1), 2);
}

#[test]
fn unresolved_label_aborts() {
    let (a, outcome) = run("mov R0,#1\najmp nowhere\nmov R0,#2\nend");
    assert!(matches!(outcome, Outcome::Failed(Diagnostic { kind: ErrorKind::UnresolvedLabel, .. })));
    assert_eq!(a.simulator.internal_memory.read(0), 1);
}

#[test]
fn step_by_step() {
    let mut a = Assembler::new(b"^\nnop\nend\n$".to_vec());
    a.collect_labels();
    a.tokenizer.pos = 1;
    assert_eq!(a.step(), Status::Running);
    assert_eq!(a.step(), Status::Halted);
}
