use vstd::prelude::*;
use vstd::string::*;
use crate::alu::{
    add_bytes, after_div, after_mul, after_pop, after_push, after_rlc, after_rrc, parity_settled,
    predecessor, rotated_left, rotated_right, settle_parity, store_arith, sub_bytes, successor, swapped,
    LogicOp,
};
use crate::bits::bit_of;
use crate::error::{Diagnostic, ErrorKind};
use crate::jump_table::JumpTable;
use crate::lexer::{lex, lexeme_at, Token, TokenType, TokenView, Tokenizer};
use crate::text::{run_end, scan, CharClass, END_MARKER, LINE_FEED, SLASH, START_MARKER};
use crate::machine::{flag, with_flag, BitOperator, Sim8051, ACC_ADDR, B_ADDR, CARRY_BIT};
use crate::operand::{address_of, bit_place, mnemonic_named, value_of, Mnemonic, Operand, OperandView};

verus! {

/// How the engine stands after a statement.
#[derive(Clone, Copy, Debug, PartialEq, Eq, Structural)]
pub enum Status {
    /// The statement is done and the next one can be executed.
    Running,
    /// The program has ended: `end`, the end marker or the end of the text.
    Halted,
    /// The run is aborted with the condition given.
    Aborted(Diagnostic),
}

/// How a run ended.
#[derive(Clone, Copy, Debug, PartialEq, Eq, Structural)]
pub enum Outcome {
    /// The program ran to its end.
    Completed,
    /// The run was aborted with the condition given.
    Failed(Diagnostic),
    /// The step limit was reached before the program ended.
    OutOfSteps,
}

/// The assembler: the machine, the source text with the execution cursor,
/// the jump table, and the conditions reported without aborting the run.
pub struct Assembler {
    pub simulator: Sim8051,
    pub tokenizer: Tokenizer,
    pub jmptable: JumpTable,
    pub diagnostics: Vec<Diagnostic>,
}

/// The state of an assembler as mathematics: the source text, the memory
/// image, the jump table, the cursor and the reports.
pub ghost struct AsmState {
    pub text: Seq<u8>,
    pub mem: Seq<u8>,
    pub table: Map<Seq<u8>, usize>,
    pub cursor: int,
    pub reports: Seq<Diagnostic>,
}

impl AsmState {
    /// The state with another memory image.
    pub open spec fn with_mem(self, mem: Seq<u8>) -> AsmState {
        AsmState { mem, ..self }
    }

    /// The state with the cursor moved.
    pub open spec fn with_cursor(self, cursor: int) -> AsmState {
        AsmState { cursor, ..self }
    }

    /// The state with another jump table.
    pub open spec fn with_table(self, table: Map<Seq<u8>, usize>) -> AsmState {
        AsmState { table, ..self }
    }

    /// The state with one more report.
    pub open spec fn reported(self, kind: ErrorKind, pos: usize) -> AsmState {
        AsmState { reports: self.reports.push(Diagnostic { kind, pos }), ..self }
    }
}

impl View for Assembler {
    type V = AsmState;

    open spec fn view(&self) -> AsmState {
        AsmState {
            text: self.tokenizer.src@,
            mem: self.simulator@,
            table: self.jmptable@,
            cursor: self.tokenizer.pos as int,
            reports: self.diagnostics@,
        }
    }
}

/// The statement is done; the run goes on.
pub open spec fn proceed(st: AsmState) -> (AsmState, Status) {
    (st, Status::Running)
}

/// A condition is reported and the run goes on with the next statement.
pub open spec fn recover(st: AsmState, kind: ErrorKind, at: usize) -> (AsmState, Status) {
    (st.reported(kind, at), Status::Running)
}

/// The run is aborted.
pub open spec fn abort(st: AsmState, kind: ErrorKind, at: usize) -> (AsmState, Status) {
    (st, Status::Aborted(Diagnostic { kind, pos: at }))
}

/// The reserved name under which `acall` keeps the position to return to.
pub open spec fn return_slot() -> Seq<u8> {
    "ret".spec_bytes()
}

/// A jump to the label `name`, made if `taken`. The label is looked up
/// whether or not the jump is made; a name the jump table lacks aborts the
/// run.
pub open spec fn jump_to(st: AsmState, name: Seq<u8>, taken: bool, at: usize) -> (AsmState, Status) {
    if st.table.contains_key(name) {
        proceed(
            if taken {
                st.with_cursor(st.table[name] as int)
            } else {
                st
            },
        )
    } else {
        abort(st, ErrorKind::UnresolvedLabel, at)
    }
}

/// A statement without operands. `ret` goes back to the position that the
/// last `acall` kept and forgets it, and does nothing where none is kept;
/// `nop` does nothing; `end` halts. Any other mnemonic aborts the run.
pub open spec fn nullary(st: AsmState, mn: Mnemonic, at: usize) -> (AsmState, Status) {
    match mn {
        Mnemonic::Ret => if st.table.contains_key(return_slot()) {
            proceed(st.with_cursor(st.table[return_slot()] as int).with_table(st.table.remove(return_slot())))
        } else {
            proceed(st)
        },
        Mnemonic::Nop => proceed(st),
        Mnemonic::End => (st, Status::Halted),
        _ => abort(st, ErrorKind::UnknownMnemonic, at),
    }
}

/// `clr`, `cpl` and `setb`. With the operand `A`, `clr` and `cpl` work on
/// all eight bits of the accumulator: `clr` leaves zero, `cpl` the
/// complement. Otherwise the operand designates one bit, to which the
/// operator is applied.
pub open spec fn bit_instruction(st: AsmState, operator: BitOperator, op: OperandView, at: usize) -> (
    AsmState,
    Status,
) {
    if operator != BitOperator::SetBit && op.names("A".spec_bytes()) {
        proceed(
            st.with_mem(
                st.mem.update(ACC_ADDR as int, operator.on_all_bits(st.mem[ACC_ADDR as int])),
            ),
        )
    } else if op.negated {
        recover(st, ErrorKind::InvalidOperand, at)
    } else {
        match bit_place(op.token) {
            Some((addr, bit)) => proceed(
                st.with_mem(st.mem.update(addr as int, operator.apply(st.mem[addr as int], bit))),
            ),
            None => recover(st, ErrorKind::InvalidOperand, at),
        }
    }
}

/// `swap`, `rl`, `rr`, `rlc` and `rrc`, which take the accumulator and
/// nothing else.
pub open spec fn accumulator_instruction(st: AsmState, mn: Mnemonic, op: OperandView, at: usize) -> (
    AsmState,
    Status,
) {
    if op.names("A".spec_bytes()) {
        let a = st.mem[ACC_ADDR as int];
        proceed(
            st.with_mem(
                match mn {
                    Mnemonic::Swap => st.mem.update(ACC_ADDR as int, swapped(a)),
                    Mnemonic::Rl => st.mem.update(ACC_ADDR as int, rotated_left(a)),
                    Mnemonic::Rr => st.mem.update(ACC_ADDR as int, rotated_right(a)),
                    Mnemonic::Rlc => after_rlc(st.mem),
                    _ => after_rrc(st.mem),
                },
            ),
        )
    } else {
        recover(st, ErrorKind::InvalidOperand, at)
    }
}

/// `inc`, `dec`, `push` and `pop`, which take any operand that designates
/// an address.
pub open spec fn byte_instruction(st: AsmState, mn: Mnemonic, op: OperandView, at: usize) -> (
    AsmState,
    Status,
) {
    match address_of(st.mem, op) {
        Some(addr) => proceed(
            st.with_mem(
                match mn {
                    Mnemonic::Inc => st.mem.update(addr as int, successor(st.mem[addr as int])),
                    Mnemonic::Dec => st.mem.update(addr as int, predecessor(st.mem[addr as int])),
                    Mnemonic::Push => after_push(st.mem, addr),
                    _ => after_pop(st.mem, addr),
                },
            ),
        ),
        None => recover(st, ErrorKind::InvalidOperand, at),
    }
}

/// `mul` and `div`, which take the register pair `AB`. Division by zero is
/// reported and the run goes on.
pub open spec fn pair_instruction(st: AsmState, mn: Mnemonic, op: OperandView, at: usize) -> (
    AsmState,
    Status,
) {
    if op.names("AB".spec_bytes()) {
        if mn == Mnemonic::Mul {
            proceed(st.with_mem(after_mul(st.mem)))
        } else if st.mem[B_ADDR as int] == 0 {
            recover(st.with_mem(after_div(st.mem)), ErrorKind::DivisionByZero, at)
        } else {
            proceed(st.with_mem(after_div(st.mem)))
        }
    } else {
        recover(st, ErrorKind::InvalidOperand, at)
    }
}

/// Whether a jump with one operand is made: always for `ajmp`, on the carry
/// flag for `jc` and `jnc`, on a zero accumulator for `jz` and `jnz`.
pub open spec fn branch_taken(mem: Seq<u8>, mn: Mnemonic) -> bool {
    match mn {
        Mnemonic::Jc => flag(mem, CARRY_BIT),
        Mnemonic::Jnc => !flag(mem, CARRY_BIT),
        Mnemonic::Jz => mem[ACC_ADDR as int] == 0,
        Mnemonic::Jnz => mem[ACC_ADDR as int] != 0,
        _ => true,
    }
}

/// `ajmp`, `acall`, `jc`, `jnc`, `jz` and `jnz`, which take a label.
/// `acall` keeps the position after the statement in the return slot of
/// the jump table before it jumps.
pub open spec fn branch_instruction(st: AsmState, mn: Mnemonic, op: OperandView, at: usize) -> (
    AsmState,
    Status,
) {
    match op.target() {
        Some(name) => if mn == Mnemonic::Acall {
            if st.table.contains_key(name) {
                proceed(
                    st.with_table(st.table.insert(return_slot(), st.cursor as usize)).with_cursor(
                        st.table[name] as int,
                    ),
                )
            } else {
                abort(st, ErrorKind::UnresolvedLabel, at)
            }
        } else {
            jump_to(st, name, branch_taken(st.mem, mn), at)
        },
        None => recover(st, ErrorKind::InvalidOperand, at),
    }
}

/// A statement with one operand. A mnemonic that is no instruction with one
/// operand is reported and the run goes on.
pub open spec fn unary(st: AsmState, mn: Mnemonic, op: OperandView, at: usize) -> (AsmState, Status) {
    match mn {
        Mnemonic::Clr => bit_instruction(st, BitOperator::ResetBit, op, at),
        Mnemonic::Cpl => bit_instruction(st, BitOperator::ComplementBit, op, at),
        Mnemonic::Setb => bit_instruction(st, BitOperator::SetBit, op, at),
        Mnemonic::Swap | Mnemonic::Rl | Mnemonic::Rr | Mnemonic::Rlc | Mnemonic::Rrc => accumulator_instruction(
            st,
            mn,
            op,
            at,
        ),
        Mnemonic::Inc | Mnemonic::Dec | Mnemonic::Push | Mnemonic::Pop => byte_instruction(st, mn, op, at),
        Mnemonic::Mul | Mnemonic::Div => pair_instruction(st, mn, op, at),
        Mnemonic::Ajmp | Mnemonic::Acall | Mnemonic::Jc | Mnemonic::Jnc | Mnemonic::Jz | Mnemonic::Jnz => branch_instruction(
            st,
            mn,
            op,
            at,
        ),
        _ => recover(st, ErrorKind::UnknownMnemonic, at),
    }
}

/// `mov`: the byte that the second operand stands for is stored at the
/// address that the first designates.
pub open spec fn move_instruction(st: AsmState, first: OperandView, second: OperandView, at: usize) -> (
    AsmState,
    Status,
) {
    match (address_of(st.mem, first), value_of(st.mem, second)) {
        (Some(addr), Some(value)) => proceed(st.with_mem(st.mem.update(addr as int, value))),
        _ => recover(st, ErrorKind::InvalidOperand, at),
    }
}

/// `add`, `addc` and `subb`: the first operand is the accumulator, the
/// second stands for a byte.
pub open spec fn arithmetic_instruction(
    st: AsmState,
    mn: Mnemonic,
    first: OperandView,
    second: OperandView,
    at: usize,
) -> (AsmState, Status) {
    match value_of(st.mem, second) {
        Some(value) => if first.names("A".spec_bytes()) {
            let a = st.mem[ACC_ADDR as int];
            let c = flag(st.mem, CARRY_BIT);
            proceed(
                st.with_mem(
                    store_arith(
                        st.mem,
                        match mn {
                            Mnemonic::Add => add_bytes(a, value, false),
                            Mnemonic::Addc => add_bytes(a, value, c),
                            _ => sub_bytes(a, value, c),
                        },
                    ),
                ),
            )
        } else {
            recover(st, ErrorKind::InvalidOperand, at)
        },
        None => recover(st, ErrorKind::InvalidOperand, at),
    }
}

/// `anl`, `orl` and `xrl`. With the accumulator first, the second operand
/// stands for a byte. With the carry flag first, the second operand
/// designates a bit, complemented when `/` stands before it.
pub open spec fn logic_instruction(
    st: AsmState,
    operator: LogicOp,
    first: OperandView,
    second: OperandView,
    at: usize,
) -> (AsmState, Status) {
    if first.names("A".spec_bytes()) {
        match value_of(st.mem, second) {
            Some(value) => proceed(
                st.with_mem(
                    st.mem.update(ACC_ADDR as int, operator.on_bytes(st.mem[ACC_ADDR as int], value)),
                ),
            ),
            None => recover(st, ErrorKind::InvalidOperand, at),
        }
    } else if first.names("C".spec_bytes()) {
        match bit_place(second.token) {
            Some((addr, bit)) => proceed(
                st.with_mem(
                    with_flag(
                        st.mem,
                        CARRY_BIT,
                        operator.on_bits(
                            bit_of(st.mem[addr as int], bit) != second.negated,
                            flag(st.mem, CARRY_BIT),
                        ),
                    ),
                ),
            ),
            None => recover(st, ErrorKind::InvalidOperand, at),
        }
    } else {
        recover(st, ErrorKind::InvalidOperand, at)
    }
}

/// `jb` and `jnb`: a jump made when the bit that the first operand
/// designates is set, for `jb`, or clear, for `jnb`.
pub open spec fn bit_branch_instruction(
    st: AsmState,
    mn: Mnemonic,
    first: OperandView,
    second: OperandView,
    at: usize,
) -> (AsmState, Status) {
    match (bit_place(first.token), second.target()) {
        (Some((addr, bit)), Some(name)) => if first.negated {
            recover(st, ErrorKind::InvalidOperand, at)
        } else {
            jump_to(st, name, bit_of(st.mem[addr as int], bit) == (mn == Mnemonic::Jb), at)
        },
        _ => recover(st, ErrorKind::InvalidOperand, at),
    }
}

/// `djnz`: the byte that the first operand designates is decremented, and
/// the jump is made unless the byte has become zero. A label that the jump
/// table lacks aborts the run before anything is decremented.
pub open spec fn loop_instruction(st: AsmState, first: OperandView, second: OperandView, at: usize) -> (
    AsmState,
    Status,
) {
    match (address_of(st.mem, first), second.target()) {
        (Some(addr), Some(name)) => if st.table.contains_key(name) {
            let count = predecessor(st.mem[addr as int]);
            let counted = st.with_mem(st.mem.update(addr as int, count));
            proceed(
                if count != 0 {
                    counted.with_cursor(st.table[name] as int)
                } else {
                    counted
                },
            )
        } else {
            abort(st, ErrorKind::UnresolvedLabel, at)
        },
        _ => recover(st, ErrorKind::InvalidOperand, at),
    }
}

/// A statement with two operands. A mnemonic that is no instruction with
/// two operands aborts the run.
pub open spec fn binary(st: AsmState, mn: Mnemonic, first: OperandView, second: OperandView, at: usize) -> (
    AsmState,
    Status,
) {
    match mn {
        Mnemonic::Mov => move_instruction(st, first, second, at),
        Mnemonic::Add | Mnemonic::Addc | Mnemonic::Subb => arithmetic_instruction(st, mn, first, second, at),
        Mnemonic::Anl => logic_instruction(st, LogicOp::And, first, second, at),
        Mnemonic::Orl => logic_instruction(st, LogicOp::Or, first, second, at),
        Mnemonic::Xrl => logic_instruction(st, LogicOp::Xor, first, second, at),
        Mnemonic::Jb | Mnemonic::Jnb => bit_branch_instruction(st, mn, first, second, at),
        Mnemonic::Djnz => loop_instruction(st, first, second, at),
        _ => abort(st, ErrorKind::UnknownMnemonic, at),
    }
}

/// A statement with three operands, which `cjne` alone takes: the byte at
/// the address that the first operand designates is compared with the byte
/// that the second stands for, the carry flag is set when the first is the
/// smaller and cleared otherwise, and the jump to the label is made whatever
/// the comparison gave. Any other mnemonic aborts the run.
pub open spec fn ternary(
    st: AsmState,
    mn: Mnemonic,
    first: OperandView,
    second: OperandView,
    third: OperandView,
    at: usize,
) -> (AsmState, Status) {
    if mn == Mnemonic::Cjne {
        match (address_of(st.mem, first), value_of(st.mem, second), third.target()) {
            (Some(addr), Some(right), Some(name)) => if st.table.contains_key(name) {
                proceed(
                    st.with_mem(with_flag(st.mem, CARRY_BIT, st.mem[addr as int] < right)).with_cursor(
                        st.table[name] as int,
                    ),
                )
            } else {
                abort(st, ErrorKind::UnresolvedLabel, at)
            },
            _ => recover(st, ErrorKind::InvalidOperand, at),
        }
    } else {
        abort(st, ErrorKind::UnknownMnemonic, at)
    }
}

/// Whether a token can stand as an operand.
pub open spec fn is_operand_token(token: TokenView) -> bool {
    token is Id || token is Imm || token is Hex || token is Ind || token is BitAddr
}

/// The operand at `pos`: an operand token, after `/` if the operand is
/// complemented. Gives the operand and the bytes it takes, blanks counted.
pub open spec fn operand_at(text: Seq<u8>, pos: int) -> Option<(OperandView, int)> {
    let mark = run_end(text, pos, CharClass::Blank);
    let negated = 0 <= mark < text.len() && text[mark] == SLASH;
    let from = if negated {
        mark + 1
    } else {
        pos
    };
    let lx = lexeme_at(text, from);
    if is_operand_token(lx.token) {
        Some((OperandView { token: lx.token, negated }, from + lx.len - pos))
    } else {
        None
    }
}

/// The rest of a statement whose two operands are read and followed by a
/// comma: the third operand is read and the statement executed.
pub open spec fn fstmt_spec(st: AsmState, mn: Mnemonic, first: OperandView, second: OperandView, at: usize) -> (
    AsmState,
    Status,
) {
    match operand_at(st.text, st.cursor) {
        Some((third, n)) => ternary(st.with_cursor(st.cursor + n), mn, first, second, third, at),
        None => abort(st, ErrorKind::LexFailure, st.cursor as usize),
    }
}

/// The rest of a statement whose first operand is read and followed by a
/// comma: the second operand is read; if a comma follows it, the statement
/// has a third operand, else it is executed.
pub open spec fn tstmt_spec(st: AsmState, mn: Mnemonic, first: OperandView, at: usize) -> (AsmState, Status) {
    match operand_at(st.text, st.cursor) {
        Some((second, n)) => {
            let next = st.with_cursor(st.cursor + n);
            let lx = lexeme_at(st.text, next.cursor);
            if lx.token == TokenView::Comma {
                fstmt_spec(next.with_cursor(next.cursor + lx.len), mn, first, second, at)
            } else {
                binary(next, mn, first, second, at)
            }
        },
        None => abort(st, ErrorKind::LexFailure, st.cursor as usize),
    }
}

/// The rest of a statement that has operands: the first operand is read;
/// if a comma follows it, the statement has a second operand, else it is
/// executed.
pub open spec fn sstmt_spec(st: AsmState, mn: Mnemonic, at: usize) -> (AsmState, Status) {
    match operand_at(st.text, st.cursor) {
        Some((first, n)) => {
            let next = st.with_cursor(st.cursor + n);
            let lx = lexeme_at(st.text, next.cursor);
            if lx.token == TokenView::Comma {
                tstmt_spec(next.with_cursor(next.cursor + lx.len), mn, first, at)
            } else {
                unary(next, mn, first, at)
            }
        },
        None => abort(st, ErrorKind::LexFailure, st.cursor as usize),
    }
}

/// A statement whose mnemonic is read. Where a line break or the end of
/// the program follows the mnemonic, the statement has no operands.
pub open spec fn stmt_spec(st: AsmState, mn: Mnemonic, at: usize) -> (AsmState, Status) {
    let lx = lexeme_at(st.text, st.cursor);
    if lx.token == TokenView::Line || lx.token == TokenView::Null {
        nullary(st, mn, at)
    } else {
        sstmt_spec(st, mn, at)
    }
}

/// One step of the engine. Whitespace is skipped. At the end of the
/// program the engine halts; a label is passed over; an identifier starts a
/// statement, which is executed; anything else aborts the run. Whatever the
/// step did, the parity flag is then made to agree with the accumulator.
pub open spec fn step_spec(st: AsmState) -> (AsmState, Status) {
    let at = run_end(st.text, st.cursor, CharClass::Space);
    let here = st.with_cursor(at);
    let lx = lexeme_at(st.text, at);
    let (after, status) = match lx.token {
        TokenView::Null => (here, Status::Halted),
        TokenView::Label(_) => proceed(here.with_cursor(at + lx.len)),
        TokenView::Id(name) => stmt_spec(here.with_cursor(at + lx.len), mnemonic_named(name), at as usize),
        _ => abort(here, ErrorKind::LexFailure, at as usize),
    };
    (after.with_mem(settle_parity(after.mem)), status)
}

/// A run of at most `fuel` steps: steps are taken until one halts or
/// aborts, or until the fuel is used up.
pub open spec fn run_spec(st: AsmState, fuel: nat) -> (AsmState, Outcome)
    decreases fuel,
{
    if fuel == 0 {
        (st, Outcome::OutOfSteps)
    } else {
        let (next, status) = step_spec(st);
        match status {
            Status::Running => run_spec(next, (fuel - 1) as nat),
            Status::Halted => (next, Outcome::Completed),
            Status::Aborted(diagnostic) => (next, Outcome::Failed(diagnostic)),
        }
    }
}

/// The jump table that the first pass builds from `pos` on, starting with
/// `table`: every label token met, up to the end of the program, makes its
/// name, the `:` taken off, stand for the cursor at which the token was
/// read. A name defined twice stands for its later position.
pub open spec fn labels_from(text: Seq<u8>, pos: int, table: Map<Seq<u8>, usize>) -> Map<Seq<u8>, usize>
    decreases text.len() - pos,
{
    let lx = lexeme_at(text, pos);
    if 0 <= pos < text.len() && lx.token != TokenView::Null && 0 < lx.len <= text.len() - pos {
        labels_from(
            text,
            pos + lx.len,
            match lx.token {
                TokenView::Label(name) => table.insert(name.drop_last(), pos as usize),
                _ => table,
            },
        )
    } else {
        table
    }
}

/// The jump table of a source text.
pub open spec fn labels_of(text: Seq<u8>) -> Map<Seq<u8>, usize> {
    labels_from(text, 0, Map::empty())
}

/// The state in which a run starts: memory cleared, the jump table built
/// from the text, no reports, the cursor after the start marker.
pub open spec fn start_state(text: Seq<u8>) -> AsmState {
    AsmState {
        text,
        mem: Seq::new(256, |i: int| 0u8),
        table: labels_of(text),
        cursor: 1,
        reports: Seq::empty(),
    }
}

/// A whole run: from the start state, at most `fuel` steps. A text that
/// does not begin with the start marker is not run at all.
pub open spec fn start_spec(text: Seq<u8>, fuel: nat) -> (AsmState, Outcome) {
    if text.len() > 0 && text[0] == START_MARKER {
        run_spec(start_state(text), fuel)
    } else {
        (
            start_state(text).with_cursor(0),
            Outcome::Failed(Diagnostic { kind: ErrorKind::LexFailure, pos: 0 }),
        )
    }
}

/// The operand at `pos`, if there is one, and the bytes it takes.
pub fn read_operand(text: &[u8], pos: usize) -> (r: Option<(Operand, usize)>)
    ensures
        match r {
            Some((op, n)) => operand_at(text@, pos as int) == Some((op@, n as int)) && n > 0 && pos + n
                <= text@.len() && pos + n <= usize::MAX,
            None => operand_at(text@, pos as int) is None,
        },
{
    let limit = text.len();
    let mark = scan(text, pos, CharClass::Blank);
    let negated = mark < text.len() && text[mark] == SLASH;
    let from = if negated {
        mark + 1
    } else {
        pos
    };
    let Token { token, len } = lex(text, from);
    let fits = match &token {
        TokenType::ID(_) | TokenType::IMM(_) | TokenType::HEX(_) | TokenType::IND(_) | TokenType::BIT_ADDR(
            _,
            _,
        ) => true,
        _ => false,
    };
    if fits {
        Some((Operand { token, negated }, from + len - pos))
    } else {
        None
    }
}

impl Assembler {
    /// The assembler is well formed: its jump table is.
    pub open spec fn wf(&self) -> bool {
        self.jmptable.wf()
    }

    /// Reports a condition at `at`; the run goes on.
    pub fn report(&mut self, kind: ErrorKind, at: usize) -> (status: Status)
        requires
            old(self).wf(),
        ensures
            final(self).wf(),
            final(self)@ == recover(old(self)@, kind, at).0,
            status == recover(old(self)@, kind, at).1,
    {
        self.diagnostics.push(Diagnostic { kind, pos: at });
        Status::Running
    }

    /// Jumps to the label `name` if `taken`; aborts if the jump table does
    /// not hold the label.
    pub fn jump(&mut self, name: &[u8], taken: bool, at: usize) -> (status: Status)
        requires
            old(self).wf(),
        ensures
            final(self).wf(),
            final(self)@ == jump_to(old(self)@, name@, taken, at).0,
            status == jump_to(old(self)@, name@, taken, at).1,
    {
        match self.jmptable.get(name) {
            Some(target) => {
                if taken {
                    self.tokenizer.pos = target;
                }
                Status::Running
            },
            None => Status::Aborted(Diagnostic { kind: ErrorKind::UnresolvedLabel, pos: at }),
        }
    }

    /// Executes a statement without operands.
    pub fn execute_nullary(&mut self, mn: Mnemonic, at: usize) -> (status: Status)
        requires
            old(self).wf(),
        ensures
            final(self).wf(),
            final(self)@ == nullary(old(self)@, mn, at).0,
            status == nullary(old(self)@, mn, at).1,
    {
        match mn {
            Mnemonic::Ret => {
                match self.jmptable.remove("ret".as_bytes()) {
                    Some(pos) => {
                        self.tokenizer.pos = pos;
                    },
                    None => {
                        assert(self.jmptable@ =~= old(self).jmptable@);
                    },
                }
                Status::Running
            },
            Mnemonic::Nop => Status::Running,
            Mnemonic::End => Status::Halted,
            _ => Status::Aborted(Diagnostic { kind: ErrorKind::UnknownMnemonic, pos: at }),
        }
    }

    /// Executes `swap`, `rl`, `rr`, `rlc` or `rrc`.
    fn execute_accumulator(&mut self, mn: Mnemonic, op: &Operand, at: usize) -> (status: Status)
        requires
            old(self).wf(),
        ensures
            final(self).wf(),
            final(self)@ == accumulator_instruction(old(self)@, mn, op@, at).0,
            status == accumulator_instruction(old(self)@, mn, op@, at).1,
    {
        if op.names("A".as_bytes()) {
            match mn {
                Mnemonic::Swap => self.simulator.swap_nibbles(),
                Mnemonic::Rl => self.simulator.rotate_left(),
                Mnemonic::Rr => self.simulator.rotate_right(),
                Mnemonic::Rlc => self.simulator.rotate_left_through_carry(),
                _ => self.simulator.rotate_right_through_carry(),
            }
            Status::Running
        } else {
            self.report(ErrorKind::InvalidOperand, at)
        }
    }

    /// Executes `inc`, `dec`, `push` or `pop`.
    fn execute_byte(&mut self, mn: Mnemonic, op: &Operand, at: usize) -> (status: Status)
        requires
            old(self).wf(),
        ensures
            final(self).wf(),
            final(self)@ == byte_instruction(old(self)@, mn, op@, at).0,
            status == byte_instruction(old(self)@, mn, op@, at).1,
    {
        match self.simulator.retrieve_lvalue(op) {
            Some(addr) => {
                match mn {
                    Mnemonic::Inc => self.simulator.increment(addr),
                    Mnemonic::Dec => self.simulator.decrement(addr),
                    Mnemonic::Push => self.simulator.push(addr),
                    _ => self.simulator.pop(addr),
                }
                Status::Running
            },
            None => self.report(ErrorKind::InvalidOperand, at),
        }
    }

    /// Executes `mul` or `div`.
    fn execute_pair(&mut self, mn: Mnemonic, op: &Operand, at: usize) -> (status: Status)
        requires
            old(self).wf(),
        ensures
            final(self).wf(),
            final(self)@ == pair_instruction(old(self)@, mn, op@, at).0,
            status == pair_instruction(old(self)@, mn, op@, at).1,
    {
        if op.names("AB".as_bytes()) {
            match mn {
                Mnemonic::Mul => {
                    self.simulator.mul_ab();
                    Status::Running
                },
                _ => match self.simulator.div_ab() {
                    Ok(_) => Status::Running,
                    Err(kind) => self.report(kind, at),
                },
            }
        } else {
            self.report(ErrorKind::InvalidOperand, at)
        }
    }

    /// Whether a jump with one operand is to be made.
    fn takes_branch(&self, mn: Mnemonic) -> (taken: bool)
        ensures
            taken == branch_taken(self@.mem, mn),
    {
        match mn {
            Mnemonic::Jc => self.simulator.carry(),
            Mnemonic::Jnc => !self.simulator.carry(),
            Mnemonic::Jz => self.simulator.accumulator() == 0,
            Mnemonic::Jnz => self.simulator.accumulator() != 0,
            _ => true,
        }
    }

    /// Executes `ajmp`, `acall`, `jc`, `jnc`, `jz` or `jnz`.
    fn execute_branch(&mut self, mn: Mnemonic, op: &Operand, at: usize) -> (status: Status)
        requires
            old(self).wf(),
        ensures
            final(self).wf(),
            final(self)@ == branch_instruction(old(self)@, mn, op@, at).0,
            status == branch_instruction(old(self)@, mn, op@, at).1,
    {
        match op.target() {
            Some(name) => match mn {
                Mnemonic::Acall => match self.jmptable.get(name.as_slice()) {
                    Some(target) => {
                        self.jmptable.insert("ret".as_bytes_vec(), self.tokenizer.pos);
                        self.tokenizer.pos = target;
                        Status::Running
                    },
                    None => Status::Aborted(Diagnostic { kind: ErrorKind::UnresolvedLabel, pos: at }),
                },
                _ => {
                    let taken = self.takes_branch(mn);
                    self.jump(name.as_slice(), taken, at)
                },
            },
            None => self.report(ErrorKind::InvalidOperand, at),
        }
    }

    /// Executes a statement with one operand.
    pub fn execute_unary(&mut self, mn: Mnemonic, op: &Operand, at: usize) -> (status: Status)
        requires
            old(self).wf(),
        ensures
            final(self).wf(),
            final(self)@ == unary(old(self)@, mn, op@, at).0,
            status == unary(old(self)@, mn, op@, at).1,
    {
        match mn {
            Mnemonic::Clr => clr_set_cpl(self, BitOperator::ResetBit, op, at),
            Mnemonic::Cpl => clr_set_cpl(self, BitOperator::ComplementBit, op, at),
            Mnemonic::Setb => clr_set_cpl(self, BitOperator::SetBit, op, at),
            Mnemonic::Swap | Mnemonic::Rl | Mnemonic::Rr | Mnemonic::Rlc | Mnemonic::Rrc => self.execute_accumulator(
                mn,
                op,
                at,
            ),
            Mnemonic::Inc | Mnemonic::Dec | Mnemonic::Push | Mnemonic::Pop => self.execute_byte(mn, op, at),
            Mnemonic::Mul | Mnemonic::Div => self.execute_pair(mn, op, at),
            Mnemonic::Ajmp | Mnemonic::Acall | Mnemonic::Jc | Mnemonic::Jnc | Mnemonic::Jz | Mnemonic::Jnz => self.execute_branch(
                mn,
                op,
                at,
            ),
            _ => self.report(ErrorKind::UnknownMnemonic, at),
        }
    }

    /// Executes `mov`.
    fn execute_move(&mut self, first: &Operand, second: &Operand, at: usize) -> (status: Status)
        requires
            old(self).wf(),
        ensures
            final(self).wf(),
            final(self)@ == move_instruction(old(self)@, first@, second@, at).0,
            status == move_instruction(old(self)@, first@, second@, at).1,
    {
        match (self.simulator.retrieve_lvalue(first), self.simulator.retrieve_rvalue(second)) {
            (Some(addr), Some(value)) => {
                self.simulator.mov(addr, value);
                Status::Running
            },
            _ => self.report(ErrorKind::InvalidOperand, at),
        }
    }

    /// Executes `add`, `addc` or `subb`.
    fn execute_arithmetic(&mut self, mn: Mnemonic, first: &Operand, second: &Operand, at: usize) -> (status:
        Status)
        requires
            old(self).wf(),
        ensures
            final(self).wf(),
            final(self)@ == arithmetic_instruction(old(self)@, mn, first@, second@, at).0,
            status == arithmetic_instruction(old(self)@, mn, first@, second@, at).1,
    {
        match self.simulator.retrieve_rvalue(second) {
            Some(value) => if first.names("A".as_bytes()) {
                match mn {
                    Mnemonic::Add => self.simulator.add(value),
                    Mnemonic::Addc => self.simulator.addc(value),
                    _ => self.simulator.subb(value),
                }
                Status::Running
            } else {
                self.report(ErrorKind::InvalidOperand, at)
            },
            None => self.report(ErrorKind::InvalidOperand, at),
        }
    }

    /// Executes `jb` or `jnb`.
    fn execute_bit_branch(&mut self, mn: Mnemonic, first: &Operand, second: &Operand, at: usize) -> (status:
        Status)
        requires
            old(self).wf(),
        ensures
            final(self).wf(),
            final(self)@ == bit_branch_instruction(old(self)@, mn, first@, second@, at).0,
            status == bit_branch_instruction(old(self)@, mn, first@, second@, at).1,
    {
        match (first.retrieve_bit(), second.target()) {
            (Some((addr, bit)), Some(name)) => if first.negated {
                self.report(ErrorKind::InvalidOperand, at)
            } else {
                let set = self.simulator.internal_memory.get_bit_status(addr, bit);
                let wanted = match mn {
                    Mnemonic::Jb => true,
                    _ => false,
                };
                self.jump(name.as_slice(), set == wanted, at)
            },
            _ => self.report(ErrorKind::InvalidOperand, at),
        }
    }

    /// Executes `djnz`.
    fn execute_loop(&mut self, first: &Operand, second: &Operand, at: usize) -> (status: Status)
        requires
            old(self).wf(),
        ensures
            final(self).wf(),
            final(self)@ == loop_instruction(old(self)@, first@, second@, at).0,
            status == loop_instruction(old(self)@, first@, second@, at).1,
    {
        match (self.simulator.retrieve_lvalue(first), second.target()) {
            (Some(addr), Some(name)) => match self.jmptable.get(name.as_slice()) {
                Some(target) => {
                    self.simulator.decrement(addr);
                    if self.simulator.internal_memory.read(addr) != 0 {
                        self.tokenizer.pos = target;
                    }
                    Status::Running
                },
                None => Status::Aborted(Diagnostic { kind: ErrorKind::UnresolvedLabel, pos: at }),
            },
            _ => self.report(ErrorKind::InvalidOperand, at),
        }
    }

    /// Executes a statement with two operands.
    pub fn execute_binary(&mut self, mn: Mnemonic, first: &Operand, second: &Operand, at: usize) -> (status:
        Status)
        requires
            old(self).wf(),
        ensures
            final(self).wf(),
            final(self)@ == binary(old(self)@, mn, first@, second@, at).0,
            status == binary(old(self)@, mn, first@, second@, at).1,
    {
        match mn {
            Mnemonic::Mov => self.execute_move(first, second, at),
            Mnemonic::Add | Mnemonic::Addc | Mnemonic::Subb => self.execute_arithmetic(mn, first, second, at),
            Mnemonic::Anl => anl_orl_xrl(self, LogicOp::And, first, second, at),
            Mnemonic::Orl => anl_orl_xrl(self, LogicOp::Or, first, second, at),
            Mnemonic::Xrl => anl_orl_xrl(self, LogicOp::Xor, first, second, at),
            Mnemonic::Jb | Mnemonic::Jnb => self.execute_bit_branch(mn, first, second, at),
            Mnemonic::Djnz => self.execute_loop(first, second, at),
            _ => Status::Aborted(Diagnostic { kind: ErrorKind::UnknownMnemonic, pos: at }),
        }
    }

    /// Executes a statement with three operands.
    pub fn execute_ternary(
        &mut self,
        mn: Mnemonic,
        first: &Operand,
        second: &Operand,
        third: &Operand,
        at: usize,
    ) -> (status: Status)
        requires
            old(self).wf(),
        ensures
            final(self).wf(),
            final(self)@ == ternary(old(self)@, mn, first@, second@, third@, at).0,
            status == ternary(old(self)@, mn, first@, second@, third@, at).1,
    {
        match mn {
            Mnemonic::Cjne => match (
                self.simulator.retrieve_lvalue(first),
                self.simulator.retrieve_rvalue(second),
                third.target(),
            ) {
                (Some(addr), Some(right), Some(name)) => match self.jmptable.get(name.as_slice()) {
                    Some(target) => {
                        let left = self.simulator.internal_memory.read(addr);
                        self.simulator.compare(left, right);
                        self.tokenizer.pos = target;
                        Status::Running
                    },
                    None => Status::Aborted(Diagnostic { kind: ErrorKind::UnresolvedLabel, pos: at }),
                },
                _ => self.report(ErrorKind::InvalidOperand, at),
            },
            _ => Status::Aborted(Diagnostic { kind: ErrorKind::UnknownMnemonic, pos: at }),
        }
    }
}

/// Executes `clr`, `cpl` or `setb`, as the operator says.
pub fn clr_set_cpl(assembler: &mut Assembler, operator: BitOperator, operand: &Operand, at: usize) -> (status:
    Status)
    requires
        old(assembler).wf(),
    ensures
        final(assembler).wf(),
        final(assembler)@ == bit_instruction(old(assembler)@, operator, operand@, at).0,
        status == bit_instruction(old(assembler)@, operator, operand@, at).1,
{
    let whole = match operator {
        BitOperator::SetBit => false,
        _ => operand.names("A".as_bytes()),
    };
    if whole {
        assembler.simulator.operate_accumulator_bits(operator);
        Status::Running
    } else if operand.negated {
        assembler.report(ErrorKind::InvalidOperand, at)
    } else {
        match operand.retrieve_bit() {
            Some((addr, bit)) => {
                assembler.simulator.internal_memory.operate_bit_addressable_registers(addr, bit, operator);
                Status::Running
            },
            None => assembler.report(ErrorKind::InvalidOperand, at),
        }
    }
}

/// Executes `anl`, `orl` or `xrl`, as the operator says.
pub fn anl_orl_xrl(assembler: &mut Assembler, operator: LogicOp, op1: &Operand, op2: &Operand, at: usize) -> (status:
    Status)
    requires
        old(assembler).wf(),
    ensures
        final(assembler).wf(),
        final(assembler)@ == logic_instruction(old(assembler)@, operator, op1@, op2@, at).0,
        status == logic_instruction(old(assembler)@, operator, op1@, op2@, at).1,
{
    if op1.names("A".as_bytes()) {
        match assembler.simulator.retrieve_rvalue(op2) {
            Some(value) => {
                assembler.simulator.logic_on_accumulator(operator, value);
                Status::Running
            },
            None => assembler.report(ErrorKind::InvalidOperand, at),
        }
    } else if op1.names("C".as_bytes()) {
        match op2.retrieve_bit() {
            Some((addr, bit)) => {
                let set = assembler.simulator.internal_memory.get_bit_status(addr, bit);
                assembler.simulator.logic_on_carry(operator, set != op2.negated);
                Status::Running
            },
            None => assembler.report(ErrorKind::InvalidOperand, at),
        }
    } else {
        assembler.report(ErrorKind::InvalidOperand, at)
    }
}

impl Default for Assembler {
    fn default() -> (assembler: Assembler)
        ensures
            assembler.wf(),
            assembler@ == (AsmState {
                text: Seq::empty(),
                mem: Seq::new(256, |i: int| 0u8),
                table: Map::empty(),
                cursor: 0,
                reports: Seq::empty(),
            }),
    {
        let assembler = Assembler::new(Vec::new());
        assert(assembler@.text =~= Seq::empty());
        assembler
    }
}

impl Assembler {
    /// An assembler over `src`, with cleared memory and an empty jump table.
    pub fn new(src: Vec<u8>) -> (assembler: Assembler)
        ensures
            assembler.wf(),
            assembler@ == (AsmState {
                text: src@,
                mem: Seq::new(256, |i: int| 0u8),
                table: Map::empty(),
                cursor: 0,
                reports: Seq::empty(),
            }),
    {
        Assembler {
            simulator: Sim8051::default(),
            tokenizer: Tokenizer::new(src),
            jmptable: JumpTable::new(),
            diagnostics: Vec::new(),
        }
    }

    /// Appends `src` to the source text.
    pub fn read_src_from_string(&mut self, src: &str)
        ensures
            final(self)@ == (AsmState { text: old(self)@.text + src.spec_bytes(), ..old(self)@ }),
            final(self).wf() == old(self).wf(),
    {
        let bytes = src.as_bytes();
        let mut i: usize = 0;
        while i < bytes.len()
            invariant
                i <= bytes@.len(),
                bytes@ == src.spec_bytes(),
                self@ == (AsmState { text: old(self)@.text + bytes@.subrange(0, i as int), ..old(self)@ }),
                self.jmptable == old(self).jmptable,
            decreases bytes@.len() - i,
        {
            self.tokenizer.src.push(bytes[i]);
            assert(self.tokenizer.src@ =~= old(self)@.text + bytes@.subrange(0, i + 1));
            i += 1;
        }
        assert(bytes@.subrange(0, i as int) =~= bytes@);
    }

    /// Frames the source text for a run: the start marker and a line break
    /// before it, a line break and the end marker after it.
    pub fn frame_source(&mut self)
        ensures
            final(self)@ == (AsmState { text: framed(old(self)@.text), ..old(self)@ }),
            final(self).wf() == old(self).wf(),
    {
        let mut text: Vec<u8> = Vec::new();
        text.push(START_MARKER);
        text.push(LINE_FEED);
        let mut i: usize = 0;
        while i < self.tokenizer.src.len()
            invariant
                i <= self.tokenizer.src@.len(),
                self == old(self),
                text@ == seq![START_MARKER, LINE_FEED] + self.tokenizer.src@.subrange(0, i as int),
            decreases self.tokenizer.src@.len() - i,
        {
            text.push(self.tokenizer.src[i]);
            assert(text@ =~= seq![START_MARKER, LINE_FEED] + self.tokenizer.src@.subrange(0, i + 1));
            i += 1;
        }
        text.push(LINE_FEED);
        text.push(END_MARKER);
        assert(text@ =~= framed(self.tokenizer.src@)) by {
            assert(self.tokenizer.src@.subrange(0, i as int) =~= self.tokenizer.src@);
        }
        self.tokenizer.src = text;
    }

    /// Moves the cursor past a comma, if the next token is one, and says
    /// whether it was.
    fn comma_follows(&mut self) -> (found: bool)
        ensures
            final(self).jmptable == old(self).jmptable,
            found == (lexeme_at(old(self)@.text, old(self)@.cursor).token == TokenView::Comma),
            final(self)@ == if found {
                old(self)@.with_cursor(old(self)@.cursor + lexeme_at(old(self)@.text, old(self)@.cursor).len)
            } else {
                old(self)@
            },
    {
        let tok = self.tokenizer.peek();
        match tok.token {
            TokenType::COMMA => {
                self.tokenizer.pos = self.tokenizer.pos + tok.len;
                true
            },
            _ => false,
        }
    }

    /// Reads the third operand of a statement and executes the statement.
    pub fn fstmt(&mut self, mn: Mnemonic, first: &Operand, second: &Operand, at: usize) -> (status: Status)
        requires
            old(self).wf(),
        ensures
            final(self).wf(),
            final(self)@ == fstmt_spec(old(self)@, mn, first@, second@, at).0,
            status == fstmt_spec(old(self)@, mn, first@, second@, at).1,
    {
        let cursor = self.tokenizer.pos;
        match read_operand(self.tokenizer.src.as_slice(), cursor) {
            Some((third, n)) => {
                self.tokenizer.pos = cursor + n;
                self.execute_ternary(mn, first, second, &third, at)
            },
            None => Status::Aborted(Diagnostic { kind: ErrorKind::LexFailure, pos: cursor }),
        }
    }

    /// Reads the second operand of a statement, and the third if a comma
    /// follows, and executes the statement.
    pub fn tstmt(&mut self, mn: Mnemonic, first: &Operand, at: usize) -> (status: Status)
        requires
            old(self).wf(),
        ensures
            final(self).wf(),
            final(self)@ == tstmt_spec(old(self)@, mn, first@, at).0,
            status == tstmt_spec(old(self)@, mn, first@, at).1,
    {
        let cursor = self.tokenizer.pos;
        match read_operand(self.tokenizer.src.as_slice(), cursor) {
            Some((second, n)) => {
                self.tokenizer.pos = cursor + n;
                if self.comma_follows() {
                    self.fstmt(mn, first, &second, at)
                } else {
                    self.execute_binary(mn, first, &second, at)
                }
            },
            None => Status::Aborted(Diagnostic { kind: ErrorKind::LexFailure, pos: cursor }),
        }
    }

    /// Reads the first operand of a statement, and the others where commas
    /// follow, and executes the statement.
    pub fn sstmt(&mut self, mn: Mnemonic, at: usize) -> (status: Status)
        requires
            old(self).wf(),
        ensures
            final(self).wf(),
            final(self)@ == sstmt_spec(old(self)@, mn, at).0,
            status == sstmt_spec(old(self)@, mn, at).1,
    {
        let cursor = self.tokenizer.pos;
        match read_operand(self.tokenizer.src.as_slice(), cursor) {
            Some((first, n)) => {
                self.tokenizer.pos = cursor + n;
                if self.comma_follows() {
                    self.tstmt(mn, &first, at)
                } else {
                    self.execute_unary(mn, &first, at)
                }
            },
            None => Status::Aborted(Diagnostic { kind: ErrorKind::LexFailure, pos: cursor }),
        }
    }

    /// Executes the statement whose mnemonic, read at `at`, is `mn`; the
    /// cursor stands after the mnemonic.
    pub fn stmt(&mut self, mn: Mnemonic, at: usize) -> (status: Status)
        requires
            old(self).wf(),
        ensures
            final(self).wf(),
            final(self)@ == stmt_spec(old(self)@, mn, at).0,
            status == stmt_spec(old(self)@, mn, at).1,
    {
        let tok = self.tokenizer.peek();
        match tok.token {
            TokenType::LINE | TokenType::NULL => self.execute_nullary(mn, at),
            _ => self.sstmt(mn, at),
        }
    }

    /// Takes one step: passes over a label or executes one statement.
    pub fn step(&mut self) -> (status: Status)
        requires
            old(self).wf(),
        ensures
            final(self).wf(),
            final(self)@ == step_spec(old(self)@).0,
            status == step_spec(old(self)@).1,
            parity_settled(final(self)@.mem),
    {
        self.tokenizer.consume_newlines();
        let at = self.tokenizer.pos;
        let tok = self.tokenizer.peek();
        let status = match &tok.token {
            TokenType::NULL => Status::Halted,
            TokenType::LABEL(_) => {
                self.tokenizer.pos = at + tok.len;
                Status::Running
            },
            TokenType::ID(name) => {
                self.tokenizer.pos = at + tok.len;
                let mn = Mnemonic::from_name(name.as_slice());
                self.stmt(mn, at)
            },
            _ => Status::Aborted(Diagnostic { kind: ErrorKind::LexFailure, pos: at }),
        };
        self.simulator.refresh_parity();
        status
    }

    /// Runs the program from the cursor on, for at most `max_steps` steps.
    pub fn prog(&mut self, max_steps: u64) -> (outcome: Outcome)
        requires
            old(self).wf(),
        ensures
            final(self).wf(),
            final(self)@ == run_spec(old(self)@, max_steps as nat).0,
            outcome == run_spec(old(self)@, max_steps as nat).1,
            max_steps > 0 || parity_settled(old(self)@.mem) ==> parity_settled(final(self)@.mem),
    {
        let mut remaining: u64 = max_steps;
        while remaining > 0
            invariant
                self.wf(),
                remaining < max_steps || parity_settled(old(self)@.mem) ==> parity_settled(self@.mem),
                run_spec(self@, remaining as nat) == run_spec(old(self)@, max_steps as nat),
            decreases remaining,
        {
            match self.step() {
                Status::Running => {
                    remaining = remaining - 1;
                },
                Status::Halted => {
                    return Outcome::Completed;
                },
                Status::Aborted(diagnostic) => {
                    return Outcome::Failed(diagnostic);
                },
            }
        }
        Outcome::OutOfSteps
    }

    /// The first pass: builds the jump table from the labels of the source
    /// text, and leaves the cursor at the start of the text.
    pub fn collect_labels(&mut self)
        ensures
            final(self).wf(),
            final(self)@ == (AsmState { table: labels_of(old(self)@.text), cursor: 0, ..old(self)@ }),
    {
        self.jmptable = JumpTable::new();
        let mut pos: usize = 0;
        let mut done = false;
        let limit = self.tokenizer.src.len();
        while !done && pos < limit
            invariant
                self.wf(),
                limit == self.tokenizer.src@.len(),
                done ==> lexeme_at(self.tokenizer.src@, pos as int).token == TokenView::Null,
                self.tokenizer.src == old(self).tokenizer.src,
                self.simulator == old(self).simulator,
                self.diagnostics == old(self).diagnostics,
                labels_from(self.tokenizer.src@, pos as int, self.jmptable@) == labels_of(old(self)@.text),
            decreases
                    limit - pos + if done {
                        0int
                    } else {
                        1int
                    },
        {
            let Token { token, len } = lex(self.tokenizer.src.as_slice(), pos);
            match token {
                TokenType::NULL => {
                    done = true;
                },
                TokenType::LABEL(text) => {
                    let mut name = text;
                    proof {
                        lemma_label_is_not_empty(self.tokenizer.src@, pos as int);
                    }
                    name.pop();
                    self.jmptable.insert(name, pos);
                    pos = pos + len;
                },
                _ => {
                    pos = pos + len;
                },
            }
        }
        self.tokenizer.pos = 0;
    }

    /// Runs the program: clears the memory and the reports, builds the jump
    /// table, and executes from the start marker on, for at most
    /// `max_steps` steps.
    pub fn start(&mut self, max_steps: u64) -> (outcome: Outcome)
        ensures
            final(self).wf(),
            final(self)@ == start_spec(old(self)@.text, max_steps as nat).0,
            outcome == start_spec(old(self)@.text, max_steps as nat).1,
            parity_settled(final(self)@.mem),
    {
        self.simulator = Sim8051::default();
        proof {
            lemma_cleared_memory_is_settled();
        }
        self.diagnostics = Vec::new();
        self.collect_labels();
        if self.tokenizer.src.len() > 0 && self.tokenizer.src[0] == START_MARKER {
            self.tokenizer.pos = 1;
            self.prog(max_steps)
        } else {
            Outcome::Failed(Diagnostic { kind: ErrorKind::LexFailure, pos: 0 })
        }
    }
}

/// In cleared memory the parity flag agrees with the accumulator.
pub proof fn lemma_cleared_memory_is_settled()
    ensures
        parity_settled(Seq::new(256, |i: int| 0u8)),
{
    assert(0u8 & (1u8 << 0u8) == 0) by (bit_vector);
}

/// A source text framed for a run.
pub open spec fn framed(text: Seq<u8>) -> Seq<u8> {
    seq![START_MARKER, LINE_FEED] + text + seq![LINE_FEED, END_MARKER]
}

/// The text of a label token holds at least the `:` that ends it.
pub proof fn lemma_label_is_not_empty(text: Seq<u8>, pos: int)
    ensures
        lexeme_at(text, pos).token matches TokenView::Label(name) ==> name.len() > 0,
{
}

} // verus!
