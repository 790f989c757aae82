use vstd::prelude::*;
use crate::alu::LogicOp;
use crate::assembler::{
    accumulator_instruction, arithmetic_instruction, binary, bit_branch_instruction, bit_instruction,
    branch_instruction, byte_instruction, jump_to, labels_from, labels_of, logic_instruction, loop_instruction,
    move_instruction, nullary, operand_at, pair_instruction, return_slot, run_spec, start_spec, start_state,
    step_spec, stmt_spec, ternary, unary, AsmState, Status,
};
use crate::lexer::{lexeme_at, TokenView};
use crate::machine::BitOperator;
use crate::operand::{mnemonic_named, Mnemonic, OperandView};
use crate::text::{run_end, CharClass, COLON, START_MARKER};

verus! {

/// Every position in a jump table is one at which the text defines the
/// label that stands for it.
pub open spec fn points_at_definitions(text: Seq<u8>, table: Map<Seq<u8>, usize>) -> bool {
    forall|name: Seq<u8>| #[trigger]
        table.contains_key(name) ==> table[name] < text.len() && lexeme_at(text, table[name] as int).token
            == TokenView::Label(name.push(COLON))
}

/// The first pass keeps a table whose positions are label definitions that
/// way: it adds labels only at the positions where it reads them.
pub proof fn lemma_labels_from(text: Seq<u8>, pos: int, table: Map<Seq<u8>, usize>)
    requires
        text.len() <= usize::MAX,
        points_at_definitions(text, table),
    ensures
        points_at_definitions(text, labels_from(text, pos, table)),
    decreases text.len() - pos,
{
    let lx = lexeme_at(text, pos);
    if 0 <= pos < text.len() && lx.token != TokenView::Null && 0 < lx.len <= text.len() - pos {
        let next = match lx.token {
            TokenView::Label(label) => table.insert(label.drop_last(), pos as usize),
            _ => table,
        };
        assert(points_at_definitions(text, next)) by {
            match lx.token {
                TokenView::Label(label) => {
                    assert(label.len() > 0);
                    assert(label.drop_last().push(COLON) =~= label);
                    assert forall|name: Seq<u8>| #[trigger] next.contains_key(name) implies next[name]
                        < text.len() && lexeme_at(text, next[name] as int).token == TokenView::Label(
                        name.push(COLON),
                    ) by {
                        if name != label.drop_last() {
                            assert(table.contains_key(name));
                        }
                    }
                },
                _ => {},
            }
        }
        lemma_labels_from(text, pos + lx.len, next);
    }
}

/// Every label of the jump table that the first pass builds stands for a
/// position at which the text defines that label.
pub proof fn lemma_labels_point_at_definitions(text: Seq<u8>)
    requires
        text.len() <= usize::MAX,
    ensures
        points_at_definitions(text, labels_of(text)),
{
    lemma_labels_from(text, 0, Map::empty());
}

/// Label resolution does not depend on where a jump stands. Two jumps to the
/// same label, made from any two states that share a jump table, one before
/// the definition of the label in the text and one after it, leave the
/// cursor at the same position: the one the jump table gives.
pub proof fn lemma_jump_is_position_independent(
    before: AsmState,
    after: AsmState,
    op: OperandView,
    name: Seq<u8>,
    at_before: usize,
    at_after: usize,
)
    requires
        before.table == after.table,
        op.target() == Some(name),
        before.table.contains_key(name),
    ensures
        unary(before, Mnemonic::Ajmp, op, at_before).1 == Status::Running,
        unary(after, Mnemonic::Ajmp, op, at_after).1 == Status::Running,
        unary(before, Mnemonic::Ajmp, op, at_before).0.cursor == before.table[name],
        unary(after, Mnemonic::Ajmp, op, at_after).0.cursor == before.table[name],
        jump_to(before, name, true, at_before).0.cursor == jump_to(after, name, true, at_after).0.cursor,
{
}

/// With the jump table that the first pass builds, a jump to a label lands
/// on the definition of that label, whether the definition stands before
/// the jump or after it.
pub proof fn lemma_jump_reaches_definition(st: AsmState, op: OperandView, name: Seq<u8>, at: usize)
    requires
        st.text.len() <= usize::MAX,
        st.table == labels_of(st.text),
        op.target() == Some(name),
        st.table.contains_key(name),
    ensures
        unary(st, Mnemonic::Ajmp, op, at).1 == Status::Running,
        lexeme_at(st.text, unary(st, Mnemonic::Ajmp, op, at).0.cursor).token == TokenView::Label(
            name.push(COLON),
        ),
{
    lemma_labels_point_at_definitions(st.text);
}

/// Two jump tables hold the same labels: they agree on every name but the
/// reserved return slot.
pub open spec fn same_labels(before: Map<Seq<u8>, usize>, after: Map<Seq<u8>, usize>) -> bool {
    forall|name: Seq<u8>|
        name != return_slot() ==> (#[trigger] after.contains_key(name) == before.contains_key(name)) && (
        before.contains_key(name) ==> after[name] == before[name])
}

/// What every state of a run keeps of the state before it: the source text,
/// the size of the memory image, the labels of the jump table, and the
/// reports made so far, to which it may have added.
pub open spec fn follows(before: AsmState, after: AsmState) -> bool {
    &&& after.text == before.text
    &&& after.mem.len() == 256
    &&& same_labels(before.table, after.table)
    &&& before.reports.len() <= after.reports.len()
    &&& forall|i: int| 0 <= i < before.reports.len() ==> after.reports[i] == before.reports[i]
}

/// A statement without operands keeps the text, the memory size, the labels
/// and the earlier reports.
pub proof fn lemma_nullary_follows(st: AsmState, mn: Mnemonic, at: usize)
    requires
        st.mem.len() == 256,
    ensures
        follows(st, nullary(st, mn, at).0),
{
}

/// A statement with one operand keeps the text, the memory size, the labels
/// and the earlier reports.
pub proof fn lemma_unary_follows(st: AsmState, mn: Mnemonic, op: OperandView, at: usize)
    requires
        st.mem.len() == 256,
    ensures
        follows(st, unary(st, mn, op, at).0),
{
    assert(follows(st, bit_instruction(st, BitOperator::ResetBit, op, at).0));
    assert(follows(st, bit_instruction(st, BitOperator::SetBit, op, at).0));
    assert(follows(st, bit_instruction(st, BitOperator::ComplementBit, op, at).0));
    assert(follows(st, accumulator_instruction(st, mn, op, at).0));
    assert(follows(st, byte_instruction(st, mn, op, at).0));
    assert(follows(st, pair_instruction(st, mn, op, at).0));
    assert(follows(st, branch_instruction(st, mn, op, at).0));
}

/// A statement with two operands keeps the text, the memory size, the
/// labels and the earlier reports.
pub proof fn lemma_binary_follows(st: AsmState, mn: Mnemonic, first: OperandView, second: OperandView, at: usize)
    requires
        st.mem.len() == 256,
    ensures
        follows(st, binary(st, mn, first, second, at).0),
{
    assert(follows(st, move_instruction(st, first, second, at).0));
    assert(follows(st, arithmetic_instruction(st, mn, first, second, at).0));
    assert(follows(st, logic_instruction(st, LogicOp::And, first, second, at).0));
    assert(follows(st, logic_instruction(st, LogicOp::Or, first, second, at).0));
    assert(follows(st, logic_instruction(st, LogicOp::Xor, first, second, at).0));
    assert(follows(st, bit_branch_instruction(st, mn, first, second, at).0));
    assert(follows(st, loop_instruction(st, first, second, at).0));
}

/// A statement with three operands keeps the text, the memory size, the
/// labels and the earlier reports.
pub proof fn lemma_ternary_follows(
    st: AsmState,
    mn: Mnemonic,
    first: OperandView,
    second: OperandView,
    third: OperandView,
    at: usize,
)
    requires
        st.mem.len() == 256,
    ensures
        follows(st, ternary(st, mn, first, second, third, at).0),
{
}

/// A statement, whatever its operands, keeps the text, the memory size, the
/// labels and the earlier reports.
pub proof fn lemma_stmt_follows(st: AsmState, mn: Mnemonic, at: usize)
    requires
        st.mem.len() == 256,
    ensures
        follows(st, stmt_spec(st, mn, at).0),
{
    let lx = lexeme_at(st.text, st.cursor);
    if lx.token == TokenView::Line || lx.token == TokenView::Null {
        lemma_nullary_follows(st, mn, at);
    } else {
        match operand_at(st.text, st.cursor) {
            Some((first, n)) => {
                let next = st.with_cursor(st.cursor + n);
                let comma = lexeme_at(st.text, next.cursor);
                if comma.token == TokenView::Comma {
                    let second_at = next.with_cursor(next.cursor + comma.len);
                    match operand_at(st.text, second_at.cursor) {
                        Some((second, m)) => {
                            let after = second_at.with_cursor(second_at.cursor + m);
                            let more = lexeme_at(st.text, after.cursor);
                            if more.token == TokenView::Comma {
                                let third_at = after.with_cursor(after.cursor + more.len);
                                match operand_at(st.text, third_at.cursor) {
                                    Some((third, k)) => {
                                        lemma_ternary_follows(
                                            third_at.with_cursor(third_at.cursor + k),
                                            mn,
                                            first,
                                            second,
                                            third,
                                            at,
                                        );
                                    },
                                    None => {},
                                }
                            } else {
                                lemma_binary_follows(after, mn, first, second, at);
                            }
                        },
                        None => {},
                    }
                } else {
                    lemma_unary_follows(next, mn, first, at);
                }
            },
            None => {},
        }
    }
}

/// A step keeps the text, the memory size, the labels and the earlier
/// reports: the jump table is changed in its return slot alone.
pub proof fn lemma_step_follows(st: AsmState)
    requires
        st.mem.len() == 256,
    ensures
        follows(st, step_spec(st).0),
{
    let at = run_end(st.text, st.cursor, CharClass::Space);
    let here = st.with_cursor(at);
    let lx = lexeme_at(st.text, at);
    match lx.token {
        TokenView::Id(name) => {
            lemma_stmt_follows(here.with_cursor(at + lx.len), mnemonic_named(name), at as usize);
        },
        _ => {},
    }
}

/// A run keeps the text, the memory size, the labels and the earlier
/// reports, however many steps it takes.
pub proof fn lemma_run_follows(st: AsmState, fuel: nat)
    requires
        st.mem.len() == 256,
    ensures
        follows(st, run_spec(st, fuel).0),
    decreases fuel,
{
    if fuel > 0 {
        lemma_step_follows(st);
        let (next, status) = step_spec(st);
        if status == Status::Running {
            lemma_run_follows(next, (fuel - 1) as nat);
        }
    }
}

/// A whole run leaves a memory image of 256 bytes, and a jump table that
/// holds the labels of the text as the first pass found them: only the
/// return slot may differ.
pub proof fn lemma_start_keeps_labels(text: Seq<u8>, fuel: nat)
    ensures
        start_spec(text, fuel).0.text == text,
        start_spec(text, fuel).0.mem.len() == 256,
        same_labels(labels_of(text), start_spec(text, fuel).0.table),
{
    if text.len() > 0 && text[0] == START_MARKER {
        lemma_run_follows(start_state(text), fuel);
    }
}

} // verus!
