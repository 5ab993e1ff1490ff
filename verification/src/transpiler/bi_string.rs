//! Lowering of the `concat` built-in: a three-phase runtime routine that
//! seeks the target string's terminator, copies the source string byte by
//! byte with both cursors advancing in lockstep, and finally writes a
//! fresh terminator.  Nothing checks the target's declared capacity.

use vstd::prelude::*;
use crate::ast::Expression;
use crate::specs::whitespace::all_instrs_ok;
use crate::specs::whitespace::instr_ok;
use crate::specs::whitespace::ArithmeticOperations;
use crate::specs::whitespace::FlowControlOperations;
use crate::specs::whitespace::HeapOperations;
use crate::specs::whitespace::StackOperations;
use crate::specs::whitespace::IMP;
use crate::transpiler::state::spec_lookup;
use crate::transpiler::state::State;
use crate::transpiler::state::StateModel;
use crate::transpiler::LoweringError;
use crate::transpiler::VariableType;

verus! {

/// The concatenation routine: seek loop over the target from `toff`,
/// copy loop over the source from `soff`, terminator write and cleanup.
/// Four fresh labels starting at `l0` mark the two loops' heads and
/// exits.
pub open spec fn spec_concat_code(toff: int, soff: int, l0: int) -> Seq<IMP> {
    seq![
        IMP::Stack(StackOperations::PushNumber(toff as i32)),
        IMP::FlowControl(FlowControlOperations::SetLabel(l0 as i32)),
        IMP::Stack(StackOperations::Duplicate),
        IMP::Heap(HeapOperations::Retrieve),
        IMP::FlowControl(FlowControlOperations::JumpIfZero((l0 + 1) as i32)),
        IMP::Stack(StackOperations::PushNumber(1)),
        IMP::Arithmetic(ArithmeticOperations::Add),
        IMP::FlowControl(FlowControlOperations::Jump(l0 as i32)),
        IMP::FlowControl(FlowControlOperations::SetLabel((l0 + 1) as i32)),
        IMP::Stack(StackOperations::PushNumber(soff as i32)),
        IMP::FlowControl(FlowControlOperations::SetLabel((l0 + 2) as i32)),
        IMP::Stack(StackOperations::Duplicate),
        IMP::Heap(HeapOperations::Retrieve),
        IMP::FlowControl(FlowControlOperations::JumpIfZero((l0 + 3) as i32)),
        IMP::Stack(StackOperations::Duplicate),
        IMP::Heap(HeapOperations::Retrieve),
        IMP::Stack(StackOperations::CopyNth(2)),
        IMP::Stack(StackOperations::Swap),
        IMP::Heap(HeapOperations::Store),
        IMP::Stack(StackOperations::PushNumber(1)),
        IMP::Arithmetic(ArithmeticOperations::Add),
        IMP::Stack(StackOperations::Swap),
        IMP::Stack(StackOperations::PushNumber(1)),
        IMP::Arithmetic(ArithmeticOperations::Add),
        IMP::Stack(StackOperations::Swap),
        IMP::FlowControl(FlowControlOperations::Jump((l0 + 2) as i32)),
        IMP::FlowControl(FlowControlOperations::SetLabel((l0 + 3) as i32)),
        IMP::Stack(StackOperations::Swap),
        IMP::Stack(StackOperations::PushNumber(0)),
        IMP::Heap(HeapOperations::Store),
        IMP::Stack(StackOperations::Discard),
    ]
}

/// What `concat` lowers to, and the state it leaves: both operands must
/// be declared string variables; the routine consumes four fresh labels.
pub open spec fn spec_lower_concat(args: Seq<Expression>, st: StateModel) -> (Result<
    Seq<IMP>,
    LoweringError,
>, StateModel) {
    if args.len() < 2 {
        (Err(LoweringError::UnsupportedArgument), st)
    } else {
        match (args[0], args[1]) {
            (Expression::Variable(target_name), Expression::Variable(source_name)) => match (
                spec_lookup(st.heap, target_name@),
                spec_lookup(st.heap, source_name@),
            ) {
                (Option::None, _) => (Err(LoweringError::UndeclaredVariable), st),
                (Option::Some(_), Option::None) => (Err(LoweringError::UndeclaredVariable), st),
                (Option::Some((toff, tty)), Option::Some((soff, sty))) => if tty
                    matches VariableType::String(_) && sty matches VariableType::String(_) {
                    (
                        Ok(spec_concat_code(toff, soff, st.label)),
                        StateModel { heap: st.heap, cursor: st.cursor, label: st.label + 4 },
                    )
                } else {
                    (Err(LoweringError::UnsupportedType), st)
                },
            },
            _ => (Err(LoweringError::UnsupportedType), st),
        }
    }
}

/// Lowers a `concat` call; on success the routine is appended to `out`
/// and the four consumed labels are recorded in the state.
pub fn concat(state: &mut State, args: &Vec<Expression>, out: &mut Vec<IMP>) -> (r: Result<
    (),
    LoweringError,
>)
    requires
        old(state).wf(),
        old(state).model().label + 4 <= i32::MAX,
    ensures
        final(state).wf(),
        final(state).model() == spec_lower_concat(args@, old(state).model()).1,
        final(state).model().heap == old(state).model().heap,
        final(state).model().cursor == old(state).model().cursor,
        old(state).model().label <= final(state).model().label <= old(state).model().label + 4,
        match r {
            Ok(_) => spec_lower_concat(args@, old(state).model()).0 is Ok && final(out)@ == old(
                out,
            )@ + spec_lower_concat(args@, old(state).model()).0->Ok_0,
            Err(e) => spec_lower_concat(args@, old(state).model()).0 == Err::<
                Seq<IMP>,
                LoweringError,
            >(e) && final(out)@ == old(out)@,
        },
        all_instrs_ok(old(out)@) ==> all_instrs_ok(final(out)@),
{
    if args.len() < 2 {
        return Err(LoweringError::UnsupportedArgument);
    }
    let target = &args[0];
    let source = &args[1];
    match (target, source) {
        (Expression::Variable(target_name), Expression::Variable(source_name)) => {
            let target_found = state.heap_allocation_map.get(target_name);
            let (target_addr, target_type) = match target_found {
                Option::None => {
                    return Err(LoweringError::UndeclaredVariable);
                },
                Option::Some(variable) => (variable.offset(), variable.type_()),
            };
            let source_found = state.heap_allocation_map.get(source_name);
            let (source_addr, source_type) = match source_found {
                Option::None => {
                    return Err(LoweringError::UndeclaredVariable);
                },
                Option::Some(variable) => (variable.offset(), variable.type_()),
            };
            proof {
                crate::transpiler::state::lemma_lookup_in_wf(
                    old(state).model().heap,
                    old(state).model().cursor,
                    target_name@,
                );
                crate::transpiler::state::lemma_lookup_in_wf(
                    old(state).model().heap,
                    old(state).model().cursor,
                    source_name@,
                );
            }
            match (target_type, source_type) {
                (VariableType::String(_), VariableType::String(_)) => {
                    let seek_start_label = state.get_label();
                    let seek_end_label = state.get_label();
                    let copy_start_label = state.get_label();
                    let copy_end_label = state.get_label();
                    let ghost base = out@;
                    out.push(IMP::Stack(StackOperations::PushNumber(target_addr)));
                    out.push(IMP::FlowControl(FlowControlOperations::SetLabel(seek_start_label)));
                    out.push(IMP::Stack(StackOperations::Duplicate));
                    out.push(IMP::Heap(HeapOperations::Retrieve));
                    out.push(IMP::FlowControl(FlowControlOperations::JumpIfZero(seek_end_label)));
                    out.push(IMP::Stack(StackOperations::PushNumber(1)));
                    out.push(IMP::Arithmetic(ArithmeticOperations::Add));
                    out.push(IMP::FlowControl(FlowControlOperations::Jump(seek_start_label)));
                    out.push(IMP::FlowControl(FlowControlOperations::SetLabel(seek_end_label)));
                    out.push(IMP::Stack(StackOperations::PushNumber(source_addr)));
                    out.push(IMP::FlowControl(FlowControlOperations::SetLabel(copy_start_label)));
                    out.push(IMP::Stack(StackOperations::Duplicate));
                    out.push(IMP::Heap(HeapOperations::Retrieve));
                    out.push(IMP::FlowControl(FlowControlOperations::JumpIfZero(copy_end_label)));
                    out.push(IMP::Stack(StackOperations::Duplicate));
                    out.push(IMP::Heap(HeapOperations::Retrieve));
                    out.push(IMP::Stack(StackOperations::CopyNth(2)));
                    out.push(IMP::Stack(StackOperations::Swap));
                    out.push(IMP::Heap(HeapOperations::Store));
                    out.push(IMP::Stack(StackOperations::PushNumber(1)));
                    out.push(IMP::Arithmetic(ArithmeticOperations::Add));
                    out.push(IMP::Stack(StackOperations::Swap));
                    out.push(IMP::Stack(StackOperations::PushNumber(1)));
                    out.push(IMP::Arithmetic(ArithmeticOperations::Add));
                    out.push(IMP::Stack(StackOperations::Swap));
                    out.push(IMP::FlowControl(FlowControlOperations::Jump(copy_start_label)));
                    out.push(IMP::FlowControl(FlowControlOperations::SetLabel(copy_end_label)));
                    out.push(IMP::Stack(StackOperations::Swap));
                    out.push(IMP::Stack(StackOperations::PushNumber(0)));
                    out.push(IMP::Heap(HeapOperations::Store));
                    out.push(IMP::Stack(StackOperations::Discard));
                    proof {
                        assert(out@ =~= base + spec_concat_code(
                            target_addr as int,
                            source_addr as int,
                            old(state).model().label,
                        ));
                        assert forall|j: int|
                            base.len() <= j < out@.len() implies instr_ok(#[trigger] out@[j]) by {}
                        if all_instrs_ok(base) {
                            assert forall|j: int| 0 <= j < out@.len() implies instr_ok(
                                #[trigger] out@[j],
                            ) by {
                                if j < base.len() {
                                    assert(out@[j] == base[j]);
                                }
                            }
                        }
                    }
                    Ok(())
                },
                _ => Err(LoweringError::UnsupportedType),
            }
        },
        _ => Err(LoweringError::UnsupportedType),
    }
}

} // verus!
