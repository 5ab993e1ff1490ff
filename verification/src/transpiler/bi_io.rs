//! Lowering of the input and output built-ins.  `print` of a string
//! variable and `read` into one synthesize a runtime loop that walks the
//! variable's cells until the terminator; everything else is a fixed,
//! short instruction sequence.

use vstd::prelude::*;
use vstd::string::*;
use crate::ast::Expression;
use crate::specs::whitespace::all_instrs_ok;
use crate::specs::whitespace::instr_ok;
use crate::specs::whitespace::ArithmeticOperations;
use crate::specs::whitespace::FlowControlOperations;
use crate::specs::whitespace::HeapOperations;
use crate::specs::whitespace::IOOperations;
use crate::specs::whitespace::StackOperations;
use crate::specs::whitespace::IMP;
use crate::transpiler::emitter::spec_lower_expr;
use crate::transpiler::emitter::CodeEmitter;
use crate::transpiler::state::spec_lookup;
use crate::transpiler::state::State;
use crate::transpiler::state::StateModel;
use crate::transpiler::LoweringError;
use crate::transpiler::VariableType;

verus! {

/// The unrolled printing of a string literal: each character is pushed
/// and printed in order.
pub open spec fn spec_print_literal(text: Seq<char>) -> Seq<IMP>
    decreases text.len(),
{
    if text.len() == 0 {
        Seq::empty()
    } else {
        spec_print_literal(text.drop_last()) + seq![
            IMP::Stack(StackOperations::PushNumber(text.last() as i32)),
            IMP::IO(IOOperations::PrintAsChar),
        ]
    }
}

/// The runtime loop that prints a string variable: the cursor on the
/// stack is duplicated, the cell read, and the loop left at the
/// terminator; otherwise the cell is printed and the cursor advanced.
/// The leftover cursor is discarded on exit.
pub open spec fn spec_print_string_loop(l0: int) -> Seq<IMP> {
    seq![
        IMP::FlowControl(FlowControlOperations::SetLabel(l0 as i32)),
        IMP::Stack(StackOperations::Duplicate),
        IMP::Stack(StackOperations::Duplicate),
        IMP::Heap(HeapOperations::Retrieve),
        IMP::FlowControl(FlowControlOperations::JumpIfZero((l0 + 1) as i32)),
        IMP::Heap(HeapOperations::Retrieve),
        IMP::IO(IOOperations::PrintAsChar),
        IMP::Stack(StackOperations::PushNumber(1)),
        IMP::Arithmetic(ArithmeticOperations::Add),
        IMP::FlowControl(FlowControlOperations::Jump(l0 as i32)),
        IMP::FlowControl(FlowControlOperations::SetLabel((l0 + 1) as i32)),
        IMP::Stack(StackOperations::Discard),
    ]
}

/// The runtime loop that reads a line into a string variable: one
/// character is read into the current cell, the newline ends the loop,
/// otherwise the cursor advances; finally the terminator overwrites the
/// newline cell and the cursor is discarded.
pub open spec fn spec_read_string_loop(l0: int) -> Seq<IMP> {
    seq![
        IMP::FlowControl(FlowControlOperations::SetLabel(l0 as i32)),
        IMP::Stack(StackOperations::Duplicate),
        IMP::Stack(StackOperations::Duplicate),
        IMP::IO(IOOperations::ReadAsChar),
        IMP::Heap(HeapOperations::Retrieve),
        IMP::Stack(StackOperations::PushNumber(10)),
        IMP::Arithmetic(ArithmeticOperations::Subtract),
        IMP::FlowControl(FlowControlOperations::JumpIfZero((l0 + 1) as i32)),
        IMP::Stack(StackOperations::PushNumber(1)),
        IMP::Arithmetic(ArithmeticOperations::Add),
        IMP::FlowControl(FlowControlOperations::Jump(l0 as i32)),
        IMP::FlowControl(FlowControlOperations::SetLabel((l0 + 1) as i32)),
        IMP::Stack(StackOperations::PushNumber(0)),
        IMP::Heap(HeapOperations::Store),
    ]
}

/// What `print` lowers to, and the state it leaves: a string literal is
/// printed character by character; an integer value is printed as a
/// number; an integer variable is retrieved first; a string variable gets
/// the runtime loop, which consumes two fresh labels.
pub open spec fn spec_lower_print(args: Seq<Expression>, st: StateModel) -> (Result<
    Seq<IMP>,
    LoweringError,
>, StateModel) {
    if args.len() < 1 {
        (Err(LoweringError::UnsupportedArgument), st)
    } else {
        match args[0] {
            Expression::Literal(text) => (
                Ok(spec_print_literal(text@)),
                st,
            ),
            Expression::Integer(value) => (
                Ok(
                    seq![
                        IMP::Stack(StackOperations::PushNumber(value)),
                        IMP::IO(IOOperations::PrintAsNumber),
                    ],
                ),
                st,
            ),
            Expression::Variable(name) => match spec_lookup(st.heap, name@) {
                Option::None => (Err(LoweringError::UndeclaredVariable), st),
                Option::Some((off, ty)) => match ty {
                    VariableType::Int => (
                        Ok(
                            seq![
                                IMP::Stack(StackOperations::PushNumber(off as i32)),
                                IMP::Heap(HeapOperations::Retrieve),
                                IMP::IO(IOOperations::PrintAsNumber),
                            ],
                        ),
                        st,
                    ),
                    VariableType::String(_) => (
                        Ok(
                            seq![IMP::Stack(StackOperations::PushNumber(off as i32))]
                                + spec_print_string_loop(st.label),
                        ),
                        StateModel { heap: st.heap, cursor: st.cursor, label: st.label + 2 },
                    ),
                    _ => (Err(LoweringError::UnsupportedType), st),
                },
            },
            Expression::BinaryOp { .. } => match spec_lower_expr(args[0], st.heap) {
                Err(e) => (Err(e), st),
                Ok(code) => (
                    Ok(code + seq![IMP::IO(IOOperations::PrintAsNumber)]),
                    st,
                ),
            },
            _ => (Err(LoweringError::UnsupportedExpression), st),
        }
    }
}

/// What `read` lowers to, and the state it leaves: the target must be a
/// bare variable; an integer is read as a number, a string through the
/// runtime loop, which consumes two fresh labels.
pub open spec fn spec_lower_read(args: Seq<Expression>, st: StateModel) -> (Result<
    Seq<IMP>,
    LoweringError,
>, StateModel) {
    if args.len() < 1 {
        (Err(LoweringError::UnsupportedArgument), st)
    } else {
        match args[0] {
            Expression::Variable(name) => match spec_lookup(st.heap, name@) {
                Option::None => (Err(LoweringError::UndeclaredVariable), st),
                Option::Some((off, ty)) => match ty {
                    VariableType::Int => (
                        Ok(
                            seq![
                                IMP::Stack(StackOperations::PushNumber(off as i32)),
                                IMP::IO(IOOperations::ReadAsNumber),
                            ],
                        ),
                        st,
                    ),
                    VariableType::String(_) => (
                        Ok(
                            seq![IMP::Stack(StackOperations::PushNumber(off as i32))]
                                + spec_read_string_loop(st.label),
                        ),
                        StateModel { heap: st.heap, cursor: st.cursor, label: st.label + 2 },
                    ),
                    _ => (Err(LoweringError::UnsupportedType), st),
                },
            },
            _ => (Err(LoweringError::UnsupportedArgument), st),
        }
    }
}

/// Lowers a `read` call; on success the runtime instructions are appended
/// to `out` and the consumed labels are recorded in the state.
pub fn read(state: &mut State, args: &Vec<Expression>, out: &mut Vec<IMP>) -> (r: Result<
    (),
    LoweringError,
>)
    requires
        old(state).wf(),
        old(state).model().label + 2 <= i32::MAX,
    ensures
        final(state).wf(),
        final(state).model() == spec_lower_read(args@, old(state).model()).1,
        final(state).model().heap == old(state).model().heap,
        final(state).model().cursor == old(state).model().cursor,
        old(state).model().label <= final(state).model().label <= old(state).model().label + 2,
        match r {
            Ok(_) => spec_lower_read(args@, old(state).model()).0 is Ok && final(out)@ == old(out)@
                + spec_lower_read(args@, old(state).model()).0->Ok_0,
            Err(e) => spec_lower_read(args@, old(state).model()).0 == Err::<
                Seq<IMP>,
                LoweringError,
            >(e) && final(out)@ == old(out)@,
        },
        all_instrs_ok(old(out)@) ==> all_instrs_ok(final(out)@),
{
    if args.len() < 1 {
        return Err(LoweringError::UnsupportedArgument);
    }
    let target = &args[0];
    match target {
        Expression::Variable(name) => {
            let found = state.heap_allocation_map.get(name);
            match found {
                Option::None => Err(LoweringError::UndeclaredVariable),
                Option::Some(variable) => {
                    let type_ = variable.type_();
                    let addr = variable.offset();
                    proof {
                        crate::transpiler::state::lemma_lookup_in_wf(
                            old(state).model().heap,
                            old(state).model().cursor,
                            name@,
                        );
                    }
                    match type_ {
                        VariableType::Int => {
                            let ghost base = out@;
                            out.push(IMP::Stack(StackOperations::PushNumber(addr)));
                            out.push(IMP::IO(IOOperations::ReadAsNumber));
                            proof {
                                assert(out@ =~= base + spec_lower_read(
                                    args@,
                                    old(state).model(),
                                ).0->Ok_0);
                                lemma_ok_extends(base, out@);
                            }
                            Ok(())
                        },
                        VariableType::String(_) => {
                            let read_loop_start_label = state.get_label();
                            let read_loop_end_label = state.get_label();
                            let ghost base = out@;
                            out.push(IMP::Stack(StackOperations::PushNumber(addr)));
                            out.push(
                                IMP::FlowControl(
                                    FlowControlOperations::SetLabel(read_loop_start_label),
                                ),
                            );
                            out.push(IMP::Stack(StackOperations::Duplicate));
                            out.push(IMP::Stack(StackOperations::Duplicate));
                            out.push(IMP::IO(IOOperations::ReadAsChar));
                            out.push(IMP::Heap(HeapOperations::Retrieve));
                            out.push(IMP::Stack(StackOperations::PushNumber(10)));
                            out.push(IMP::Arithmetic(ArithmeticOperations::Subtract));
                            out.push(
                                IMP::FlowControl(
                                    FlowControlOperations::JumpIfZero(read_loop_end_label),
                                ),
                            );
                            out.push(IMP::Stack(StackOperations::PushNumber(1)));
                            out.push(IMP::Arithmetic(ArithmeticOperations::Add));
                            out.push(
                                IMP::FlowControl(
                                    FlowControlOperations::Jump(read_loop_start_label),
                                ),
                            );
                            out.push(
                                IMP::FlowControl(
                                    FlowControlOperations::SetLabel(read_loop_end_label),
                                ),
                            );
                            out.push(IMP::Stack(StackOperations::PushNumber(0)));
                            out.push(IMP::Heap(HeapOperations::Store));
                            proof {
                                assert(out@ =~= base + spec_lower_read(
                                    args@,
                                    old(state).model(),
                                ).0->Ok_0);
                                lemma_ok_extends(base, out@);
                            }
                            Ok(())
                        },
                        _ => Err(LoweringError::UnsupportedType),
                    }
                },
            }
        },
        _ => Err(LoweringError::UnsupportedArgument),
    }
}

/// When every instruction of a prefix is renderable and so is everything
/// after it, the whole sequence is renderable.
proof fn lemma_ok_extends(base: Seq<IMP>, whole: Seq<IMP>)
    requires
        base.len() <= whole.len(),
        forall|i: int| 0 <= i < base.len() ==> whole[i] == base[i],
        forall|i: int| base.len() <= i < whole.len() ==> instr_ok(#[trigger] whole[i]),
    ensures
        all_instrs_ok(base) ==> all_instrs_ok(whole),
{
}

/// Lowers a `print` call; on success the instructions are appended to
/// `out` and any consumed labels are recorded in the state.
pub fn print(state: &mut State, args: &Vec<Expression>, out: &mut Vec<IMP>) -> (r: Result<
    (),
    LoweringError,
>)
    requires
        old(state).wf(),
        old(state).model().label + 2 <= i32::MAX,
    ensures
        final(state).wf(),
        final(state).model() == spec_lower_print(args@, old(state).model()).1,
        final(state).model().heap == old(state).model().heap,
        final(state).model().cursor == old(state).model().cursor,
        old(state).model().label <= final(state).model().label <= old(state).model().label + 2,
        match r {
            Ok(_) => spec_lower_print(args@, old(state).model()).0 is Ok && final(out)@ == old(
                out,
            )@ + spec_lower_print(args@, old(state).model()).0->Ok_0,
            Err(e) => spec_lower_print(args@, old(state).model()).0 == Err::<
                Seq<IMP>,
                LoweringError,
            >(e) && final(out)@ == old(out)@,
        },
        all_instrs_ok(old(out)@) && (args@.len() >= 1 ==> crate::transpiler::emitter::expr_operands_ok(args@[0])) ==> all_instrs_ok(final(out)@),
{
    if args.len() < 1 {
        return Err(LoweringError::UnsupportedArgument);
    }
    let expression = &args[0];
    match expression {
        Expression::Literal(value) => {
            let ghost base = out@;
            let text = value.as_str();
            let n = text.unicode_len();
            let mut i: usize = 0;
            assert(text@.take(0) =~= Seq::<char>::empty());
            while i < n
                invariant
                    0 <= i <= n,
                    n == text@.len(),
                    out@ == base + spec_print_literal(text@.take(i as int)),
                    forall|j: int|
                        base.len() <= j < out@.len() ==> instr_ok(#[trigger] out@[j]),
                    forall|j: int| 0 <= j < base.len() ==> out@[j] == base[j],
                decreases n - i,
            {
                let c = text.get_char(i);
                out.push(IMP::Stack(StackOperations::PushNumber(c as i32)));
                out.push(IMP::IO(IOOperations::PrintAsChar));
                proof {
                    let pre = text@.take(i + 1 as int);
                    assert(pre.drop_last() =~= text@.take(i as int));
                    assert(pre.last() == text@[i as int]);
                    assert(out@ =~= base + spec_print_literal(pre));
                }
                i = i + 1;
            }
            proof {
                assert(text@.take(n as int) =~= text@);
                lemma_ok_extends(base, out@);
            }
            Ok(())
        },
        Expression::Integer(value) => {
            let ghost base = out@;
            out.push(IMP::Stack(StackOperations::PushNumber(*value)));
            out.push(IMP::IO(IOOperations::PrintAsNumber));
            proof {
                assert(out@ =~= base + spec_lower_print(args@, old(state).model()).0->Ok_0);
                if all_instrs_ok(base) && crate::transpiler::emitter::expr_operands_ok(args@[0]) {
                    assert forall|j: int| 0 <= j < out@.len() implies instr_ok(
                        #[trigger] out@[j],
                    ) by {
                        if j < base.len() {
                            assert(out@[j] == base[j]);
                        }
                    }
                }
            }
            Ok(())
        },
        Expression::Variable(name) => {
            let found = state.heap_allocation_map.get(name);
            match found {
                Option::None => Err(LoweringError::UndeclaredVariable),
                Option::Some(variable) => {
                    let type_ = variable.type_();
                    let offset = variable.offset();
                    proof {
                        crate::transpiler::state::lemma_lookup_in_wf(
                            old(state).model().heap,
                            old(state).model().cursor,
                            name@,
                        );
                    }
                    match type_ {
                        VariableType::Int => {
                            let ghost base = out@;
                            out.push(IMP::Stack(StackOperations::PushNumber(offset)));
                            out.push(IMP::Heap(HeapOperations::Retrieve));
                            out.push(IMP::IO(IOOperations::PrintAsNumber));
                            proof {
                                assert(out@ =~= base + spec_lower_print(
                                    args@,
                                    old(state).model(),
                                ).0->Ok_0);
                                lemma_ok_extends(base, out@);
                            }
                            Ok(())
                        },
                        VariableType::String(_) => {
                            let print_loop_start_label = state.get_label();
                            let print_loop_end_label = state.get_label();
                            let ghost base = out@;
                            out.push(IMP::Stack(StackOperations::PushNumber(offset)));
                            out.push(
                                IMP::FlowControl(
                                    FlowControlOperations::SetLabel(print_loop_start_label),
                                ),
                            );
                            out.push(IMP::Stack(StackOperations::Duplicate));
                            out.push(IMP::Stack(StackOperations::Duplicate));
                            out.push(IMP::Heap(HeapOperations::Retrieve));
                            out.push(
                                IMP::FlowControl(
                                    FlowControlOperations::JumpIfZero(print_loop_end_label),
                                ),
                            );
                            out.push(IMP::Heap(HeapOperations::Retrieve));
                            out.push(IMP::IO(IOOperations::PrintAsChar));
                            out.push(IMP::Stack(StackOperations::PushNumber(1)));
                            out.push(IMP::Arithmetic(ArithmeticOperations::Add));
                            out.push(
                                IMP::FlowControl(
                                    FlowControlOperations::Jump(print_loop_start_label),
                                ),
                            );
                            out.push(
                                IMP::FlowControl(
                                    FlowControlOperations::SetLabel(print_loop_end_label),
                                ),
                            );
                            out.push(IMP::Stack(StackOperations::Discard));
                            proof {
                                assert(out@ =~= base + spec_lower_print(
                                    args@,
                                    old(state).model(),
                                ).0->Ok_0);
                                lemma_ok_extends(base, out@);
                            }
                            Ok(())
                        },
                        _ => Err(LoweringError::UnsupportedType),
                    }
                },
            }
        },
        Expression::BinaryOp { .. } => {
            let mut emitter = CodeEmitter {};
            let evaluated = emitter.evaluate_expression(expression, &state.heap_allocation_map);
            match evaluated {
                Err(e) => Err(e),
                Ok((mut code, _t, _sz)) => {
                    let ghost base = out@;
                    let ghost expr_code = code@;
                    out.append(&mut code);
                    out.push(IMP::IO(IOOperations::PrintAsNumber));
                    proof {
                        assert(out@ =~= base + (expr_code + seq![
                            IMP::IO(IOOperations::PrintAsNumber),
                        ]));
                        if all_instrs_ok(base) && crate::transpiler::emitter::expr_operands_ok(
                            args@[0],
                        ) {
                            crate::transpiler::state::lemma_view_offsets_bounded(
                                old(state).heap_allocation_map,
                            );
                            crate::transpiler::emitter::lemma_expr_code_shape(
                                args@[0],
                                old(state).model().heap,
                                old(state).model().cursor,
                            );
                            assert(all_instrs_ok(out@));
                        }
                    }
                    Ok(())
                },
            }
        },
        _ => Err(LoweringError::UnsupportedExpression),
    }
}

} // verus!
