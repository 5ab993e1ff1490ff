//! Properties of the lowering that hold for every program: which labels a
//! piece of lowered code can mention, and the exact label and jump
//! discipline of a while-loop.

use vstd::prelude::*;
use crate::ast::Expression;
use crate::ast::Statement;
use crate::specs::whitespace::FlowControlOperations;
use crate::specs::whitespace::IMP;
use crate::transpiler::bi_io::spec_lower_print;
use crate::transpiler::bi_io::spec_lower_read;
use crate::transpiler::bi_io::spec_print_literal;
use crate::transpiler::bi_string::spec_lower_concat;
use crate::transpiler::emitter::spec_lower_expr;
use crate::transpiler::spec_literal_stores;
use crate::transpiler::spec_lower_assign;
use crate::transpiler::spec_lower_guard;
use crate::transpiler::spec_lower_stmt;
use crate::transpiler::spec_lower_stmts;
use crate::transpiler::spec_lower_while;
use crate::transpiler::state::AllocEntry;
use crate::transpiler::state::StateModel;

verus! {

/// The label an instruction mentions, if any.
pub open spec fn flow_label(i: IMP) -> Option<int> {
    match i {
        IMP::FlowControl(f) => match f {
            FlowControlOperations::SetLabel(l) => Some(l as int),
            FlowControlOperations::Jump(l) => Some(l as int),
            FlowControlOperations::JumpIfZero(l) => Some(l as int),
            FlowControlOperations::JumpIfNegative(l) => Some(l as int),
            FlowControlOperations::Exit => None,
        },
        _ => None,
    }
}

/// Every label the code mentions lies in `[lo, hi)`.
pub open spec fn labels_within(code: Seq<IMP>, lo: int, hi: int) -> bool {
    forall|i: int|
        0 <= i < code.len() ==> match flow_label(#[trigger] code[i]) {
            Some(l) => lo <= l < hi,
            None => true,
        }
}

/// The code holds no flow control at all.
pub open spec fn no_flow(code: Seq<IMP>) -> bool {
    forall|i: int| 0 <= i < code.len() ==> !(#[trigger] code[i] is FlowControl)
}

/// How often the code jumps unconditionally to label `l`.
pub open spec fn count_jumps_to(code: Seq<IMP>, l: int) -> int
    decreases code.len(),
{
    if code.len() == 0 {
        0
    } else {
        count_jumps_to(code.drop_last(), l) + (if code.last() matches IMP::FlowControl(
            FlowControlOperations::Jump(x),
        ) && x as int == l {
            1int
        } else {
            0int
        })
    }
}

/// How often the code places label `l`.
pub open spec fn count_labels_set(code: Seq<IMP>, l: int) -> int
    decreases code.len(),
{
    if code.len() == 0 {
        0
    } else {
        count_labels_set(code.drop_last(), l) + (if code.last() matches IMP::FlowControl(
            FlowControlOperations::SetLabel(x),
        ) && x as int == l {
            1int
        } else {
            0int
        })
    }
}

/// Counting one appended instruction.
pub proof fn lemma_counts_unit(a: Seq<IMP>, x: IMP, l: int)
    ensures
        count_jumps_to(a.push(x), l) == count_jumps_to(a, l) + (if x matches IMP::FlowControl(
            FlowControlOperations::Jump(t),
        ) && t as int == l {
            1int
        } else {
            0int
        }),
        count_labels_set(a.push(x), l) == count_labels_set(a, l) + (if x
            matches IMP::FlowControl(FlowControlOperations::SetLabel(t)) && t as int == l {
            1int
        } else {
            0int
        }),
{
    assert(a.push(x).drop_last() =~= a);
    assert(a.push(x).last() == x);
}

/// The jump and label counts of the three fixed pieces of a lowered
/// while-loop: its head label, the guard's exit pair, and the body's
/// closing pair.
proof fn lemma_fixed_chunk_counts(l0: int, l: int)
    requires
        0 <= l0,
        l0 + 2 <= i32::MAX,
    ensures
        count_labels_set(seq![IMP::FlowControl(FlowControlOperations::SetLabel(l0 as i32))], l)
            == if l == l0 {
            1int
        } else {
            0int
        },
        count_jumps_to(seq![IMP::FlowControl(FlowControlOperations::SetLabel(l0 as i32))], l) == 0,
        count_jumps_to(
            seq![
                IMP::FlowControl(FlowControlOperations::Jump((l0 + 2) as i32)),
                IMP::FlowControl(FlowControlOperations::SetLabel((l0 + 1) as i32)),
            ],
            l,
        ) == if l == l0 + 2 {
            1int
        } else {
            0int
        },
        count_labels_set(
            seq![
                IMP::FlowControl(FlowControlOperations::Jump((l0 + 2) as i32)),
                IMP::FlowControl(FlowControlOperations::SetLabel((l0 + 1) as i32)),
            ],
            l,
        ) == if l == l0 + 1 {
            1int
        } else {
            0int
        },
        count_jumps_to(
            seq![
                IMP::FlowControl(FlowControlOperations::Jump(l0 as i32)),
                IMP::FlowControl(FlowControlOperations::SetLabel((l0 + 2) as i32)),
            ],
            l,
        ) == if l == l0 {
            1int
        } else {
            0int
        },
        count_labels_set(
            seq![
                IMP::FlowControl(FlowControlOperations::Jump(l0 as i32)),
                IMP::FlowControl(FlowControlOperations::SetLabel((l0 + 2) as i32)),
            ],
            l,
        ) == if l == l0 + 2 {
            1int
        } else {
            0int
        },
{
    let e = Seq::<IMP>::empty();
    let s0 = IMP::FlowControl(FlowControlOperations::SetLabel(l0 as i32));
    let s1 = IMP::FlowControl(FlowControlOperations::SetLabel((l0 + 1) as i32));
    let s2 = IMP::FlowControl(FlowControlOperations::SetLabel((l0 + 2) as i32));
    let j0 = IMP::FlowControl(FlowControlOperations::Jump(l0 as i32));
    let j2 = IMP::FlowControl(FlowControlOperations::Jump((l0 + 2) as i32));
    assert(count_jumps_to(e, l) == 0);
    assert(count_labels_set(e, l) == 0);
    lemma_counts_unit(e, s0, l);
    assert(seq![s0] =~= e.push(s0));
    lemma_counts_unit(e, j2, l);
    lemma_counts_unit(e.push(j2), s1, l);
    assert(seq![j2, s1] =~= e.push(j2).push(s1));
    lemma_counts_unit(e, j0, l);
    lemma_counts_unit(e.push(j0), s2, l);
    assert(seq![j0, s2] =~= e.push(j0).push(s2));
}

/// Counting distributes over concatenation.
pub proof fn lemma_counts_concat(a: Seq<IMP>, b: Seq<IMP>, l: int)
    ensures
        count_jumps_to(a + b, l) == count_jumps_to(a, l) + count_jumps_to(b, l),
        count_labels_set(a + b, l) == count_labels_set(a, l) + count_labels_set(b, l),
    decreases b.len(),
{
    if b.len() == 0 {
        assert(a + b =~= a);
    } else {
        lemma_counts_concat(a, b.drop_last(), l);
        assert((a + b).drop_last() =~= a + b.drop_last());
        assert((a + b).last() == b.last());
    }
}

/// Code whose labels all lie in `[lo, hi)` neither jumps to nor places a
/// label outside that range.
pub proof fn lemma_counts_zero_outside(code: Seq<IMP>, lo: int, hi: int, l: int)
    requires
        labels_within(code, lo, hi),
        l < lo || hi <= l,
    ensures
        count_jumps_to(code, l) == 0,
        count_labels_set(code, l) == 0,
    decreases code.len(),
{
    if code.len() > 0 {
        assert(labels_within(code.drop_last(), lo, hi)) by {
            assert forall|i: int| 0 <= i < code.drop_last().len() implies match flow_label(
                #[trigger] code.drop_last()[i],
            ) {
                Some(x) => lo <= x < hi,
                None => true,
            } by {
                assert(code.drop_last()[i] == code[i]);
            }
        }
        lemma_counts_zero_outside(code.drop_last(), lo, hi, l);
        assert(code.last() == code[code.len() - 1]);
    }
}

/// Lowered expression code holds no flow control.
pub proof fn lemma_expr_no_flow(e: Expression, heap: Seq<AllocEntry>)
    requires
        spec_lower_expr(e, heap) is Ok,
    ensures
        no_flow(spec_lower_expr(e, heap)->Ok_0),
    decreases e,
{
    match e {
        Expression::BinaryOp { operator, left, right } => {
            lemma_expr_no_flow(*left, heap);
            lemma_expr_no_flow(*right, heap);
        },
        _ => {},
    }
}

/// The unrolled store of a string literal holds no flow control.
pub proof fn lemma_literal_stores_no_flow(text: Seq<char>, addr: int)
    ensures
        no_flow(spec_literal_stores(text, addr)),
    decreases text.len(),
{
    if text.len() > 0 {
        lemma_literal_stores_no_flow(text.drop_last(), addr);
    }
}

/// The unrolled printing of a string literal holds no flow control.
pub proof fn lemma_print_literal_no_flow(text: Seq<char>)
    ensures
        no_flow(spec_print_literal(text)),
    decreases text.len(),
{
    if text.len() > 0 {
        lemma_print_literal_no_flow(text.drop_last());
    }
}

/// Lowering never lowers the label counter, and every label that the
/// lowered code of one statement mentions was taken from the counter
/// while that statement was lowered: it lies between the counter's value
/// before and its value after.
pub proof fn lemma_stmt_labels(s: Statement, st: StateModel)
    requires
        0 <= st.label,
    ensures
        st.label <= spec_lower_stmt(s, st).1.label,
        spec_lower_stmt(s, st).0 is Ok && spec_lower_stmt(s, st).1.label <= i32::MAX
            ==> labels_within(spec_lower_stmt(s, st).0->Ok_0, st.label, spec_lower_stmt(s, st).1.label),
    decreases s,
{
    let res = spec_lower_stmt(s, st);
    match s {
        Statement::IntDeclaration(_) => {},
        Statement::StringDeclaration(_, _) => {},
        Statement::Assignment(name, value) => {
            if res.0 is Ok {
                lemma_assign_no_flow(name@, value, st.heap);
            }
        },
        Statement::Exit => {},
        Statement::Call(name, args) => {
            lemma_call_labels(name@, args@, st);
        },
        Statement::WhileLoop { condition, body } => {
            lemma_while_labels(*condition, *body, st);
        },
        Statement::Block(statements) => {
            lemma_stmts_labels(statements@, 0, st);
        },
    }
}

/// Lowered assignment code holds no flow control.
pub proof fn lemma_assign_no_flow(name: Seq<char>, value: Expression, heap: Seq<AllocEntry>)
    requires
        spec_lower_assign(name, value, heap) is Ok,
    ensures
        no_flow(spec_lower_assign(name, value, heap)->Ok_0),
{
    match value {
        Expression::Literal(text) => {
            lemma_literal_stores_no_flow(text@, crate::transpiler::state::spec_lookup(heap, name)->Some_0.0);
        },
        Expression::BinaryOp { .. } => {
            lemma_expr_no_flow(value, heap);
        },
        _ => {},
    }
}

/// Labels in lowered built-in code lie between the counter's values
/// before and after the call.
pub proof fn lemma_call_labels(name: Seq<char>, args: Seq<Expression>, st: StateModel)
    requires
        0 <= st.label,
    ensures
        ({
            let res = if name == "read"@ {
                spec_lower_read(args, st)
            } else if name == "concat"@ {
                spec_lower_concat(args, st)
            } else if name == "print"@ {
                spec_lower_print(args, st)
            } else {
                (Err(crate::transpiler::LoweringError::UnknownBuiltin), st)
            };
            &&& st.label <= res.1.label
            &&& (res.0 is Ok && res.1.label <= i32::MAX ==> labels_within(
                res.0->Ok_0,
                st.label,
                res.1.label,
            ))
        }),
{
    if name == "print"@ {
        let res = spec_lower_print(args, st);
        if res.0 is Ok && res.1.label <= i32::MAX {
            if args.len() >= 1 {
                match args[0] {
                    Expression::Literal(text) => {
                        lemma_print_literal_no_flow(text@);
                    },
                    Expression::BinaryOp { .. } => {
                        lemma_expr_no_flow(args[0], st.heap);
                        assert forall|i: int| 0 <= i < res.0->Ok_0.len() implies match flow_label(
                            #[trigger] res.0->Ok_0[i],
                        ) {
                            Some(l) => st.label <= l < res.1.label,
                            None => true,
                        } by {
                            if i < spec_lower_expr(args[0], st.heap)->Ok_0.len() {
                                assert(res.0->Ok_0[i] == spec_lower_expr(args[0], st.heap)->Ok_0[i]);
                            }
                        }
                    },
                    _ => {},
                }
            }
        }
    }
}

/// Labels in a lowered while-loop lie between the counter's values before
/// and after it.
pub proof fn lemma_while_labels(condition: Expression, body: Statement, st: StateModel)
    requires
        0 <= st.label,
    ensures
        st.label <= spec_lower_while(condition, body, st).1.label,
        spec_lower_while(condition, body, st).0 is Ok && spec_lower_while(
            condition,
            body,
            st,
        ).1.label <= i32::MAX ==> labels_within(
            spec_lower_while(condition, body, st).0->Ok_0,
            st.label,
            spec_lower_while(condition, body, st).1.label,
        ),
    decreases body,
{
    let res = spec_lower_while(condition, body, st);
    let st1 = StateModel { heap: st.heap, cursor: st.cursor, label: st.label + 3 };
    match spec_lower_guard(condition, st.heap, st.label + 1) {
        Err(_) => {},
        Ok(guard) => match body {
            Statement::Block(statements) => {
                lemma_stmts_labels(statements@, 0, st1);
                let inner = spec_lower_stmts(statements@, 0, st1);
                if res.0 is Ok && res.1.label <= i32::MAX {
                    lemma_guard_labels(condition, st.heap, st.label + 1);
                    let body_code = inner.0->Ok_0;
                    let code = res.0->Ok_0;
                    assert(code =~= seq![
                        IMP::FlowControl(FlowControlOperations::SetLabel(st.label as i32)),
                    ] + guard + seq![
                        IMP::FlowControl(FlowControlOperations::Jump((st.label + 2) as i32)),
                        IMP::FlowControl(FlowControlOperations::SetLabel((st.label + 1) as i32)),
                    ] + body_code + seq![
                        IMP::FlowControl(FlowControlOperations::Jump(st.label as i32)),
                        IMP::FlowControl(FlowControlOperations::SetLabel((st.label + 2) as i32)),
                    ]);
                    assert forall|i: int| 0 <= i < code.len() implies match flow_label(
                        #[trigger] code[i],
                    ) {
                        Some(l) => st.label <= l < res.1.label,
                        None => true,
                    } by {
                        if 1 <= i < 1 + guard.len() {
                            assert(code[i] == guard[i - 1]);
                        } else if 3 + guard.len() <= i < 3 + guard.len() + body_code.len() {
                            assert(code[i] == body_code[i - 3 - guard.len()]);
                        }
                    }
                }
            },
            _ => {},
        },
    }
}

/// Labels in lowered guard code are only its conditional entry into the
/// loop body.
pub proof fn lemma_guard_labels(cond: Expression, heap: Seq<AllocEntry>, body_label: int)
    requires
        spec_lower_guard(cond, heap, body_label) is Ok,
        0 <= body_label <= i32::MAX,
    ensures
        ({
            let guard = spec_lower_guard(cond, heap, body_label)->Ok_0;
            forall|i: int|
                0 <= i < guard.len() ==> match flow_label(#[trigger] guard[i]) {
                    Some(l) => l == body_label,
                    None => true,
                }
        }),
        ({
            let guard = spec_lower_guard(cond, heap, body_label)->Ok_0;
            forall|i: int|
                0 <= i < guard.len() ==> !(#[trigger] guard[i] matches IMP::FlowControl(
                    FlowControlOperations::Jump(_),
                )) && !(guard[i] matches IMP::FlowControl(FlowControlOperations::SetLabel(_)))
        }),
{
    match cond {
        Expression::BinaryOp { operator, left, right } => {
            let lc = spec_lower_expr(*left, heap)->Ok_0;
            let rc = spec_lower_expr(*right, heap)->Ok_0;
            lemma_expr_no_flow(*left, heap);
            lemma_expr_no_flow(*right, heap);
            let guard = spec_lower_guard(cond, heap, body_label)->Ok_0;
            assert forall|i: int| 0 <= i < guard.len() implies (match flow_label(
                #[trigger] guard[i],
            ) {
                Some(l) => l == body_label,
                None => true,
            }) && !(guard[i] matches IMP::FlowControl(FlowControlOperations::Jump(_))) && !(guard[i]
                matches IMP::FlowControl(FlowControlOperations::SetLabel(_))) by {
                if i < lc.len() {
                    assert(guard[i] == lc[i]);
                } else if i < lc.len() + rc.len() {
                    assert(guard[i] == rc[i - lc.len()]);
                }
            }
        },
        _ => {},
    }
}

/// Labels in the lowered code of a statement span lie between the
/// counter's values before and after the span.
pub proof fn lemma_stmts_labels(ss: Seq<Statement>, i: int, st: StateModel)
    requires
        0 <= st.label,
    ensures
        st.label <= spec_lower_stmts(ss, i, st).1.label,
        spec_lower_stmts(ss, i, st).0 is Ok && spec_lower_stmts(ss, i, st).1.label <= i32::MAX
            ==> labels_within(
            spec_lower_stmts(ss, i, st).0->Ok_0,
            st.label,
            spec_lower_stmts(ss, i, st).1.label,
        ),
    decreases ss, ss.len() - i,
{
    if 0 <= i < ss.len() {
        let head = spec_lower_stmt(ss[i], st);
        lemma_stmt_labels(ss[i], st);
        match head.0 {
            Err(_) => {},
            Ok(code0) => {
                lemma_stmts_labels(ss, i + 1, head.1);
                let rest = spec_lower_stmts(ss, i + 1, head.1);
                if rest.0 is Ok && rest.1.label <= i32::MAX {
                    let code1 = rest.0->Ok_0;
                    let whole = spec_lower_stmts(ss, i, st).0->Ok_0;
                    assert(whole =~= code0 + code1);
                    assert forall|k: int| 0 <= k < whole.len() implies match flow_label(
                        #[trigger] whole[k],
                    ) {
                        Some(l) => st.label <= l < spec_lower_stmts(ss, i, st).1.label,
                        None => true,
                    } by {
                        if k < code0.len() {
                            assert(whole[k] == code0[k]);
                        } else {
                            assert(whole[k] == code1[k - code0.len()]);
                        }
                    }
                }
            },
        }
    }
}

/// A while-loop's lowering introduces exactly three labels, all fresh and
/// distinct: the guard's head, the body's head and the loop's end.  The
/// whole lowering jumps unconditionally to the end label exactly once,
/// from the guard, and back to the guard's head exactly once, as the last
/// instruction of the body; the code starts by placing the head label and
/// ends by placing the end label.
pub proof fn lemma_while_loop_label_discipline(
    condition: Expression,
    body: Statement,
    st: StateModel,
)
    requires
        0 <= st.label,
        spec_lower_while(condition, body, st).0 is Ok,
        spec_lower_while(condition, body, st).1.label <= i32::MAX,
    ensures
        ({
            let code = spec_lower_while(condition, body, st).0->Ok_0;
            let l0 = st.label;
            &&& count_labels_set(code, l0) == 1
            &&& count_labels_set(code, l0 + 1) == 1
            &&& count_labels_set(code, l0 + 2) == 1
            &&& count_jumps_to(code, l0 + 2) == 1
            &&& count_jumps_to(code, l0) == 1
            &&& code.len() >= 2
            &&& code[0] == IMP::FlowControl(FlowControlOperations::SetLabel(l0 as i32))
            &&& code.last() == IMP::FlowControl(FlowControlOperations::SetLabel((l0 + 2) as i32))
            &&& code[code.len() - 2] == IMP::FlowControl(FlowControlOperations::Jump(l0 as i32))
        }),
{
    let res = spec_lower_while(condition, body, st);
    let st1 = StateModel { heap: st.heap, cursor: st.cursor, label: st.label + 3 };
    let l0 = st.label;
    let guard = spec_lower_guard(condition, st.heap, l0 + 1)->Ok_0;
    let statements = body->Block_0;
    let inner = spec_lower_stmts(statements@, 0, st1);
    let body_code = inner.0->Ok_0;
    let code = res.0->Ok_0;
    let head: Seq<IMP> = seq![IMP::FlowControl(FlowControlOperations::SetLabel(l0 as i32))];
    let mid: Seq<IMP> = seq![
        IMP::FlowControl(FlowControlOperations::Jump((l0 + 2) as i32)),
        IMP::FlowControl(FlowControlOperations::SetLabel((l0 + 1) as i32)),
    ];
    let tail: Seq<IMP> = seq![
        IMP::FlowControl(FlowControlOperations::Jump(l0 as i32)),
        IMP::FlowControl(FlowControlOperations::SetLabel((l0 + 2) as i32)),
    ];
    assert(spec_lower_guard(condition, st.heap, l0 + 1) is Ok);
    assert(body matches Statement::Block(_));
    assert(inner.0 is Ok);
    lemma_stmts_labels(statements@, 0, st1);
    assert(st1.label <= inner.1.label);
    assert(inner.1.label == res.1.label);
    assert(code =~= head + guard + mid + body_code + tail);
    lemma_guard_labels(condition, st.heap, l0 + 1);
    lemma_guard_counts(guard, l0);
    lemma_guard_counts(guard, l0 + 1);
    lemma_guard_counts(guard, l0 + 2);
    lemma_fixed_chunk_counts(l0, l0);
    lemma_fixed_chunk_counts(l0, l0 + 1);
    lemma_fixed_chunk_counts(l0, l0 + 2);
    lemma_counts_zero_outside(body_code, st.label + 3, inner.1.label, l0);
    lemma_counts_zero_outside(body_code, st.label + 3, inner.1.label, l0 + 1);
    lemma_counts_zero_outside(body_code, st.label + 3, inner.1.label, l0 + 2);
    lemma_counts_chunks(head, guard, mid, body_code, tail, l0);
    lemma_counts_chunks(head, guard, mid, body_code, tail, l0 + 1);
    lemma_counts_chunks(head, guard, mid, body_code, tail, l0 + 2);
}

/// Counting over the five chunks of a lowered while-loop.
proof fn lemma_counts_chunks(a: Seq<IMP>, b: Seq<IMP>, c: Seq<IMP>, d: Seq<IMP>, e: Seq<IMP>, l: int)
    ensures
        count_jumps_to(a + b + c + d + e, l) == count_jumps_to(a, l) + count_jumps_to(b, l)
            + count_jumps_to(c, l) + count_jumps_to(d, l) + count_jumps_to(e, l),
        count_labels_set(a + b + c + d + e, l) == count_labels_set(a, l) + count_labels_set(b, l)
            + count_labels_set(c, l) + count_labels_set(d, l) + count_labels_set(e, l),
{
    lemma_counts_concat(a + b + c + d, e, l);
    lemma_counts_concat(a + b + c, d, l);
    lemma_counts_concat(a + b, c, l);
    lemma_counts_concat(a, b, l);
}

/// A guard neither jumps unconditionally nor places any label.
proof fn lemma_guard_counts(guard: Seq<IMP>, l: int)
    requires
        forall|i: int|
            0 <= i < guard.len() ==> !(#[trigger] guard[i] matches IMP::FlowControl(
                FlowControlOperations::Jump(_),
            )) && !(guard[i] matches IMP::FlowControl(FlowControlOperations::SetLabel(_))),
    ensures
        count_jumps_to(guard, l) == 0,
        count_labels_set(guard, l) == 0,
    decreases guard.len(),
{
    if guard.len() > 0 {
        assert forall|i: int| 0 <= i < guard.drop_last().len() implies !(
        #[trigger] guard.drop_last()[i] matches IMP::FlowControl(FlowControlOperations::Jump(_)))
            && !(guard.drop_last()[i] matches IMP::FlowControl(
            FlowControlOperations::SetLabel(_),
        )) by {
            assert(guard.drop_last()[i] == guard[i]);
        }
        lemma_guard_counts(guard.drop_last(), l);
        assert(guard.last() == guard[guard.len() - 1]);
    }
}

} // verus!
