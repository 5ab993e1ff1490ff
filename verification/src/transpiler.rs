//! The lowering driver: walks a statement list, threads the compilation
//! state through every step, and produces the canonical instruction list
//! from which both output streams are derived.

pub mod bi_io;
pub mod bi_string;
pub mod debug;
pub mod emitter;
pub mod laws;
pub mod state;

use vstd::prelude::*;
use vstd::string::*;
use crate::ast::Expression;
use crate::ast::Operation;
use crate::ast::Statement;
use crate::specs::whitespace::all_instrs_ok;
use crate::specs::whitespace::instr_ok;
use crate::specs::whitespace::spec_code_all;
use crate::specs::whitespace::spec_debug_all;
use crate::specs::whitespace::ArithmeticOperations;
use crate::specs::whitespace::FlowControlOperations;
use crate::specs::whitespace::HeapOperations;
use crate::specs::whitespace::StackOperations;
use crate::specs::whitespace::IMP;
use crate::transpiler::bi_io::spec_lower_print;
use crate::transpiler::bi_io::spec_lower_read;
use crate::transpiler::bi_string::spec_lower_concat;
use crate::transpiler::emitter::expr_operands_ok;
use crate::transpiler::emitter::lemma_expr_code_shape;
use crate::transpiler::emitter::spec_lower_expr;
use crate::transpiler::emitter::CodeEmitter;
use crate::transpiler::state::lemma_lookup_in_wf;
use crate::transpiler::state::lemma_view_offsets_bounded;
use crate::transpiler::state::spec_lookup;
use crate::transpiler::state::spec_size;
use crate::transpiler::state::AllocEntry;
use crate::transpiler::state::HeapAllocation;
use crate::transpiler::state::State;
use crate::transpiler::state::StateModel;
use crate::util::str_eq;

verus! {

/// The two derived output streams: the machine text and the mnemonic
/// trace.  Both are always appended together, so they describe the same
/// instruction sequence.
pub struct CodeOutput {
    pub code: String,
    pub debug_code: String,
}

impl CodeOutput {
    pub fn new() -> (r: CodeOutput)
        ensures
            r.code@ == Seq::<char>::empty(),
            r.debug_code@ == Seq::<char>::empty(),
    {
        CodeOutput { code: String::new(), debug_code: String::new() }
    }

    /// Appends one instruction's machine text and its mnemonic; the
    /// mnemonic gets a line of its own.
    pub fn add(&mut self, code: String, debug_code: String)
        ensures
            final(self).code@ == old(self).code@ + code@,
            final(self).debug_code@ == old(self).debug_code@ + debug_code@ + seq!['\n'],
    {
        proof {
            reveal_strlit("\n");
        }
        self.code.append(code.as_str());
        self.debug_code.append(debug_code.as_str());
        self.debug_code.append("\n");
        assert(self.debug_code@ =~= old(self).debug_code@ + debug_code@ + seq!['\n']);
    }

    /// Appends both streams of another output.
    pub fn append(&mut self, code: CodeOutput)
        ensures
            final(self).code@ == old(self).code@ + code.code@,
            final(self).debug_code@ == old(self).debug_code@ + code.debug_code@,
    {
        self.code.append(code.code.as_str());
        self.debug_code.append(code.debug_code.as_str());
    }
}

/// The type a heap cell sequence is declared with.  Only integers and
/// strings can actually be allocated; the remaining tags exist so that a
/// request for them can be classified as unsupported.
#[derive(Clone, Copy, Debug, PartialEq, Eq, Structural)]
pub enum VariableType {
    Int,
    String(usize),
    Float,
    Char,
    Bool,
}

/// Where an unsupported comparison operator was encountered.
#[derive(Clone, Copy, Debug, PartialEq, Eq, Structural)]
pub enum OperatorContext {
    Expression,
    Condition,
}

/// The classification of a lowering failure.  Lowering stops at the first
/// failure; nothing is emitted for a program that does not lower.
#[derive(Clone, Copy, Debug, PartialEq, Eq, Structural)]
pub enum LoweringError {
    /// A name was used before any declaration gave it a heap cell.
    UndeclaredVariable,
    /// A call named none of the built-ins.
    UnknownBuiltin,
    /// A type that cannot be allocated or operated on.
    UnsupportedType,
    /// An expression shape the lowering does not handle.
    UnsupportedExpression,
    /// A comparison operator outside a loop guard, or an arithmetic
    /// operator inside one.
    UnsupportedOperator(OperatorContext),
    /// A loop guard that is not a single comparison.
    UnsupportedCondition,
    /// A loop body that is not a block.
    UnsupportedBodyShape,
    /// A built-in argument of the wrong shape, or a missing one.
    UnsupportedArgument,
    /// A string declared with no room for any character.
    InvalidStringCapacity,
}

/// The state after allocating `name` with type `ty`.
pub open spec fn spec_alloc(st: StateModel, name: Seq<char>, ty: VariableType) -> StateModel {
    StateModel {
        heap: st.heap.push((name, st.cursor, ty)),
        cursor: st.cursor + spec_size(ty),
        label: st.label,
    }
}

/// An upper bound on the heap cells a statement can allocate.
pub open spec fn alloc_demand(s: Statement) -> int
    decreases s,
{
    match s {
        Statement::IntDeclaration(_) => 4,
        Statement::StringDeclaration(_, capacity) => capacity as int,
        Statement::WhileLoop { condition, body } => alloc_demand(*body),
        Statement::Block(statements) => alloc_demand_list(statements@, 0),
        _ => 0,
    }
}

pub open spec fn alloc_demand_list(ss: Seq<Statement>, i: int) -> int
    decreases ss, ss.len() - i,
{
    if i < 0 || i >= ss.len() {
        0
    } else {
        alloc_demand(ss[i]) + alloc_demand_list(ss, i + 1)
    }
}

/// An upper bound on the labels a statement can consume: a loop takes
/// three plus its body's, a built-in call at most four.
pub open spec fn label_demand(s: Statement) -> int
    decreases s,
{
    match s {
        Statement::Call(_, _) => 4,
        Statement::WhileLoop { condition, body } => 3 + label_demand(*body),
        Statement::Block(statements) => label_demand_list(statements@, 0),
        _ => 0,
    }
}

pub open spec fn label_demand_list(ss: Seq<Statement>, i: int) -> int
    decreases ss, ss.len() - i,
{
    if i < 0 || i >= ss.len() {
        0
    } else {
        label_demand(ss[i]) + label_demand_list(ss, i + 1)
    }
}

/// The longest string literal assigned anywhere in the statement; its
/// unrolled store writes that many cells past the variable's base.
pub open spec fn max_lit(s: Statement) -> int
    decreases s,
{
    match s {
        Statement::Assignment(_, value) => match value {
            Expression::Literal(text) => text@.len() as int,
            _ => 0,
        },
        Statement::WhileLoop { condition, body } => max_lit(*body),
        Statement::Block(statements) => max_lit_list(statements@, 0),
        _ => 0,
    }
}

pub open spec fn max_lit_list(ss: Seq<Statement>, i: int) -> int
    decreases ss, ss.len() - i,
{
    if i < 0 || i >= ss.len() {
        0
    } else {
        let h = max_lit(ss[i]);
        let t = max_lit_list(ss, i + 1);
        if h >= t {
            h
        } else {
            t
        }
    }
}

/// Every integer literal in every expression of `args` is renderable.
pub open spec fn args_operands_ok(args: Seq<Expression>) -> bool {
    forall|j: int| 0 <= j < args.len() ==> expr_operands_ok(#[trigger] args[j])
}

/// Every integer literal in the statement is renderable.
pub open spec fn stmt_operands_ok(s: Statement) -> bool
    decreases s,
{
    match s {
        Statement::Assignment(_, value) => expr_operands_ok(value),
        Statement::Call(_, args) => args_operands_ok(args@),
        Statement::WhileLoop { condition, body } => expr_operands_ok(*condition)
            && stmt_operands_ok(*body),
        Statement::Block(statements) => stmts_operands_ok(statements@, 0),
        _ => true,
    }
}

pub open spec fn stmts_operands_ok(ss: Seq<Statement>, i: int) -> bool
    decreases ss, ss.len() - i,
{
    if i < 0 || i >= ss.len() {
        true
    } else {
        stmt_operands_ok(ss[i]) && stmts_operands_ok(ss, i + 1)
    }
}

pub proof fn lemma_alloc_demand_nonneg(s: Statement)
    ensures
        alloc_demand(s) >= 0,
    decreases s,
{
    match s {
        Statement::WhileLoop { condition, body } => {
            lemma_alloc_demand_nonneg(*body);
        },
        Statement::Block(statements) => {
            lemma_alloc_demand_list_nonneg(statements@, 0);
        },
        _ => {},
    }
}

pub proof fn lemma_alloc_demand_list_nonneg(ss: Seq<Statement>, i: int)
    ensures
        alloc_demand_list(ss, i) >= 0,
    decreases ss, ss.len() - i,
{
    if 0 <= i < ss.len() {
        lemma_alloc_demand_nonneg(ss[i]);
        lemma_alloc_demand_list_nonneg(ss, i + 1);
    }
}

pub proof fn lemma_label_demand_nonneg(s: Statement)
    ensures
        label_demand(s) >= 0,
    decreases s,
{
    match s {
        Statement::WhileLoop { condition, body } => {
            lemma_label_demand_nonneg(*body);
        },
        Statement::Block(statements) => {
            lemma_label_demand_list_nonneg(statements@, 0);
        },
        _ => {},
    }
}

pub proof fn lemma_label_demand_list_nonneg(ss: Seq<Statement>, i: int)
    ensures
        label_demand_list(ss, i) >= 0,
    decreases ss, ss.len() - i,
{
    if 0 <= i < ss.len() {
        lemma_label_demand_nonneg(ss[i]);
        lemma_label_demand_list_nonneg(ss, i + 1);
    }
}

pub proof fn lemma_max_lit_nonneg(s: Statement)
    ensures
        max_lit(s) >= 0,
    decreases s,
{
    match s {
        Statement::WhileLoop { condition, body } => {
            lemma_max_lit_nonneg(*body);
        },
        Statement::Block(statements) => {
            lemma_max_lit_list_nonneg(statements@, 0);
        },
        _ => {},
    }
}

pub proof fn lemma_max_lit_list_nonneg(ss: Seq<Statement>, i: int)
    ensures
        max_lit_list(ss, i) >= 0,
    decreases ss, ss.len() - i,
{
    if 0 <= i < ss.len() {
        lemma_max_lit_nonneg(ss[i]);
        lemma_max_lit_list_nonneg(ss, i + 1);
    }
}

/// Appending a statement whose literals are renderable to a span whose
/// literals are renderable keeps the whole span renderable.
pub proof fn lemma_operands_ok_push(ss: Seq<Statement>, s: Statement, i: int)
    requires
        stmts_operands_ok(ss, i),
        stmt_operands_ok(s),
        0 <= i,
    ensures
        stmts_operands_ok(ss.push(s), i),
    decreases ss.len() + 1 - i,
{
    let grown = ss.push(s);
    if i < ss.len() {
        assert(grown[i] == ss[i]);
        lemma_operands_ok_push(ss, s, i + 1);
    } else if i == ss.len() {
        assert(grown[i] == s);
        assert(stmts_operands_ok(grown, i + 1));
    }
}

/// The compile-time-unrolled store of a string literal: character `k`
/// goes to cell `addr + k`, in order.
pub open spec fn spec_literal_stores(text: Seq<char>, addr: int) -> Seq<IMP>
    decreases text.len(),
{
    if text.len() == 0 {
        Seq::empty()
    } else {
        spec_literal_stores(text.drop_last(), addr) + seq![
            IMP::Stack(StackOperations::PushNumber((addr + text.len() - 1) as i32)),
            IMP::Stack(StackOperations::PushNumber(text.last() as i32)),
            IMP::Heap(HeapOperations::Store),
        ]
    }
}

/// What an assignment lowers to: the value is computed or unrolled, then
/// committed to the variable's cells.  An integer value or expression
/// result is stored through push-address, swap, store; a string literal
/// is written cell by cell with a terminator after its last character,
/// with no check against the declared capacity.
pub open spec fn spec_lower_assign(name: Seq<char>, value: Expression, heap: Seq<AllocEntry>) -> Result<
    Seq<IMP>,
    LoweringError,
> {
    match value {
        Expression::Integer(v) => match spec_lookup(heap, name) {
            Option::None => Err(LoweringError::UndeclaredVariable),
            Option::Some((off, _ty)) => Ok(
                seq![
                    IMP::Stack(StackOperations::PushNumber(v)),
                    IMP::Stack(StackOperations::PushNumber(off as i32)),
                    IMP::Stack(StackOperations::Swap),
                    IMP::Heap(HeapOperations::Store),
                ],
            ),
        },
        Expression::Literal(text) => match spec_lookup(heap, name) {
            Option::None => Err(LoweringError::UndeclaredVariable),
            Option::Some((off, _ty)) => Ok(
                spec_literal_stores(text@, off) + seq![
                    IMP::Stack(StackOperations::PushNumber((off + text@.len()) as i32)),
                    IMP::Stack(StackOperations::PushNumber(0)),
                    IMP::Heap(HeapOperations::Store),
                ],
            ),
        },
        Expression::BinaryOp { .. } => match spec_lower_expr(value, heap) {
            Err(e) => Err(e),
            Ok(code) => match spec_lookup(heap, name) {
                Option::None => Err(LoweringError::UndeclaredVariable),
                Option::Some((off, _ty)) => Ok(
                    code + seq![
                        IMP::Stack(StackOperations::PushNumber(off as i32)),
                        IMP::Stack(StackOperations::Swap),
                        IMP::Heap(HeapOperations::Store),
                    ],
                ),
            },
        },
        _ => Err(LoweringError::UnsupportedExpression),
    }
}

/// What a loop guard lowers to: the guard must be a single comparison;
/// both sides are evaluated, subtracted, and the loop body entered when
/// the difference is zero (for equality) or negative (for less-than).
pub open spec fn spec_lower_guard(cond: Expression, heap: Seq<AllocEntry>, body_label: int) -> Result<
    Seq<IMP>,
    LoweringError,
> {
    match cond {
        Expression::BinaryOp { operator, left, right } => match operator {
            Operation::CompareEquals => match spec_lower_expr(*left, heap) {
                Err(e) => Err(e),
                Ok(lc) => match spec_lower_expr(*right, heap) {
                    Err(e) => Err(e),
                    Ok(rc) => Ok(
                        lc + rc + seq![
                            IMP::Arithmetic(ArithmeticOperations::Subtract),
                            IMP::FlowControl(
                                FlowControlOperations::JumpIfZero(body_label as i32),
                            ),
                        ],
                    ),
                },
            },
            Operation::CompareLessThan => match spec_lower_expr(*left, heap) {
                Err(e) => Err(e),
                Ok(lc) => match spec_lower_expr(*right, heap) {
                    Err(e) => Err(e),
                    Ok(rc) => Ok(
                        lc + rc + seq![
                            IMP::Arithmetic(ArithmeticOperations::Subtract),
                            IMP::FlowControl(
                                FlowControlOperations::JumpIfNegative(body_label as i32),
                            ),
                        ],
                    ),
                },
            },
            _ => Err(LoweringError::UnsupportedOperator(OperatorContext::Condition)),
        },
        _ => Err(LoweringError::UnsupportedCondition),
    }
}

/// What one statement lowers to, and the state it leaves.  Declarations
/// only move the allocation cursor; `exit` emits the halt instruction and
/// statements after it are still lowered; a while-loop takes three fresh
/// labels and wraps its guard and body in the standard jump scheme; a
/// block lowers its statements in order with no new scope.
pub open spec fn spec_lower_stmt(s: Statement, st: StateModel) -> (Result<
    Seq<IMP>,
    LoweringError,
>, StateModel)
    decreases s,
{
    match s {
        Statement::IntDeclaration(name) => (
            Ok(Seq::empty()),
            spec_alloc(st, name@, VariableType::Int),
        ),
        Statement::StringDeclaration(name, capacity) => if capacity == 0 {
            (Err(LoweringError::InvalidStringCapacity), st)
        } else {
            (Ok(Seq::empty()), spec_alloc(st, name@, VariableType::String(capacity)))
        },
        Statement::Assignment(name, value) => (spec_lower_assign(name@, value, st.heap), st),
        Statement::Exit => (
            Ok(seq![IMP::FlowControl(FlowControlOperations::Exit)]),
            st,
        ),
        Statement::Call(name, args) => if name@ == "read"@ {
            spec_lower_read(args@, st)
        } else if name@ == "concat"@ {
            spec_lower_concat(args@, st)
        } else if name@ == "print"@ {
            spec_lower_print(args@, st)
        } else {
            (Err(LoweringError::UnknownBuiltin), st)
        },
        Statement::WhileLoop { condition, body } => spec_lower_while(*condition, *body, st),
        Statement::Block(statements) => spec_lower_stmts(statements@, 0, st),
    }
}

/// What a while-loop lowers to: three fresh labels are taken, the guard
/// jumps into the body at its label or past the loop to its end label,
/// and the body jumps back to the guard.  The body must be a block; its
/// statements thread the same state.
pub open spec fn spec_lower_while(condition: Expression, body: Statement, st: StateModel) -> (
    Result<Seq<IMP>, LoweringError>,
    StateModel,
)
    decreases body,
{
    let l0 = st.label;
    let st1 = StateModel { heap: st.heap, cursor: st.cursor, label: st.label + 3 };
    match spec_lower_guard(condition, st.heap, l0 + 1) {
        Err(e) => (Err(e), st1),
        Ok(guard) => match body {
            Statement::Block(statements) => {
                let inner = spec_lower_stmts(statements@, 0, st1);
                match inner.0 {
                    Err(e) => (Err(e), inner.1),
                    Ok(body_code) => (
                        Ok(
                            seq![
                                IMP::FlowControl(
                                    FlowControlOperations::SetLabel(l0 as i32),
                                ),
                            ] + guard + seq![
                                IMP::FlowControl(
                                    FlowControlOperations::Jump((l0 + 2) as i32),
                                ),
                                IMP::FlowControl(
                                    FlowControlOperations::SetLabel((l0 + 1) as i32),
                                ),
                            ] + body_code + seq![
                                IMP::FlowControl(
                                    FlowControlOperations::Jump(l0 as i32),
                                ),
                                IMP::FlowControl(
                                    FlowControlOperations::SetLabel((l0 + 2) as i32),
                                ),
                            ],
                        ),
                        inner.1,
                    ),
                }
            },
            _ => (Err(LoweringError::UnsupportedBodyShape), st1),
        },
    }
}

/// What the statements from index `i` on lower to, and the state they
/// leave; lowering stops at the first failure.
pub open spec fn spec_lower_stmts(ss: Seq<Statement>, i: int, st: StateModel) -> (Result<
    Seq<IMP>,
    LoweringError,
>, StateModel)
    decreases ss, ss.len() - i,
{
    if i < 0 || i >= ss.len() {
        (Ok(Seq::empty()), st)
    } else {
        let head = spec_lower_stmt(ss[i], st);
        match head.0 {
            Err(e) => (Err(e), head.1),
            Ok(code0) => {
                let rest = spec_lower_stmts(ss, i + 1, head.1);
                match rest.0 {
                    Err(e) => (Err(e), rest.1),
                    Ok(code1) => (Ok(code0 + code1), rest.1),
                }
            },
        }
    }
}

/// The machine limits a program must respect before lowering: all heap
/// allocations, the longest unrolled literal write, and all labels must
/// stay within the machine's integer range, and every integer literal
/// must be renderable.
pub open spec fn prog_ok(ast: Seq<Statement>, st: StateModel) -> bool {
    &&& st.cursor + alloc_demand_list(ast, 0) + max_lit_list(ast, 0) <= i32::MAX
    &&& st.label + label_demand_list(ast, 0) <= i32::MAX
    &&& stmts_operands_ok(ast, 0)
}

/// When a sequence extends one whose instructions are all renderable and
/// the added instructions are renderable, the whole is.
proof fn lemma_all_ok_append(base: Seq<IMP>, whole: Seq<IMP>)
    requires
        base.len() <= whole.len(),
        all_instrs_ok(base),
        forall|i: int| 0 <= i < base.len() ==> whole[i] == base[i],
        forall|i: int| base.len() <= i < whole.len() ==> instr_ok(#[trigger] whole[i]),
    ensures
        all_instrs_ok(whole),
{
    assert forall|i: int| 0 <= i < whole.len() implies instr_ok(#[trigger] whole[i]) by {
        if i < base.len() {
            assert(whole[i] == base[i]);
            assert(instr_ok(base[i]));
        }
    }
}

/// Lowers one statement, appending its instructions to `out` and
/// recording allocations and labels in the state.
fn lower_statement(stmt: &Statement, state: &mut State, out: &mut Vec<IMP>, lit: Ghost<int>) -> (r:
    Result<(), LoweringError>)
    requires
        old(state).wf(),
        old(state).model().cursor + alloc_demand(*stmt) + lit@ <= i32::MAX,
        old(state).model().label + label_demand(*stmt) <= i32::MAX,
        0 <= lit@,
        max_lit(*stmt) <= lit@,
        stmt_operands_ok(*stmt),
        all_instrs_ok(old(out)@),
    ensures
        final(state).wf(),
        all_instrs_ok(final(out)@),
        old(state).model().label <= final(state).model().label <= old(state).model().label
            + label_demand(*stmt),
        old(state).model().cursor <= final(state).model().cursor <= old(state).model().cursor
            + alloc_demand(*stmt),
        final(state).model() == spec_lower_stmt(*stmt, old(state).model()).1,
        match r {
            Ok(_) => spec_lower_stmt(*stmt, old(state).model()).0 is Ok && final(out)@ == old(out)@ + spec_lower_stmt(*stmt, old(state).model()).0->Ok_0,
            Err(e) => spec_lower_stmt(*stmt, old(state).model()).0 == Err::<
                Seq<IMP>,
                LoweringError,
            >(e),
        },
        final(out)@.len() >= old(out)@.len(),
        forall|j: int| 0 <= j < old(out)@.len() ==> final(out)@[j] == old(out)@[j],
    decreases *stmt,
{
    match stmt {
        Statement::IntDeclaration(name) => {
            let res = state.heap_allocation_map.allocate(name.clone(), VariableType::Int);
            match res {
                Ok(_) => Ok(()),
                Err(e) => {
                    proof {
                        assert(false);
                    }
                    Err(e)
                },
            }
        },
        Statement::StringDeclaration(name, capacity) => {
            if *capacity == 0 {
                return Err(LoweringError::InvalidStringCapacity);
            }
            let res = state.heap_allocation_map.allocate(
                name.clone(),
                VariableType::String(*capacity),
            );
            match res {
                Ok(_) => Ok(()),
                Err(e) => {
                    proof {
                        assert(false);
                    }
                    Err(e)
                },
            }
        },
        Statement::Assignment(name, value) => lower_assignment(
            name,
            value,
            &state.heap_allocation_map,
            out,
            lit,
        ),
        Statement::Exit => {
            let ghost base = out@;
            out.push(IMP::FlowControl(FlowControlOperations::Exit));
            proof {
                assert(out@ =~= base + spec_lower_stmt(*stmt, old(state).model()).0->Ok_0);
                lemma_all_ok_append(base, out@);
            }
            Ok(())
        },
        Statement::Call(name, args) => {
            if str_eq(name.as_str(), "read") {
                crate::transpiler::bi_io::read(state, args, out)
            } else if str_eq(name.as_str(), "concat") {
                crate::transpiler::bi_string::concat(state, args, out)
            } else if str_eq(name.as_str(), "print") {
                crate::transpiler::bi_io::print(state, args, out)
            } else {
                Err(LoweringError::UnknownBuiltin)
            }
        },
        Statement::WhileLoop { condition, body } => lower_while(condition, body, state, out, lit),
        Statement::Block(statements) => lower_statements(statements, state, out, lit),
    }
}

/// Lowers an assignment against the allocation table; assignments never
/// change the compilation state.
#[verifier::loop_isolation(false)]
fn lower_assignment(
    name: &String,
    value: &Expression,
    heap_allocation_map: &HeapAllocation,
    out: &mut Vec<IMP>,
    lit: Ghost<int>,
) -> (r: Result<(), LoweringError>)
    requires
        heap_allocation_map.wf(),
        heap_allocation_map.cursor() + lit@ <= i32::MAX,
        0 <= lit@,
        value matches Expression::Literal(text) ==> text@.len() <= lit@,
        expr_operands_ok(*value),
        all_instrs_ok(old(out)@),
    ensures
        all_instrs_ok(final(out)@),
        match r {
            Ok(_) => spec_lower_assign(name@, *value, heap_allocation_map@) is Ok && final(out)@
                == old(out)@ + spec_lower_assign(name@, *value, heap_allocation_map@)->Ok_0,
            Err(e) => spec_lower_assign(name@, *value, heap_allocation_map@) == Err::<
                Seq<IMP>,
                LoweringError,
            >(e) && final(out)@ == old(out)@,
        },
        final(out)@.len() >= old(out)@.len(),
        forall|j: int| 0 <= j < old(out)@.len() ==> final(out)@[j] == old(out)@[j],
{
    match value {
        Expression::Integer(v) => {
            let found = heap_allocation_map.get(name);
            match found {
                Option::None => Err(LoweringError::UndeclaredVariable),
                Option::Some(variable) => {
                    let addr = variable.offset();
                    proof {
                        lemma_lookup_in_wf(
                            heap_allocation_map@,
                            heap_allocation_map.cursor(),
                            name@,
                        );
                    }
                    let ghost base = out@;
                    out.push(IMP::Stack(StackOperations::PushNumber(*v)));
                    out.push(IMP::Stack(StackOperations::PushNumber(addr)));
                    out.push(IMP::Stack(StackOperations::Swap));
                    out.push(IMP::Heap(HeapOperations::Store));
                    proof {
                        assert(out@ =~= base + spec_lower_assign(name@, *value, heap_allocation_map@)->Ok_0);
                        lemma_all_ok_append(base, out@);
                    }
                    Ok(())
                },
            }
        },
        Expression::Literal(text_value) => {
            let found = heap_allocation_map.get(name);
            match found {
                Option::None => Err(LoweringError::UndeclaredVariable),
                Option::Some(variable) => {
                    let base_addr = variable.offset();
                    proof {
                        lemma_lookup_in_wf(
                            heap_allocation_map@,
                            heap_allocation_map.cursor(),
                            name@,
                        );
                    }
                    let ghost base = out@;
                    let text = text_value.as_str();
                    let n = text.unicode_len();
                    let mut addr: i32 = base_addr;
                    let mut i: usize = 0;
                    proof {
                        assert(lit@ >= text_value@.len());
                        
                        assert(text@.take(0) =~= Seq::<char>::empty());
                    }
                    while i < n
                        invariant
                            0 <= i <= n,
                            n == text@.len(),
                            n as int <= lit@,
                            base_addr >= 0,
                            addr as int == base_addr + i,
                            base_addr as int + n <= i32::MAX,
                            out@ == base + spec_literal_stores(
                                text@.take(i as int),
                                base_addr as int,
                            ),
                            forall|j: int|
                                base.len() <= j < out@.len() ==> instr_ok(
                                    #[trigger] out@[j],
                                ),
                            forall|j: int| 0 <= j < base.len() ==> out@[j] == base[j],
                        decreases n - i,
                    {
                        let c = text.get_char(i);
                        out.push(IMP::Stack(StackOperations::PushNumber(addr)));
                        out.push(IMP::Stack(StackOperations::PushNumber(c as i32)));
                        out.push(IMP::Heap(HeapOperations::Store));
                        proof {
                            let pre = text@.take(i + 1 as int);
                            assert(pre.drop_last() =~= text@.take(i as int));
                            assert(pre.last() == text@[i as int]);
                            assert(out@ =~= base + spec_literal_stores(
                                pre,
                                base_addr as int,
                            ));
                        }
                        addr = addr + 1;
                        i = i + 1;
                    }
                    out.push(IMP::Stack(StackOperations::PushNumber(addr)));
                    out.push(IMP::Stack(StackOperations::PushNumber(0)));
                    out.push(IMP::Heap(HeapOperations::Store));
                    proof {
                        assert(text@.take(n as int) =~= text@);
                        assert(out@ =~= base + spec_lower_assign(name@, *value, heap_allocation_map@)->Ok_0);
                        lemma_all_ok_append(base, out@);
                    }
                    Ok(())
                },
            }
        },
        Expression::BinaryOp { .. } => {
            let mut emitter = CodeEmitter {};
            let evaluated = emitter.evaluate_expression(value, heap_allocation_map);
            match evaluated {
                Err(e) => Err(e),
                Ok((mut code, _t, _sz)) => {
                    let found = heap_allocation_map.get(name);
                    match found {
                        Option::None => Err(LoweringError::UndeclaredVariable),
                        Option::Some(variable) => {
                            let addr = variable.offset();
                            proof {
                                lemma_lookup_in_wf(
                                    heap_allocation_map@,
                                    heap_allocation_map.cursor(),
                                    name@,
                                );
                                lemma_view_offsets_bounded(*heap_allocation_map);
                                lemma_expr_code_shape(
                                    *value,
                                    heap_allocation_map@,
                                    heap_allocation_map.cursor(),
                                );
                            }
                            let ghost base = out@;
                            let ghost expr_code = code@;
                            out.append(&mut code);
                            out.push(IMP::Stack(StackOperations::PushNumber(addr)));
                            out.push(IMP::Stack(StackOperations::Swap));
                            out.push(IMP::Heap(HeapOperations::Store));
                            proof {
                                assert(out@ =~= base + spec_lower_assign(name@, *value, heap_allocation_map@)->Ok_0);
                                lemma_all_ok_append(base, out@);
                            }
                            Ok(())
                        },
                    }
                },
            }
        },
        _ => Err(LoweringError::UnsupportedExpression),
    }
}

/// Lowers a while-loop: takes the loop's three labels, compiles the
/// guard, and threads the state through the body, so labels taken inside
/// the body stay unique in the whole program.
#[verifier::rlimit(60)]
fn lower_while(
    condition: &Expression,
    body: &Statement,
    state: &mut State,
    out: &mut Vec<IMP>,
    lit: Ghost<int>,
) -> (r: Result<(), LoweringError>)
    requires
        old(state).wf(),
        old(state).model().cursor + alloc_demand(*body) + lit@ <= i32::MAX,
        old(state).model().label + 3 + label_demand(*body) <= i32::MAX,
        0 <= lit@,
        max_lit(*body) <= lit@,
        expr_operands_ok(*condition),
        stmt_operands_ok(*body),
        all_instrs_ok(old(out)@),
    ensures
        final(state).wf(),
        all_instrs_ok(final(out)@),
        old(state).model().label <= final(state).model().label <= old(state).model().label + 3
            + label_demand(*body),
        old(state).model().cursor <= final(state).model().cursor <= old(state).model().cursor
            + alloc_demand(*body),
        final(state).model() == spec_lower_while(*condition, *body, old(state).model()).1,
        match r {
            Ok(_) => spec_lower_while(*condition, *body, old(state).model()).0 is Ok && final(out)@ == old(out)@ + spec_lower_while(*condition, *body, old(state).model()).0->Ok_0,
            Err(e) => spec_lower_while(*condition, *body, old(state).model()).0 == Err::<
                Seq<IMP>,
                LoweringError,
            >(e),
        },
        final(out)@.len() >= old(out)@.len(),
        forall|j: int| 0 <= j < old(out)@.len() ==> final(out)@[j] == old(out)@[j],
    decreases *body,
{
    proof {
        lemma_label_demand_nonneg(*body);
        lemma_alloc_demand_nonneg(*body);
    }
    let loop_start_label = state.get_label();
    let loop_body_start_label = state.get_label();
    let loop_end_label = state.get_label();
    let ghost st1 = state.model();
    let mut emitter = CodeEmitter {};
    let mut guard_code: Vec<IMP>;
    match condition {
        Expression::BinaryOp { operator, left, right } => {
            match operator {
                Operation::CompareEquals => {
                    let left_result = emitter.evaluate_expression(
                        left,
                        &state.heap_allocation_map,
                    );
                    match left_result {
                        Err(e) => {
                            return Err(e);
                        },
                        Ok((mut lc, _lt, _ls)) => {
                            let right_result = emitter.evaluate_expression(
                                right,
                                &state.heap_allocation_map,
                            );
                            match right_result {
                                Err(e) => {
                                    return Err(e);
                                },
                                Ok((mut rc, _rt, _rs)) => {
                                    let ghost lcs = lc@;
                                    let ghost rcs = rc@;
                                    lc.append(&mut rc);
                                    lc.push(
                                        IMP::Arithmetic(ArithmeticOperations::Subtract),
                                    );
                                    lc.push(
                                        IMP::FlowControl(
                                            FlowControlOperations::JumpIfZero(
                                                loop_body_start_label,
                                            ),
                                        ),
                                    );
                                    proof {
                                        assert(lc@ =~= lcs + rcs + seq![
                                            IMP::Arithmetic(
                                                ArithmeticOperations::Subtract,
                                            ),
                                            IMP::FlowControl(
                                                FlowControlOperations::JumpIfZero(
                                                    loop_body_start_label,
                                                ),
                                            ),
                                        ]);
                                        lemma_view_offsets_bounded(
                                            old(state).heap_allocation_map,
                                        );
                                        lemma_expr_code_shape(
                                            **left,
                                            old(state).model().heap,
                                            old(state).model().cursor,
                                        );
                                        lemma_expr_code_shape(
                                            **right,
                                            old(state).model().heap,
                                            old(state).model().cursor,
                                        );
                                    }
                                    guard_code = lc;
                                },
                            }
                        },
                    }
                },
                Operation::CompareLessThan => {
                    let left_result = emitter.evaluate_expression(
                        left,
                        &state.heap_allocation_map,
                    );
                    match left_result {
                        Err(e) => {
                            return Err(e);
                        },
                        Ok((mut lc, _lt, _ls)) => {
                            let right_result = emitter.evaluate_expression(
                                right,
                                &state.heap_allocation_map,
                            );
                            match right_result {
                                Err(e) => {
                                    return Err(e);
                                },
                                Ok((mut rc, _rt, _rs)) => {
                                    let ghost lcs = lc@;
                                    let ghost rcs = rc@;
                                    lc.append(&mut rc);
                                    lc.push(
                                        IMP::Arithmetic(ArithmeticOperations::Subtract),
                                    );
                                    lc.push(
                                        IMP::FlowControl(
                                            FlowControlOperations::JumpIfNegative(
                                                loop_body_start_label,
                                            ),
                                        ),
                                    );
                                    proof {
                                        assert(lc@ =~= lcs + rcs + seq![
                                            IMP::Arithmetic(
                                                ArithmeticOperations::Subtract,
                                            ),
                                            IMP::FlowControl(
                                                FlowControlOperations::JumpIfNegative(
                                                    loop_body_start_label,
                                                ),
                                            ),
                                        ]);
                                        lemma_view_offsets_bounded(
                                            old(state).heap_allocation_map,
                                        );
                                        lemma_expr_code_shape(
                                            **left,
                                            old(state).model().heap,
                                            old(state).model().cursor,
                                        );
                                        lemma_expr_code_shape(
                                            **right,
                                            old(state).model().heap,
                                            old(state).model().cursor,
                                        );
                                    }
                                    guard_code = lc;
                                },
                            }
                        },
                    }
                },
                _ => {
                    return Err(
                        LoweringError::UnsupportedOperator(OperatorContext::Condition),
                    );
                },
            }
        },
        _ => {
            return Err(LoweringError::UnsupportedCondition);
        },
    }
    match body {
        Statement::Block(statements) => {
            proof {
                
                assert(max_lit(*body) == max_lit_list(statements@, 0));
                
                assert(alloc_demand(*body) == alloc_demand_list(statements@, 0));
                
                assert(label_demand(*body) == label_demand_list(statements@, 0));
                
                assert(stmt_operands_ok(*body) == stmts_operands_ok(statements@, 0));
            }
            let ghost base = out@;
            out.push(IMP::FlowControl(FlowControlOperations::SetLabel(loop_start_label)));
            let ghost gc = guard_code@;
            out.append(&mut guard_code);
            out.push(IMP::FlowControl(FlowControlOperations::Jump(loop_end_label)));
            out.push(
                IMP::FlowControl(FlowControlOperations::SetLabel(loop_body_start_label)),
            );
            proof {
                lemma_all_ok_append(base, out@);
            }
            let ghost before_body = out@;
            let body_result = lower_statements(statements, state, out, lit);
            match body_result {
                Err(e) => Err(e),
                Ok(_) => {
                    let ghost body_code = spec_lower_stmts(statements@, 0, st1).0->Ok_0;
                    out.push(
                        IMP::FlowControl(FlowControlOperations::Jump(loop_start_label)),
                    );
                    out.push(
                        IMP::FlowControl(FlowControlOperations::SetLabel(loop_end_label)),
                    );
                    proof {
                        assert(out@ =~= base + (seq![
                            IMP::FlowControl(
                                FlowControlOperations::SetLabel(loop_start_label),
                            ),
                        ] + gc + seq![
                            IMP::FlowControl(
                                FlowControlOperations::Jump(loop_end_label),
                            ),
                            IMP::FlowControl(
                                FlowControlOperations::SetLabel(loop_body_start_label),
                            ),
                        ] + body_code + seq![
                            IMP::FlowControl(
                                FlowControlOperations::Jump(loop_start_label),
                            ),
                            IMP::FlowControl(
                                FlowControlOperations::SetLabel(loop_end_label),
                            ),
                        ]));
                        assert(out@ =~= base + spec_lower_while(
                            *condition,
                            *body,
                            old(state).model(),
                        ).0->Ok_0);
                        lemma_all_ok_append(before_body, out@);
                    }
                    Ok(())
                },
            }
        },
        _ => Err(LoweringError::UnsupportedBodyShape),
    }
}

/// Lowers a statement list in order, stopping at the first failure.
#[verifier::loop_isolation(false)]
fn lower_statements(stmts: &Vec<Statement>, state: &mut State, out: &mut Vec<IMP>, lit: Ghost<
    int,
>) -> (r: Result<(), LoweringError>)
    requires
        old(state).wf(),
        old(state).model().cursor + alloc_demand_list(stmts@, 0) + lit@ <= i32::MAX,
        old(state).model().label + label_demand_list(stmts@, 0) <= i32::MAX,
        0 <= lit@,
        max_lit_list(stmts@, 0) <= lit@,
        stmts_operands_ok(stmts@, 0),
        all_instrs_ok(old(out)@),
    ensures
        final(state).wf(),
        all_instrs_ok(final(out)@),
        old(state).model().label <= final(state).model().label <= old(state).model().label
            + label_demand_list(stmts@, 0),
        old(state).model().cursor <= final(state).model().cursor <= old(state).model().cursor
            + alloc_demand_list(stmts@, 0),
        final(state).model() == spec_lower_stmts(stmts@, 0, old(state).model()).1,
        match r {
            Ok(_) => spec_lower_stmts(stmts@, 0, old(state).model()).0 is Ok && final(out)@ == old(out)@ + spec_lower_stmts(stmts@, 0, old(state).model()).0->Ok_0,
            Err(e) => spec_lower_stmts(stmts@, 0, old(state).model()).0 == Err::<
                Seq<IMP>,
                LoweringError,
            >(e),
        },
        final(out)@.len() >= old(out)@.len(),
        forall|j: int| 0 <= j < old(out)@.len() ==> final(out)@[j] == old(out)@[j],
    decreases stmts@,
{
    let ghost st0 = old(state).model();
    let n = stmts.len();
    let mut i: usize = 0;
    let ghost mut prefix: Seq<IMP> = Seq::empty();
    proof {
        assert(Seq::<IMP>::empty() + spec_lower_stmts(stmts@, 0, st0).0->Ok_0 =~= spec_lower_stmts(
            stmts@,
            0,
            st0,
        ).0->Ok_0);
    }
    while i < n
        invariant
            0 <= i <= n,
            n == stmts@.len(),
            state.wf(),
            all_instrs_ok(out@),
            out@ == old(out)@ + prefix,
            st0.label <= state.model().label,
            state.model().label + label_demand_list(stmts@, i as int) <= st0.label
                + label_demand_list(stmts@, 0),
            st0.cursor <= state.model().cursor,
            state.model().cursor + alloc_demand_list(stmts@, i as int) <= st0.cursor
                + alloc_demand_list(stmts@, 0),
            state.model().cursor + alloc_demand_list(stmts@, i as int) + lit@ <= i32::MAX,
            state.model().label + label_demand_list(stmts@, i as int) <= i32::MAX,
            0 <= lit@,
            max_lit_list(stmts@, i as int) <= lit@,
            stmts_operands_ok(stmts@, i as int),
            spec_lower_stmts(stmts@, 0, st0).1 == spec_lower_stmts(
                stmts@,
                i as int,
                state.model(),
            ).1,
            spec_lower_stmts(stmts@, i as int, state.model()).0 is Ok ==> spec_lower_stmts(
                stmts@,
                0,
                st0,
            ).0 == Ok::<Seq<IMP>, LoweringError>(
                prefix + spec_lower_stmts(stmts@, i as int, state.model()).0->Ok_0,
            ),
            spec_lower_stmts(stmts@, i as int, state.model()).0 is Err ==> spec_lower_stmts(
                stmts@,
                0,
                st0,
            ).0 == spec_lower_stmts(stmts@, i as int, state.model()).0,
        decreases n - i,
    {
        let ghost cur = state.model();
        proof {
            lemma_max_lit_list_nonneg(stmts@, i + 1 as int);
            lemma_alloc_demand_list_nonneg(stmts@, i + 1 as int);
            lemma_label_demand_list_nonneg(stmts@, i + 1 as int);
        }
        let res = lower_statement(&stmts[i], state, out, lit);
        match res {
            Err(e) => {
                proof {
                    assert(spec_lower_stmts(stmts@, i as int, cur).0 == Err::<
                        Seq<IMP>,
                        LoweringError,
                    >(e));
                    assert(spec_lower_stmts(stmts@, i as int, cur).1 == state.model());
                    assert(label_demand_list(stmts@, i as int) == label_demand(
                        stmts@[i as int],
                    ) + label_demand_list(stmts@, i + 1 as int));
                    assert(alloc_demand_list(stmts@, i as int) == alloc_demand(
                        stmts@[i as int],
                    ) + alloc_demand_list(stmts@, i + 1 as int));
                    assert(st0.label <= state.model().label);
                    assert(state.model().label <= st0.label + label_demand_list(stmts@, 0));
                    assert(st0.cursor <= state.model().cursor);
                    assert(state.model().cursor <= st0.cursor + alloc_demand_list(stmts@, 0));
                    assert(spec_lower_stmts(stmts@, 0, st0).0 == Err::<
                        Seq<IMP>,
                        LoweringError,
                    >(e));
                }
                return Err(e);
            },
            Ok(_) => {
                proof {
                    let head = spec_lower_stmt(stmts@[i as int], cur);
                    let head_code = head.0->Ok_0;
                    let old_prefix = prefix;
                    prefix = prefix + head_code;
                    assert(out@ =~= old(out)@ + prefix);
                    assert(spec_lower_stmts(stmts@, i as int, cur).1 == spec_lower_stmts(
                        stmts@,
                        i + 1 as int,
                        state.model(),
                    ).1);
                    if spec_lower_stmts(stmts@, i + 1 as int, state.model()).0 is Ok {
                        let c = spec_lower_stmts(stmts@, i + 1 as int, state.model()).0->Ok_0;
                        assert(spec_lower_stmts(stmts@, i as int, cur).0 == Ok::<
                            Seq<IMP>,
                            LoweringError,
                        >(head_code + c));
                        assert(old_prefix + (head_code + c) =~= prefix + c);
                        assert(spec_lower_stmts(stmts@, 0, st0).0 == Ok::<
                            Seq<IMP>,
                            LoweringError,
                        >(prefix + c));
                    }
                }
                i = i + 1;
            },
        }
    }
    proof {
        assert(spec_lower_stmts(stmts@, n as int, state.model()).0 == Ok::<
            Seq<IMP>,
            LoweringError,
        >(Seq::empty()));
        assert(prefix + Seq::<IMP>::empty() =~= prefix);
    }
    Ok(())
}

/// The state a lowering starts from: a given state, or a fresh one with
/// an empty table and the label counter at zero.
pub open spec fn initial_model(state: Option<State>) -> StateModel {
    match state {
        Option::Some(s) => s.model(),
        Option::None => StateModel { heap: Seq::empty(), cursor: 0, label: 0 },
    }
}

/// Lowers a whole program to its canonical instruction list, threading
/// the given state.  On success the list is exactly the lowering of the
/// statement list and every operand in it is renderable; on failure the
/// first error is returned and nothing is handed out.
pub fn lower_program(ast: &Vec<Statement>, state: &mut State) -> (r: Result<
    Vec<IMP>,
    LoweringError,
>)
    requires
        old(state).wf(),
        prog_ok(ast@, old(state).model()),
    ensures
        final(state).wf(),
        final(state).model() == spec_lower_stmts(ast@, 0, old(state).model()).1,
        match r {
            Ok(code) => spec_lower_stmts(ast@, 0, old(state).model()).0 == Ok::<
                Seq<IMP>,
                LoweringError,
            >(code@) && all_instrs_ok(code@),
            Err(e) => spec_lower_stmts(ast@, 0, old(state).model()).0 == Err::<
                Seq<IMP>,
                LoweringError,
            >(e),
        },
{
    proof {
        lemma_max_lit_list_nonneg(ast@, 0);
        lemma_alloc_demand_list_nonneg(ast@, 0);
        lemma_label_demand_list_nonneg(ast@, 0);
    }
    let mut out: Vec<IMP> = Vec::new();
    let res = lower_statements(ast, state, &mut out, Ghost(max_lit_list(ast@, 0)));
    match res {
        Ok(_) => {
            proof {
                assert(out@ =~= Seq::<IMP>::empty() + spec_lower_stmts(
                    ast@,
                    0,
                    old(state).model(),
                ).0->Ok_0);
                assert(out@ =~= spec_lower_stmts(ast@, 0, old(state).model()).0->Ok_0);
            }
            Ok(out)
        },
        Err(e) => Err(e),
    }
}

/// Compiles a program into the two output streams.  The machine text is
/// exactly the encoding of the program's canonical instruction list, and
/// the trace is the list's mnemonics, one line each, in the same order;
/// on the first failure the error is returned and no code is emitted.
pub fn transpile(ast: Vec<Statement>, state: Option<State>) -> (r: Result<
    CodeOutput,
    LoweringError,
>)
    requires
        state matches Option::Some(s) ==> s.wf(),
        prog_ok(ast@, initial_model(state)),
    ensures
        match r {
            Ok(co) => spec_lower_stmts(ast@, 0, initial_model(state)).0 is Ok && co.code@
                == spec_code_all(spec_lower_stmts(ast@, 0, initial_model(state)).0->Ok_0)
                && co.debug_code@ == spec_debug_all(
                spec_lower_stmts(ast@, 0, initial_model(state)).0->Ok_0,
            ),
            Err(e) => spec_lower_stmts(ast@, 0, initial_model(state)).0 == Err::<
                Seq<IMP>,
                LoweringError,
            >(e),
        },
{
    let mut working_state: State = match state {
        Option::Some(s) => s,
        Option::None => State::new(),
    };
    let lowered = lower_program(&ast, &mut working_state);
    match lowered {
        Ok(code) => {
            let mut emitter = CodeEmitter {};
            Ok(emitter.emit(code))
        },
        Err(e) => Err(e),
    }
}

/// Addition that stops at the largest value instead of wrapping.
fn sat_add(a: u64, b: u64) -> (r: u64)
    ensures
        r == u64::MAX || r == a + b,
        a <= r,
        b <= r,
{
    if a > u64::MAX - b {
        u64::MAX
    } else {
        a + b
    }
}

/// Whether every integer literal in the expression is renderable.
fn expr_renderable(e: &Expression) -> (r: bool)
    ensures
        r == expr_operands_ok(*e),
    decreases *e,
{
    match e {
        Expression::Integer(value) => *value != i32::MIN,
        Expression::BinaryOp { operator, left, right } => {
            let l = expr_renderable(left);
            let r2 = expr_renderable(right);
            l && r2
        },
        _ => true,
    }
}

/// Upper bounds on one statement's demands: heap cells, labels, longest
/// literal; and whether its literals are renderable.  A bound that hit
/// the largest value stands for "too much".
fn statement_demands(s: &Statement) -> (r: (u64, u64, u64, bool))
    ensures
        alloc_demand(*s) <= r.0 || r.0 == u64::MAX,
        label_demand(*s) <= r.1 || r.1 == u64::MAX,
        max_lit(*s) <= r.2 || r.2 == u64::MAX,
        r.3 ==> stmt_operands_ok(*s),
    decreases *s,
{
    match s {
        Statement::IntDeclaration(_) => (4, 0, 0, true),
        Statement::StringDeclaration(_, capacity) => (*capacity as u64, 0, 0, true),
        Statement::Assignment(_, value) => {
            let lit: u64 = match value {
                Expression::Literal(text) => text.as_str().unicode_len() as u64,
                _ => 0,
            };
            (0, 0, lit, expr_renderable(value))
        },
        Statement::Exit => (0, 0, 0, true),
        Statement::Call(_, args) => {
            let n = args.len();
            let mut ok = true;
            let mut i: usize = 0;
            while i < n
                invariant
                    0 <= i <= n,
                    n == args@.len(),
                    ok ==> forall|j: int| 0 <= j < i ==> expr_operands_ok(#[trigger] args@[j]),
                decreases n - i,
            {
                let this_ok = expr_renderable(&args[i]);
                ok = ok && this_ok;
                i = i + 1;
            }
            (0, 4, 0, ok)
        },
        Statement::WhileLoop { condition, body } => {
            let inner = statement_demands(body);
            let guard_ok = expr_renderable(condition);
            (inner.0, sat_add(inner.1, 3), inner.2, inner.3 && guard_ok)
        },
        Statement::Block(statements) => statements_demands(statements),
    }
}

/// Upper bounds on a statement list's demands, by the same rule.
fn statements_demands(ss: &Vec<Statement>) -> (r: (u64, u64, u64, bool))
    ensures
        alloc_demand_list(ss@, 0) <= r.0 || r.0 == u64::MAX,
        label_demand_list(ss@, 0) <= r.1 || r.1 == u64::MAX,
        max_lit_list(ss@, 0) <= r.2 || r.2 == u64::MAX,
        r.3 ==> stmts_operands_ok(ss@, 0),
    decreases ss@,
{
    let n = ss.len();
    let mut alloc: u64 = 0;
    let mut label: u64 = 0;
    let mut lit: u64 = 0;
    let mut ok = true;
    let mut i: usize = n;
    while i > 0
        invariant
            0 <= i <= n,
            n == ss@.len(),
            alloc_demand_list(ss@, i as int) <= alloc || alloc == u64::MAX,
            label_demand_list(ss@, i as int) <= label || label == u64::MAX,
            max_lit_list(ss@, i as int) <= lit || lit == u64::MAX,
            ok ==> stmts_operands_ok(ss@, i as int),
        decreases i,
    {
        i = i - 1;
        proof {
            lemma_alloc_demand_list_nonneg(ss@, i + 1 as int);
            lemma_label_demand_list_nonneg(ss@, i + 1 as int);
            lemma_max_lit_list_nonneg(ss@, i + 1 as int);
            lemma_alloc_demand_nonneg(ss@[i as int]);
            lemma_label_demand_nonneg(ss@[i as int]);
            lemma_max_lit_nonneg(ss@[i as int]);
        }
        let here = statement_demands(&ss[i]);
        alloc = sat_add(alloc, here.0);
        label = sat_add(label, here.1);
        lit = if here.2 > lit {
            here.2
        } else {
            lit
        };
        ok = ok && here.3;
    }
    (alloc, label, lit, ok)
}

/// Whether a program can be lowered from a fresh state without leaving
/// the machine's integer range anywhere: all heap allocations, the
/// longest unrolled literal write and all labels stay representable, and
/// every integer literal is renderable.
pub fn program_fits(ast: &Vec<Statement>) -> (r: bool)
    ensures
        r ==> prog_ok(ast@, initial_model(None)),
{
    let demands = statements_demands(ast);
    let limit: u64 = i32::MAX as u64;
    demands.3 && demands.0 <= limit && demands.1 <= limit && demands.2 <= limit && demands.0
        + demands.2 <= limit
}

} // verus!
