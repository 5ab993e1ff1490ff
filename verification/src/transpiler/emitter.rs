//! Expression lowering: compiles an expression tree to a flat instruction
//! sequence that leaves exactly one value on the operand stack, and the
//! emitter that turns an instruction list into the two output streams.

use vstd::prelude::*;
use crate::ast::Expression;
use crate::ast::Operation;
use crate::specs::whitespace::all_instrs_ok;
use crate::specs::whitespace::operand_ok;
use crate::specs::whitespace::spec_code_all;
use crate::specs::whitespace::spec_debug_all;
use crate::specs::whitespace::ArithmeticOperations;
use crate::specs::whitespace::HeapOperations;
use crate::specs::whitespace::StackOperations;
use crate::specs::whitespace::IMP;
use crate::transpiler::state::heap_wf;
use crate::transpiler::state::lemma_lookup_is_entry;
use crate::transpiler::state::spec_lookup;
use crate::transpiler::state::wf_entry;
use crate::transpiler::state::AllocEntry;
use crate::transpiler::state::HeapAllocation;
use crate::transpiler::CodeOutput;
use crate::transpiler::LoweringError;
use crate::transpiler::OperatorContext;
use crate::transpiler::VariableType;

verus! {

/// The arithmetic instruction of an operator, or `None` for the two
/// comparisons, which have no generic lowering.
pub open spec fn spec_arith_op(op: Operation) -> Option<ArithmeticOperations> {
    match op {
        Operation::Add => Some(ArithmeticOperations::Add),
        Operation::Sub => Some(ArithmeticOperations::Subtract),
        Operation::Mul => Some(ArithmeticOperations::Multiply),
        Operation::Div => Some(ArithmeticOperations::DivideInteger),
        Operation::Mod => Some(ArithmeticOperations::Modulo),
        Operation::CompareEquals => None,
        Operation::CompareLessThan => None,
    }
}

/// What expression lowering produces: a post-order walk that pushes the
/// value of every leaf and combines with the operator's instruction, so
/// the whole sequence is stack-neutral except for its single result.
/// Integer literals push their value; an integer variable pushes its heap
/// address and retrieves; every other shape is refused.
pub open spec fn spec_lower_expr(e: Expression, heap: Seq<AllocEntry>) -> Result<
    Seq<IMP>,
    LoweringError,
>
    decreases e,
{
    match e {
        Expression::Integer(value) => Ok(seq![IMP::Stack(StackOperations::PushNumber(value))]),
        Expression::Variable(name) => match spec_lookup(heap, name@) {
            Option::None => Err(LoweringError::UndeclaredVariable),
            Option::Some((off, ty)) => match ty {
                VariableType::Int => Ok(
                    seq![
                        IMP::Stack(StackOperations::PushNumber(off as i32)),
                        IMP::Heap(HeapOperations::Retrieve),
                    ],
                ),
                _ => Err(LoweringError::UnsupportedType),
            },
        },
        Expression::BinaryOp { operator, left, right } => match spec_lower_expr(*left, heap) {
            Err(e1) => Err(e1),
            Ok(lc) => match spec_lower_expr(*right, heap) {
                Err(e1) => Err(e1),
                Ok(rc) => match spec_arith_op(operator) {
                    Option::Some(op) => Ok(lc + rc + seq![IMP::Arithmetic(op)]),
                    Option::None => Err(
                        LoweringError::UnsupportedOperator(OperatorContext::Expression),
                    ),
                },
            },
        },
        _ => Err(LoweringError::UnsupportedExpression),
    }
}

/// No integer literal in the expression is the unrepresentable operand.
pub open spec fn expr_operands_ok(e: Expression) -> bool
    decreases e,
{
    match e {
        Expression::Integer(value) => operand_ok(value),
        Expression::BinaryOp { operator, left, right } => expr_operands_ok(*left)
            && expr_operands_ok(*right),
        _ => true,
    }
}

/// Lowered expression code only moves values: it holds no flow control and
/// no input or output, so in particular no labels and no jumps.
pub open spec fn moves_only(s: Seq<IMP>) -> bool {
    forall|i: int|
        0 <= i < s.len() ==> match #[trigger] s[i] {
            IMP::Stack(_) => true,
            IMP::Arithmetic(_) => true,
            IMP::Heap(_) => true,
            IMP::FlowControl(_) => false,
            IMP::IO(_) => false,
        }
}

/// What lowering an expression over a well-formed, bounded table emits:
/// every operand is renderable and the code only moves values.
pub proof fn lemma_expr_code_shape(e: Expression, heap: Seq<AllocEntry>, cursor: int)
    requires
        heap_wf(heap, cursor),
        forall|i: int| 0 <= i < heap.len() ==> #[trigger] heap[i].1 <= i32::MAX,
        expr_operands_ok(e),
        spec_lower_expr(e, heap) is Ok,
    ensures
        all_instrs_ok(spec_lower_expr(e, heap)->Ok_0),
        moves_only(spec_lower_expr(e, heap)->Ok_0),
    decreases e,
{
    match e {
        Expression::Integer(value) => {},
        Expression::Variable(name) => {
            lemma_lookup_is_entry(heap, name@);
            let i = choose|i: int|
                0 <= i < heap.len() && #[trigger] heap[i].1 == spec_lookup(heap, name@)->Some_0.0
                    && heap[i].2 == spec_lookup(heap, name@)->Some_0.1;
            assert(wf_entry(heap, cursor, i));
        },
        Expression::BinaryOp { operator, left, right } => {
            lemma_expr_code_shape(*left, heap, cursor);
            lemma_expr_code_shape(*right, heap, cursor);
        },
        _ => {},
    }
}

/// Turns abstract operations into output text; also compiles expression
/// trees to operation sequences.
pub struct CodeEmitter {}

impl CodeEmitter {
    /// Renders an instruction list into the two output streams, machine
    /// text and mnemonic trace, in instruction order.
    pub fn emit(&mut self, expression: Vec<IMP>) -> (r: CodeOutput)
        requires
            all_instrs_ok(expression@),
        ensures
            r.code@ == spec_code_all(expression@),
            r.debug_code@ == spec_debug_all(expression@),
    {
        let mut res = CodeOutput::new();
        let n = expression.len();
        let mut i: usize = 0;
        assert(expression@.take(0) =~= Seq::<IMP>::empty());
        while i < n
            invariant
                0 <= i <= n,
                n == expression@.len(),
                all_instrs_ok(expression@),
                res.code@ == spec_code_all(expression@.take(i as int)),
                res.debug_code@ == spec_debug_all(expression@.take(i as int)),
            decreases n - i,
        {
            let co = expression[i].gen();
            res.add(co.code, co.debug_code);
            proof {
                let pre = expression@.take(i + 1 as int);
                assert(pre.drop_last() =~= expression@.take(i as int));
                assert(pre.last() == expression@[i as int]);
            }
            i = i + 1;
        }
        assert(expression@.take(n as int) =~= expression@);
        res
    }

    /// Compiles `expression` against the allocation table.  On success the
    /// instruction list is exactly the post-order lowering, and the result
    /// type is always an integer of four cells.
    pub fn evaluate_expression(
        &mut self,
        expression: &Expression,
        heap_allocation_map: &HeapAllocation,
    ) -> (r: Result<(Vec<IMP>, VariableType, i32), LoweringError>)
        ensures
            match r {
                Ok(out) => spec_lower_expr(*expression, heap_allocation_map@) == Ok::<
                    Seq<IMP>,
                    LoweringError,
                >(out.0@) && out.1 == VariableType::Int && out.2 == 4,
                Err(e) => spec_lower_expr(*expression, heap_allocation_map@) == Err::<
                    Seq<IMP>,
                    LoweringError,
                >(e),
            },
        decreases *expression,
    {
        match expression {
            Expression::Integer(value) => {
                let mut code: Vec<IMP> = Vec::new();
                code.push(IMP::Stack(StackOperations::PushNumber(*value)));
                assert(code@ =~= seq![IMP::Stack(StackOperations::PushNumber(*value))]);
                Ok((code, VariableType::Int, 4))
            },
            Expression::Variable(name) => {
                match heap_allocation_map.get(name) {
                    Option::None => Err(LoweringError::UndeclaredVariable),
                    Option::Some(variable) => {
                        let type_ = variable.type_();
                        let offset = variable.offset();
                        match type_ {
                            VariableType::Int => {
                                let mut code: Vec<IMP> = Vec::new();
                                code.push(IMP::Stack(StackOperations::PushNumber(offset)));
                                code.push(IMP::Heap(HeapOperations::Retrieve));
                                assert(code@ =~= seq![
                                    IMP::Stack(StackOperations::PushNumber(offset)),
                                    IMP::Heap(HeapOperations::Retrieve),
                                ]);
                                Ok((code, VariableType::Int, 4))
                            },
                            _ => Err(LoweringError::UnsupportedType),
                        }
                    },
                }
            },
            Expression::BinaryOp { operator, left, right } => {
                let left_result = self.evaluate_expression(left, heap_allocation_map);
                match left_result {
                    Err(e) => Err(e),
                    Ok((mut code, _left_type, left_size)) => {
                        let right_result = self.evaluate_expression(right, heap_allocation_map);
                        match right_result {
                            Err(e) => Err(e),
                            Ok((mut right_code, _right_type, right_size)) => {
                                match arith_operation(operator) {
                                    Option::None => Err(
                                        LoweringError::UnsupportedOperator(
                                            OperatorContext::Expression,
                                        ),
                                    ),
                                    Option::Some(op) => {
                                        let ghost lc = code@;
                                        let ghost rc = right_code@;
                                        code.append(&mut right_code);
                                        code.push(IMP::Arithmetic(op));
                                        proof {
                                            assert(code@ =~= lc + rc + seq![
                                                IMP::Arithmetic(op),
                                            ]);
                                        }
                                        Ok((code, VariableType::Int, 4))
                                    },
                                }
                            },
                        }
                    },
                }
            },
            _ => Err(LoweringError::UnsupportedExpression),
        }
    }
}

/// The arithmetic instruction of an operator, or `None` for a comparison.
pub fn arith_operation(op: &Operation) -> (r: Option<ArithmeticOperations>)
    ensures
        r == spec_arith_op(*op),
{
    match op {
        Operation::Add => Some(ArithmeticOperations::Add),
        Operation::Sub => Some(ArithmeticOperations::Subtract),
        Operation::Mul => Some(ArithmeticOperations::Multiply),
        Operation::Div => Some(ArithmeticOperations::DivideInteger),
        Operation::Mod => Some(ArithmeticOperations::Modulo),
        Operation::CompareEquals => None,
        Operation::CompareLessThan => None,
    }
}

} // verus!
