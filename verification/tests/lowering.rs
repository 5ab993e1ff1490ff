use whitespace_compiler::ast::Expression;
use whitespace_compiler::ast::Operation;
use whitespace_compiler::ast::Statement;
use whitespace_compiler::transpiler::state::State;
use whitespace_compiler::transpiler::transpile;
use whitespace_compiler::transpiler::CodeOutput;
use whitespace_compiler::transpiler::LoweringError;
use whitespace_compiler::transpiler::OperatorContext;
use whitespace_compiler::util::unbleach;

#[test]
fn transpiler_print() {
    let input = vec![
        Statement::Call("print".to_string(), vec![Expression::Integer(99)]),
        Statement::Exit,
    ];
    let CodeOutput { code, .. } = transpile(input, None).unwrap();
    assert_eq!(unbleach(code), "sssttsssttntnstnnn");
}

#[test]
fn transpiler_heap_allocation() {
    let input = vec![
        Statement::IntDeclaration("m".to_string()),
        Statement::Assignment("m".to_string(), Expression::Integer(11)),
        Statement::Exit,
    ];
    let CodeOutput { code, .. } = transpile(input, None).unwrap();
    assert_eq!(unbleach(code), "ssststtnssssnsntttsnnn");
}

#[test]
fn transpiler_print_from_heap() {
    let input = vec![
        Statement::IntDeclaration("m".to_string()),
        Statement::Assignment("m".to_string(), Expression::Integer(11)),
        Statement::Call(
            "print".to_string(),
            vec![Expression::Variable("m".to_string())],
        ),
        Statement::Exit,
    ];
    let CodeOutput { code, .. } = transpile(input, None).unwrap();
    assert_eq!(unbleach(code), "ssststtnssssnsntttsssssnttttnstnnn");
}

fn while_program() -> Vec<Statement> {
    vec![
        Statement::IntDeclaration("m".to_string()),
        Statement::Assignment("m".to_string(), Expression::Integer(8)),
        Statement::WhileLoop {
            condition: Box::new(Expression::BinaryOp {
                operator: Operation::CompareLessThan,
                left: Box::new(Expression::Variable("m".to_string())),
                right: Box::new(Expression::Integer(11)),
            }),
            body: Box::new(Statement::Block(vec![
                Statement::Call(
                    "print".to_string(),
                    vec![Expression::Variable("m".to_string())],
                ),
                Statement::Assignment(
                    "m".to_string(),
                    Expression::BinaryOp {
                        operator: Operation::Add,
                        left: Box::new(Expression::Variable("m".to_string())),
                        right: Box::new(Expression::Integer(1)),
                    },
                ),
            ])),
        },
        Statement::Exit,
    ]
}

#[test]
fn transpiler_while_less_than() {
    let CodeOutput { code, .. } = transpile(while_program(), None).unwrap();
    assert_eq!(
        unbleach(code),
        "ssstsssnssssnsntttsnssnssssntttssststtntsstntttnnsntsnnsstnssssnttttnstssssntttssstntsssssssnsntttsnsnnnsstsnnnn"
    );
}

#[test]
fn mod_print() {
    let input = vec![
        Statement::Call("print".to_string(), vec![Expression::Integer(99)]),
        Statement::Exit,
    ];
    let CodeOutput { code, .. } = transpile(input, None).unwrap();
    assert_eq!(unbleach(code), "sssttsssttntnstnnn");
}

#[test]
fn mod_heap_allocation() {
    let input = vec![
        Statement::IntDeclaration("m".to_string()),
        Statement::Assignment("m".to_string(), Expression::Integer(11)),
        Statement::Exit,
    ];
    let CodeOutput { code, .. } = transpile(input, None).unwrap();
    assert_eq!(unbleach(code), "ssststtnssssnsntttsnnn");
}

#[test]
fn mod_print_from_heap() {
    let input = vec![
        Statement::IntDeclaration("m".to_string()),
        Statement::Assignment("m".to_string(), Expression::Integer(11)),
        Statement::Call(
            "print".to_string(),
            vec![Expression::Variable("m".to_string())],
        ),
        Statement::Exit,
    ];
    let CodeOutput { code, .. } = transpile(input, None).unwrap();
    assert_eq!(unbleach(code), "ssststtnssssnsntttsssssnttttnstnnn");
}

#[test]
fn mod_while_less_than() {
    let CodeOutput { code, .. } = transpile(while_program(), None).unwrap();
    assert_eq!(
        unbleach(code),
        "ssstsssnssssnsntttsnssnssssntttssststtntsstntttnnsntsnnsstnssssnttttnstssssntttssstntsssssssnsntttsnsnnnsstsnnnn"
    );
}

#[test]
fn string_capacity_zero_is_rejected_without_code() {
    let input = vec![
        Statement::StringDeclaration("a".to_string(), 0),
        Statement::Exit,
    ];
    let result = transpile(input, None);
    assert!(matches!(result, Err(LoweringError::InvalidStringCapacity)));
}

#[test]
fn unknown_builtin_is_rejected_without_code() {
    let input = vec![
        Statement::Call("launch".to_string(), vec![Expression::Integer(1)]),
        Statement::Exit,
    ];
    let result = transpile(input, None);
    assert!(matches!(result, Err(LoweringError::UnknownBuiltin)));
}

#[test]
fn undeclared_variable_is_rejected() {
    let input = vec![Statement::Assignment(
        "m".to_string(),
        Expression::Integer(1),
    )];
    assert!(matches!(
        transpile(input, None),
        Err(LoweringError::UndeclaredVariable)
    ));
}

#[test]
fn assignment_from_variable_is_unsupported() {
    let input = vec![
        Statement::IntDeclaration("m".to_string()),
        Statement::IntDeclaration("n".to_string()),
        Statement::Assignment("m".to_string(), Expression::Variable("n".to_string())),
    ];
    assert!(matches!(
        transpile(input, None),
        Err(LoweringError::UnsupportedExpression)
    ));
}

#[test]
fn comparison_outside_guard_is_unsupported() {
    let input = vec![
        Statement::IntDeclaration("m".to_string()),
        Statement::Assignment(
            "m".to_string(),
            Expression::BinaryOp {
                operator: Operation::CompareEquals,
                left: Box::new(Expression::Integer(1)),
                right: Box::new(Expression::Integer(2)),
            },
        ),
    ];
    assert!(matches!(
        transpile(input, None),
        Err(LoweringError::UnsupportedOperator(
            OperatorContext::Expression
        ))
    ));
}

#[test]
fn arithmetic_guard_operator_is_unsupported() {
    let input = vec![Statement::WhileLoop {
        condition: Box::new(Expression::BinaryOp {
            operator: Operation::Add,
            left: Box::new(Expression::Integer(1)),
            right: Box::new(Expression::Integer(2)),
        }),
        body: Box::new(Statement::Block(vec![])),
    }];
    assert!(matches!(
        transpile(input, None),
        Err(LoweringError::UnsupportedOperator(
            OperatorContext::Condition
        ))
    ));
}

#[test]
fn guard_must_be_a_comparison() {
    let input = vec![Statement::WhileLoop {
        condition: Box::new(Expression::Integer(1)),
        body: Box::new(Statement::Block(vec![])),
    }];
    assert!(matches!(
        transpile(input, None),
        Err(LoweringError::UnsupportedCondition)
    ));
}

#[test]
fn loop_body_must_be_a_block() {
    let input = vec![Statement::WhileLoop {
        condition: Box::new(Expression::BinaryOp {
            operator: Operation::CompareEquals,
            left: Box::new(Expression::Integer(1)),
            right: Box::new(Expression::Integer(1)),
        }),
        body: Box::new(Statement::Exit),
    }];
    assert!(matches!(
        transpile(input, None),
        Err(LoweringError::UnsupportedBodyShape)
    ));
}

#[test]
fn read_target_must_be_a_variable() {
    let input = vec![Statement::Call(
        "read".to_string(),
        vec![Expression::Integer(3)],
    )];
    assert!(matches!(
        transpile(input, None),
        Err(LoweringError::UnsupportedArgument)
    ));
}

#[test]
fn print_needs_an_argument() {
    let input = vec![Statement::Call("print".to_string(), vec![])];
    assert!(matches!(
        transpile(input, None),
        Err(LoweringError::UnsupportedArgument)
    ));
}

#[test]
fn concat_needs_string_variables() {
    let input = vec![
        Statement::IntDeclaration("m".to_string()),
        Statement::StringDeclaration("a".to_string(), 4),
        Statement::Call(
            "concat".to_string(),
            vec![
                Expression::Variable("m".to_string()),
                Expression::Variable("a".to_string()),
            ],
        ),
    ];
    assert!(matches!(
        transpile(input, None),
        Err(LoweringError::UnsupportedType)
    ));
}

#[test]
fn statements_after_exit_are_still_lowered() {
    let input = vec![
        Statement::Exit,
        Statement::Call("print".to_string(), vec![Expression::Integer(99)]),
    ];
    let CodeOutput { code, .. } = transpile(input, None).unwrap();
    assert_eq!(unbleach(code), "nnnsssttsssttntnst");
}

#[test]
fn trace_and_code_stay_in_lockstep() {
    let input = vec![
        Statement::Call("print".to_string(), vec![Expression::Integer(99)]),
        Statement::Exit,
    ];
    let CodeOutput { code, debug_code } = transpile(input, None).unwrap();
    assert_eq!(unbleach(code), "sssttsssttntnstnnn");
    assert_eq!(debug_code, "push 99\nprint_stack_top_as_number\nexit\n");
}

#[test]
fn lowering_can_continue_from_a_given_state() {
    let mut state = State::new();
    let _ = state
        .heap_allocation_map
        .allocate("first".to_string(), whitespace_compiler::transpiler::VariableType::Int)
        .unwrap();
    let input = vec![
        Statement::IntDeclaration("m".to_string()),
        Statement::Assignment("m".to_string(), Expression::Integer(11)),
        Statement::Exit,
    ];
    let CodeOutput { code, .. } = transpile(input, Some(state)).unwrap();
    // m now lives at cell 4, after the variable the given state already held
    assert_eq!(unbleach(code), "ssststtnssstssnsntttsnnn");
}
