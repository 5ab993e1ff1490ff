use std::collections::HashMap;

use whitespace_compiler::ast::Expression;
use whitespace_compiler::ast::Operation;
use whitespace_compiler::ast::Statement;
use whitespace_compiler::specs::whitespace::ArithmeticOperations;
use whitespace_compiler::specs::whitespace::FlowControlOperations;
use whitespace_compiler::specs::whitespace::HeapOperations;
use whitespace_compiler::specs::whitespace::IOOperations;
use whitespace_compiler::specs::whitespace::StackOperations;
use whitespace_compiler::specs::whitespace::IMP;
use whitespace_compiler::transpiler::lower_program;
use whitespace_compiler::transpiler::state::State;

/// A reference interpreter for the canonical instruction list: an operand
/// stack, a linear heap, and collected output bytes.
struct Machine {
    stack: Vec<i64>,
    heap: HashMap<i64, i64>,
    output: Vec<u8>,
}

fn run(code: &[IMP]) -> Machine {
    let mut labels: HashMap<i32, usize> = HashMap::new();
    for (pc, instr) in code.iter().enumerate() {
        if let IMP::FlowControl(FlowControlOperations::SetLabel(l)) = instr {
            labels.insert(*l, pc);
        }
    }
    let mut m = Machine {
        stack: Vec::new(),
        heap: HashMap::new(),
        output: Vec::new(),
    };
    let mut pc: usize = 0;
    let mut steps: usize = 0;
    while pc < code.len() {
        steps += 1;
        assert!(steps < 1_000_000, "runaway program");
        match &code[pc] {
            IMP::Stack(op) => match op {
                StackOperations::PushNumber(v) => m.stack.push(*v as i64),
                StackOperations::Duplicate => {
                    let top = *m.stack.last().unwrap();
                    m.stack.push(top);
                }
                StackOperations::CopyNth(n) => {
                    let idx = m.stack.len() - 1 - *n as usize;
                    let v = m.stack[idx];
                    m.stack.push(v);
                }
                StackOperations::Swap => {
                    let a = m.stack.pop().unwrap();
                    let b = m.stack.pop().unwrap();
                    m.stack.push(a);
                    m.stack.push(b);
                }
                StackOperations::Discard => {
                    m.stack.pop().unwrap();
                }
                StackOperations::Slide(n) => {
                    let top = m.stack.pop().unwrap();
                    for _ in 0..*n {
                        m.stack.pop().unwrap();
                    }
                    m.stack.push(top);
                }
            },
            IMP::Arithmetic(op) => {
                let right = m.stack.pop().unwrap();
                let left = m.stack.pop().unwrap();
                let value = match op {
                    ArithmeticOperations::Add => left + right,
                    ArithmeticOperations::Subtract => left - right,
                    ArithmeticOperations::Multiply => left * right,
                    ArithmeticOperations::DivideInteger => left / right,
                    ArithmeticOperations::Modulo => left % right,
                };
                m.stack.push(value);
            }
            IMP::Heap(op) => match op {
                HeapOperations::Store => {
                    let value = m.stack.pop().unwrap();
                    let addr = m.stack.pop().unwrap();
                    m.heap.insert(addr, value);
                }
                HeapOperations::Retrieve => {
                    let addr = m.stack.pop().unwrap();
                    let value = *m.heap.get(&addr).unwrap_or(&0);
                    m.stack.push(value);
                }
            },
            IMP::IO(op) => match op {
                IOOperations::PrintAsChar => {
                    let v = m.stack.pop().unwrap();
                    m.output.push(v as u8);
                }
                IOOperations::PrintAsNumber => {
                    let v = m.stack.pop().unwrap();
                    m.output.extend_from_slice(v.to_string().as_bytes());
                }
                IOOperations::ReadAsChar | IOOperations::ReadAsNumber => {
                    panic!("no input wired up");
                }
            },
            IMP::FlowControl(op) => match op {
                FlowControlOperations::SetLabel(_) => {}
                FlowControlOperations::Jump(l) => {
                    pc = labels[l];
                }
                FlowControlOperations::JumpIfZero(l) => {
                    if m.stack.pop().unwrap() == 0 {
                        pc = labels[l];
                    }
                }
                FlowControlOperations::JumpIfNegative(l) => {
                    if m.stack.pop().unwrap() < 0 {
                        pc = labels[l];
                    }
                }
                FlowControlOperations::Exit => break,
            },
        }
        pc += 1;
    }
    m
}

fn lower(program: Vec<Statement>) -> Vec<IMP> {
    let mut state = State::new();
    lower_program(&program, &mut state).unwrap()
}

#[test]
fn assignment_lowers_to_the_documented_sequence() {
    let program = vec![
        Statement::IntDeclaration("m".to_string()),
        Statement::Assignment("m".to_string(), Expression::Integer(11)),
        Statement::Call(
            "print".to_string(),
            vec![Expression::Variable("m".to_string())],
        ),
        Statement::Exit,
    ];
    let code = lower(program);
    let expected = vec![
        IMP::Stack(StackOperations::PushNumber(11)),
        IMP::Stack(StackOperations::PushNumber(0)),
        IMP::Stack(StackOperations::Swap),
        IMP::Heap(HeapOperations::Store),
        IMP::Stack(StackOperations::PushNumber(0)),
        IMP::Heap(HeapOperations::Retrieve),
        IMP::IO(IOOperations::PrintAsNumber),
        IMP::FlowControl(FlowControlOperations::Exit),
    ];
    assert_eq!(code, expected);
}

#[test]
fn printing_a_variable_prints_its_assigned_value() {
    let through_heap = lower(vec![
        Statement::IntDeclaration("m".to_string()),
        Statement::Assignment("m".to_string(), Expression::Integer(11)),
        Statement::Call(
            "print".to_string(),
            vec![Expression::Variable("m".to_string())],
        ),
        Statement::Exit,
    ]);
    let direct = lower(vec![
        Statement::Call("print".to_string(), vec![Expression::Integer(11)]),
        Statement::Exit,
    ]);
    assert_eq!(run(&through_heap).output, run(&direct).output);
    assert_eq!(run(&direct).output, b"11");
}

#[test]
fn three_plus_four_times_two_prints_fourteen() {
    let program = vec![Statement::Call(
        "print".to_string(),
        vec![Expression::BinaryOp {
            operator: Operation::Mul,
            left: Box::new(Expression::BinaryOp {
                operator: Operation::Add,
                left: Box::new(Expression::Integer(3)),
                right: Box::new(Expression::Integer(4)),
            }),
            right: Box::new(Expression::Integer(2)),
        }],
    ), Statement::Exit];
    assert_eq!(run(&lower(program)).output, b"14");
}

#[test]
fn while_loop_runs_until_guard_fails() {
    let program = vec![
        Statement::IntDeclaration("m".to_string()),
        Statement::Assignment("m".to_string(), Expression::Integer(8)),
        Statement::WhileLoop {
            condition: Box::new(Expression::BinaryOp {
                operator: Operation::CompareLessThan,
                left: Box::new(Expression::Variable("m".to_string())),
                right: Box::new(Expression::Integer(11)),
            }),
            body: Box::new(Statement::Block(vec![
                Statement::Call(
                    "print".to_string(),
                    vec![Expression::Variable("m".to_string())],
                ),
                Statement::Assignment(
                    "m".to_string(),
                    Expression::BinaryOp {
                        operator: Operation::Add,
                        left: Box::new(Expression::Variable("m".to_string())),
                        right: Box::new(Expression::Integer(1)),
                    },
                ),
            ])),
        },
        Statement::Exit,
    ];
    assert_eq!(run(&lower(program)).output, b"8910");
}

#[test]
fn while_loop_emits_three_fresh_labels_and_two_jumps() {
    let program = vec![
        Statement::IntDeclaration("m".to_string()),
        Statement::Assignment("m".to_string(), Expression::Integer(0)),
        Statement::WhileLoop {
            condition: Box::new(Expression::BinaryOp {
                operator: Operation::CompareEquals,
                left: Box::new(Expression::Variable("m".to_string())),
                right: Box::new(Expression::Integer(0)),
            }),
            body: Box::new(Statement::Block(vec![Statement::Assignment(
                "m".to_string(),
                Expression::BinaryOp {
                    operator: Operation::Add,
                    left: Box::new(Expression::Variable("m".to_string())),
                    right: Box::new(Expression::Integer(1)),
                },
            )])),
        },
        Statement::Exit,
    ];
    let code = lower(program);
    let mut set_labels: Vec<i32> = Vec::new();
    let mut jumps: Vec<i32> = Vec::new();
    for instr in &code {
        match instr {
            IMP::FlowControl(FlowControlOperations::SetLabel(l)) => set_labels.push(*l),
            IMP::FlowControl(FlowControlOperations::Jump(l)) => jumps.push(*l),
            _ => {}
        }
    }
    // exactly three labels, each placed once, all distinct
    assert_eq!(set_labels.len(), 3);
    assert_eq!(set_labels, vec![0, 1, 2]);
    // exactly one jump past the loop and one jump back to the guard
    assert_eq!(jumps.len(), 2);
    assert_eq!(jumps.iter().filter(|l| **l == 2).count(), 1);
    assert_eq!(jumps.iter().filter(|l| **l == 0).count(), 1);
    // the loop ends by placing its end label, right after the jump back
    assert!(matches!(
        code[code.len() - 1],
        IMP::FlowControl(FlowControlOperations::Exit)
    ));
    assert!(matches!(
        code[code.len() - 2],
        IMP::FlowControl(FlowControlOperations::SetLabel(2))
    ));
    assert!(matches!(
        code[code.len() - 3],
        IMP::FlowControl(FlowControlOperations::Jump(0))
    ));
}

#[test]
fn concat_writes_source_after_target_with_terminator() {
    let program = vec![
        Statement::StringDeclaration("a".to_string(), 10),
        Statement::Assignment("a".to_string(), Expression::Literal("foo".to_string())),
        Statement::StringDeclaration("b".to_string(), 10),
        Statement::Assignment("b".to_string(), Expression::Literal("bar".to_string())),
        Statement::Call(
            "concat".to_string(),
            vec![
                Expression::Variable("a".to_string()),
                Expression::Variable("b".to_string()),
            ],
        ),
        Statement::Exit,
    ];
    let m = run(&lower(program));
    let cells: Vec<i64> = (0..7).map(|a| *m.heap.get(&a).unwrap_or(&0)).collect();
    assert_eq!(
        cells,
        vec![
            'f' as i64, 'o' as i64, 'o' as i64, 'b' as i64, 'a' as i64, 'r' as i64, 0
        ]
    );
    // the machine's stack is clean again after the routine
    assert!(m.stack.is_empty());
}

#[test]
fn printing_a_string_variable_walks_it_to_the_terminator() {
    let program = vec![
        Statement::StringDeclaration("a".to_string(), 8),
        Statement::Assignment("a".to_string(), Expression::Literal("hey".to_string())),
        Statement::Call(
            "print".to_string(),
            vec![Expression::Variable("a".to_string())],
        ),
        Statement::Exit,
    ];
    assert_eq!(run(&lower(program)).output, b"hey");
}

#[test]
fn read_lowers_to_the_documented_sequences() {
    let int_read = lower(vec![
        Statement::IntDeclaration("m".to_string()),
        Statement::Call(
            "read".to_string(),
            vec![Expression::Variable("m".to_string())],
        ),
        Statement::Exit,
    ]);
    let expected = vec![
        IMP::Stack(StackOperations::PushNumber(0)),
        IMP::IO(IOOperations::ReadAsNumber),
        IMP::FlowControl(FlowControlOperations::Exit),
    ];
    assert_eq!(int_read, expected);

    let string_read = lower(vec![
        Statement::StringDeclaration("a".to_string(), 4),
        Statement::Call(
            "read".to_string(),
            vec![Expression::Variable("a".to_string())],
        ),
        Statement::Exit,
    ]);
    // the runtime loop reads one character per turn until the newline,
    // then overwrites the newline cell with the terminator
    assert!(matches!(
        string_read[0],
        IMP::Stack(StackOperations::PushNumber(0))
    ));
    assert!(matches!(
        string_read[1],
        IMP::FlowControl(FlowControlOperations::SetLabel(0))
    ));
    assert!(string_read
        .iter()
        .any(|i| matches!(i, IMP::IO(IOOperations::ReadAsChar))));
    assert!(matches!(
        string_read[string_read.len() - 2],
        IMP::Heap(HeapOperations::Store)
    ));
}
