use whitespace_compiler::specs::whitespace::ArithmeticOperations;
use whitespace_compiler::specs::whitespace::FlowControlOperations;
use whitespace_compiler::specs::whitespace::HeapOperations;
use whitespace_compiler::specs::whitespace::IOOperations;
use whitespace_compiler::specs::whitespace::StackOperations;
use whitespace_compiler::specs::whitespace::IMP;
use whitespace_compiler::transpiler::state::HeapAllocation;
use whitespace_compiler::transpiler::state::State;
use whitespace_compiler::transpiler::LoweringError;
use whitespace_compiler::transpiler::VariableType;
use whitespace_compiler::util::unbleach;

#[test]
fn offsets_increase_by_declared_size_in_declaration_order() {
    let mut table = HeapAllocation::new();
    let a = table.allocate("a".to_string(), VariableType::Int).unwrap();
    let b = table.allocate("b".to_string(), VariableType::String(3)).unwrap();
    let c = table.allocate("c".to_string(), VariableType::Int).unwrap();
    assert_eq!(a, 0);
    assert_eq!(b, 4);
    assert_eq!(c, 7);
}

#[test]
fn lookup_finds_the_latest_declaration() {
    let mut table = HeapAllocation::new();
    let first = table.allocate("m".to_string(), VariableType::Int).unwrap();
    let second = table.allocate("m".to_string(), VariableType::Int).unwrap();
    assert_eq!(first, 0);
    assert_eq!(second, 4);
    let found = table.get(&"m".to_string()).unwrap();
    assert_eq!(found.offset(), 4);
    assert!(table.get(&"missing".to_string()).is_none());
}

#[test]
fn unallocatable_types_are_refused() {
    let mut table = HeapAllocation::new();
    assert!(matches!(
        table.allocate("f".to_string(), VariableType::Float),
        Err(LoweringError::UnsupportedType)
    ));
    assert!(matches!(
        table.allocate("c".to_string(), VariableType::Char),
        Err(LoweringError::UnsupportedType)
    ));
    assert!(matches!(
        table.allocate("b".to_string(), VariableType::Bool),
        Err(LoweringError::UnsupportedType)
    ));
}

#[test]
fn labels_count_up_from_zero() {
    let mut state = State::new();
    assert_eq!(state.get_label(), 0);
    assert_eq!(state.get_label(), 1);
    assert_eq!(state.get_label(), 2);
}

#[test]
fn instruction_table_is_bit_exact() {
    let cases: Vec<(IMP, &str, &str)> = vec![
        (IMP::Stack(StackOperations::PushNumber(11)), "ssststtn", "push 11"),
        (IMP::Stack(StackOperations::Duplicate), "sns", "duplicate"),
        (IMP::Stack(StackOperations::CopyNth(2)), "stsstsn", "copy 2"),
        (IMP::Stack(StackOperations::Swap), "snt", "swap"),
        (IMP::Stack(StackOperations::Discard), "snn", "discard"),
        (IMP::Stack(StackOperations::Slide(1)), "stnstn", "slide 1"),
        (IMP::Arithmetic(ArithmeticOperations::Add), "tsss", "add"),
        (IMP::Arithmetic(ArithmeticOperations::Subtract), "tsst", "subtract"),
        (IMP::Arithmetic(ArithmeticOperations::Multiply), "tssn", "multiply"),
        (IMP::Arithmetic(ArithmeticOperations::DivideInteger), "tsts", "divide"),
        (IMP::Arithmetic(ArithmeticOperations::Modulo), "tstt", "modulo"),
        (IMP::Heap(HeapOperations::Store), "tts", "store"),
        (IMP::Heap(HeapOperations::Retrieve), "ttt", "retrieve"),
        (IMP::IO(IOOperations::PrintAsChar), "tnss", "print_stack_top_as_char"),
        (IMP::IO(IOOperations::PrintAsNumber), "tnst", "print_stack_top_as_number"),
        (IMP::IO(IOOperations::ReadAsChar), "tnts", "read_stack_top_as_char"),
        (IMP::IO(IOOperations::ReadAsNumber), "tntt", "read_stack_top_as_number"),
        (IMP::FlowControl(FlowControlOperations::SetLabel(5)), "nsststn", "5:"),
        (IMP::FlowControl(FlowControlOperations::Jump(5)), "nsntstn", "jump 5"),
        (IMP::FlowControl(FlowControlOperations::JumpIfZero(5)), "ntststn", "jump_if_zero 5"),
        (
            IMP::FlowControl(FlowControlOperations::JumpIfNegative(5)),
            "ntttstn",
            "jump_if_negative 5",
        ),
        (IMP::FlowControl(FlowControlOperations::Exit), "nnn", "exit"),
    ];
    for (instr, code, debug) in cases {
        let out = instr.gen();
        assert_eq!(unbleach(out.code), code, "machine text of {:?}", instr);
        assert_eq!(out.debug_code, debug, "mnemonic of {:?}", instr);
    }
}
