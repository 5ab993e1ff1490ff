//! The target machine's text encoding of numbers and labels, and the
//! instruction set with its bit-exact encoding.
//!
//! A number is written as a sign cell (space for non-negative, tab for
//! negative), the magnitude in big-endian binary with space for 0 and tab
//! for 1 (a single space when the magnitude is zero), and a terminating
//! newline.  A label is the magnitude bits alone followed by a newline.

use vstd::prelude::*;
use vstd::string::*;
use crate::transpiler::CodeOutput;
use crate::util::decimal_string;
use crate::util::spec_decimal;

verus! {

/// Big-endian binary digits of `n`: space for a 0 bit, tab for a 1 bit.
/// Zero has no digits.
pub open spec fn spec_bits(n: nat) -> Seq<char>
    decreases n,
{
    if n == 0 {
        Seq::empty()
    } else {
        spec_bits(n / 2).push(if n % 2 == 1 { '\t' } else { ' ' })
    }
}

pub open spec fn spec_abs(n: int) -> nat {
    if n < 0 {
        (-n) as nat
    } else {
        n as nat
    }
}

/// The full text encoding of a numeric operand.
pub open spec fn spec_encode_number(n: int) -> Seq<char> {
    (if n < 0 {
        seq!['\t']
    } else {
        seq![' ']
    }) + (if spec_abs(n) == 0 {
        seq![' ']
    } else {
        spec_bits(spec_abs(n))
    }) + seq!['\n']
}

/// The text encoding of a label operand: no sign cell, and a label that is
/// not positive has no digit cells at all.
pub open spec fn spec_label(n: int) -> Seq<char> {
    (if n <= 0 {
        Seq::<char>::empty()
    } else {
        spec_bits(n as nat)
    }) + seq!['\n']
}

pub open spec fn is_bit(c: char) -> bool {
    c == ' ' || c == '\t'
}

pub open spec fn all_bits(s: Seq<char>) -> bool {
    forall|i: int| 0 <= i < s.len() ==> is_bit(s[i])
}

/// The value of a big-endian digit sequence; any character that is not a
/// tab counts as a 0 bit.
pub open spec fn spec_bits_value(s: Seq<char>) -> int
    decreases s.len(),
{
    if s.len() == 0 {
        0
    } else {
        2 * spec_bits_value(s.drop_last()) + (if s.last() == '\t' {
            1int
        } else {
            0int
        })
    }
}

/// The decoding of a number encoding: `Some` exactly on well-formed
/// encodings whose value is representable.
pub open spec fn spec_decode(s: Seq<char>) -> Option<i32> {
    if s.len() >= 3 && is_bit(s[0]) && s.last() == '\n' && all_bits(
        s.subrange(1, s.len() - 1),
    ) && spec_bits_value(s.subrange(1, s.len() - 1)) <= i32::MAX as int {
        if s[0] == '\t' {
            Some((-spec_bits_value(s.subrange(1, s.len() - 1))) as i32)
        } else {
            Some(spec_bits_value(s.subrange(1, s.len() - 1)) as i32)
        }
    } else {
        None
    }
}

pub proof fn lemma_bits_value_nonneg(s: Seq<char>)
    ensures
        spec_bits_value(s) >= 0,
    decreases s.len(),
{
    if s.len() > 0 {
        lemma_bits_value_nonneg(s.drop_last());
    }
}

pub proof fn lemma_bits_all_bits(n: nat)
    ensures
        all_bits(spec_bits(n)),
        n > 0 ==> spec_bits(n).len() >= 1,
    decreases n,
{
    if n > 0 {
        lemma_bits_all_bits(n / 2);
        let tail = if n % 2 == 1 {
            '\t'
        } else {
            ' '
        };
        assert forall|i: int| 0 <= i < spec_bits(n).len() implies is_bit(spec_bits(n)[i]) by {
            if i < spec_bits(n).len() - 1 {
                assert(spec_bits(n)[i] == spec_bits(n / 2)[i]);
            } else {
                assert(spec_bits(n)[i] == tail);
            }
        }
    }
}

pub proof fn lemma_bits_value_of_bits(n: nat)
    ensures
        spec_bits_value(spec_bits(n)) == n,
    decreases n,
{
    if n > 0 {
        lemma_bits_value_of_bits(n / 2);
        let tail = if n % 2 == 1 {
            '\t'
        } else {
            ' '
        };
        assert(spec_bits(n).drop_last() =~= spec_bits(n / 2));
        assert(spec_bits(n).last() == tail);
    }
}

/// The number encoding is a bijection on the representable integers:
/// decoding the encoding of any `i32` other than the smallest gives back
/// exactly that integer.
pub proof fn lemma_number_round_trip(n: i32)
    requires
        n != i32::MIN,
    ensures
        spec_decode(spec_encode_number(n as int)) == Some(n),
{
    let s = spec_encode_number(n as int);
    let m = spec_abs(n as int);
    let sign: Seq<char> = if n < 0 {
        seq!['\t']
    } else {
        seq![' ']
    };
    let mid: Seq<char> = if m == 0 {
        seq![' ']
    } else {
        spec_bits(m)
    };
    lemma_bits_all_bits(m);
    assert(s.len() == 1 + mid.len() + 1);
    assert(s.last() == '\n');
    assert(s[0] == sign[0]);
    assert(s.subrange(1, s.len() - 1) =~= mid);
    if m == 0 {
        assert(spec_bits_value(mid) == 2 * spec_bits_value(mid.drop_last()));
        assert(mid.drop_last() =~= Seq::<char>::empty());
        assert(spec_bits_value(mid) == 0);
    } else {
        lemma_bits_value_of_bits(m);
    }
    assert(spec_bits_value(mid) == m);
}

/// Appends the big-endian binary digits of `n` (nothing when `n` is zero).
fn push_bits(s: &mut String, n: i32)
    requires
        n >= 0,
    ensures
        final(s)@ == old(s)@ + spec_bits(n as nat),
    decreases n,
{
    proof {
        reveal_strlit("\t");
        reveal_strlit(" ");
    }
    if n > 0 {
        push_bits(s, n / 2);
        if n % 2 == 1 {
            s.append("\t");
        } else {
            s.append(" ");
        }
        assert(s@ =~= old(s)@ + spec_bits(n as nat));
    } else {
        assert(s@ =~= old(s)@ + spec_bits(n as nat));
    }
}

/// The text encoding of a numeric operand: sign cell, magnitude bits,
/// terminating newline.
pub fn encode_number(number: i32) -> (r: String)
    requires
        number != i32::MIN,
    ensures
        r@ == spec_encode_number(number as int),
{
    proof {
        reveal_strlit("\t");
        reveal_strlit(" ");
        reveal_strlit("\n");
    }
    let mut result = String::new();
    if number < 0 {
        result.append("\t");
    } else {
        result.append(" ");
    }
    let magnitude: i32 = if number < 0 {
        -number
    } else {
        number
    };
    if magnitude == 0 {
        result.append(" ");
    }
    push_bits(&mut result, magnitude);
    result.append("\n");
    assert(result@ =~= spec_encode_number(number as int));
    result
}

/// The text encoding of a label operand.
pub fn number_to_label(label: &i32) -> (r: String)
    ensures
        r@ == spec_label(*label as int),
{
    proof {
        reveal_strlit("\n");
    }
    let mut result = String::new();
    if *label > 0 {
        push_bits(&mut result, *label);
    }
    result.append("\n");
    assert(result@ =~= spec_label(*label as int));
    result
}

/// Decodes a number encoding; returns `None` on any string that is not the
/// exact encoding of a representable value.
pub fn decode_number(s: &str) -> (r: Option<i32>)
    ensures
        r == spec_decode(s@),
{
    let n = s.unicode_len();
    if n < 3 {
        return None;
    }
    let sign = s.get_char(0);
    if !(sign == ' ' || sign == '\t') {
        return None;
    }
    if s.get_char(n - 1) != '\n' {
        return None;
    }
    let ghost digits = s@.subrange(1, n as int - 1);
    let mut acc: u64 = 0;
    let mut i: usize = 1;
    while i < n - 1
        invariant
            1 <= i <= n - 1,
            n == s@.len(),
            3 <= n,
            all_bits(s@.subrange(1, i as int)),
            acc == spec_bits_value(s@.subrange(1, i as int)),
            acc <= i32::MAX as u64,
        decreases n - i,
    {
        let c = s.get_char(i);
        if !(c == ' ' || c == '\t') {
            assert(!is_bit(s@.subrange(1, n as int - 1)[i - 1]));
            return None;
        }
        let b: u64 = if c == '\t' {
            1
        } else {
            0
        };
        proof {
            assert(s@.subrange(1, i + 1 as int).drop_last() =~= s@.subrange(1, i as int));
            assert(s@.subrange(1, i + 1 as int).last() == c);
        }
        acc = 2 * acc + b;
        i = i + 1;
        if acc > i32::MAX as u64 {
            proof {
                lemma_bits_value_grows(s@, i as int, n as int - 1);
            }
            return None;
        }
    }
    assert(s@.subrange(1, i as int) =~= digits);
    let v = acc as i32;
    if sign == '\t' {
        return Some(-v);
    }
    Some(v)
}

/// The value of a digit prefix never exceeds the value of a longer prefix
/// of the same string.
proof fn lemma_bits_value_grows(s: Seq<char>, i: int, j: int)
    requires
        1 <= i <= j <= s.len(),
    ensures
        spec_bits_value(s.subrange(1, i)) <= spec_bits_value(s.subrange(1, j)),
    decreases j - i,
{
    if i < j {
        lemma_bits_value_grows(s, i, j - 1);
        lemma_bits_value_nonneg(s.subrange(1, j - 1));
        assert(s.subrange(1, j).drop_last() =~= s.subrange(1, j - 1));
    }
}

/// Operations on the operand stack.
#[derive(Clone, Copy, Debug, PartialEq, Eq, Structural)]
pub enum StackOperations {
    PushNumber(i32),
    Duplicate,
    CopyNth(i32),
    Swap,
    Discard,
    Slide(i32),
}

/// Arithmetic on the two topmost stack cells.
#[derive(Clone, Copy, Debug, PartialEq, Eq, Structural)]
pub enum ArithmeticOperations {
    Add,
    Subtract,
    Multiply,
    DivideInteger,
    Modulo,
}

/// Transfers between the stack and the heap.
#[derive(Clone, Copy, Debug, PartialEq, Eq, Structural)]
pub enum HeapOperations {
    Store,
    Retrieve,
}

/// Input and output of the cell on top of the stack.
#[derive(Clone, Copy, Debug, PartialEq, Eq, Structural)]
pub enum IOOperations {
    PrintAsChar,
    PrintAsNumber,
    ReadAsChar,
    ReadAsNumber,
}

/// Label placement, jumps and program end.
#[derive(Clone, Copy, Debug, PartialEq, Eq, Structural)]
pub enum FlowControlOperations {
    SetLabel(i32),
    Jump(i32),
    JumpIfZero(i32),
    JumpIfNegative(i32),
    Exit,
}

/// One instruction of the target machine, grouped by instruction family.
#[derive(Clone, Copy, Debug, PartialEq, Eq, Structural)]
pub enum IMP {
    Stack(StackOperations),
    Arithmetic(ArithmeticOperations),
    Heap(HeapOperations),
    FlowControl(FlowControlOperations),
    IO(IOOperations),
}

/// A numeric operand the encoders can render: every value but the one
/// whose magnitude is not representable.
pub open spec fn operand_ok(v: i32) -> bool {
    v != i32::MIN
}

pub open spec fn stack_ok(op: StackOperations) -> bool {
    match op {
        StackOperations::PushNumber(v) => operand_ok(v),
        StackOperations::CopyNth(n) => operand_ok(n),
        StackOperations::Slide(n) => operand_ok(n),
        _ => true,
    }
}

pub open spec fn flow_ok(op: FlowControlOperations) -> bool {
    match op {
        FlowControlOperations::SetLabel(l) => operand_ok(l),
        FlowControlOperations::Jump(l) => operand_ok(l),
        FlowControlOperations::JumpIfZero(l) => operand_ok(l),
        FlowControlOperations::JumpIfNegative(l) => operand_ok(l),
        FlowControlOperations::Exit => true,
    }
}

pub open spec fn instr_ok(i: IMP) -> bool {
    match i {
        IMP::Stack(op) => stack_ok(op),
        IMP::FlowControl(op) => flow_ok(op),
        _ => true,
    }
}

/// The machine text of a stack instruction.
pub open spec fn spec_stack_code(op: StackOperations) -> Seq<char> {
    match op {
        StackOperations::PushNumber(v) => "  "@ + spec_encode_number(v as int),
        StackOperations::Duplicate => " \n "@,
        StackOperations::CopyNth(n) => " \t "@ + spec_encode_number(n as int),
        StackOperations::Swap => " \n\t"@,
        StackOperations::Discard => " \n\n"@,
        StackOperations::Slide(n) => " \t\n"@ + spec_encode_number(n as int),
    }
}

/// The mnemonic of a stack instruction.
pub open spec fn spec_stack_debug(op: StackOperations) -> Seq<char> {
    match op {
        StackOperations::PushNumber(v) => "push "@ + spec_decimal(v as int),
        StackOperations::Duplicate => "duplicate"@,
        StackOperations::CopyNth(n) => "copy "@ + spec_decimal(n as int),
        StackOperations::Swap => "swap"@,
        StackOperations::Discard => "discard"@,
        StackOperations::Slide(n) => "slide "@ + spec_decimal(n as int),
    }
}

/// The machine text of an arithmetic instruction.
pub open spec fn spec_arith_code(op: ArithmeticOperations) -> Seq<char> {
    match op {
        ArithmeticOperations::Add => "\t   "@,
        ArithmeticOperations::Subtract => "\t  \t"@,
        ArithmeticOperations::Multiply => "\t  \n"@,
        ArithmeticOperations::DivideInteger => "\t \t "@,
        ArithmeticOperations::Modulo => "\t \t\t"@,
    }
}

pub open spec fn spec_arith_debug(op: ArithmeticOperations) -> Seq<char> {
    match op {
        ArithmeticOperations::Add => "add"@,
        ArithmeticOperations::Subtract => "subtract"@,
        ArithmeticOperations::Multiply => "multiply"@,
        ArithmeticOperations::DivideInteger => "divide"@,
        ArithmeticOperations::Modulo => "modulo"@,
    }
}

/// The machine text of a heap instruction.
pub open spec fn spec_heap_code(op: HeapOperations) -> Seq<char> {
    match op {
        HeapOperations::Store => "\t\t "@,
        HeapOperations::Retrieve => "\t\t\t"@,
    }
}

pub open spec fn spec_heap_debug(op: HeapOperations) -> Seq<char> {
    match op {
        HeapOperations::Store => "store"@,
        HeapOperations::Retrieve => "retrieve"@,
    }
}

/// The machine text of an input or output instruction.
pub open spec fn spec_io_code(op: IOOperations) -> Seq<char> {
    match op {
        IOOperations::PrintAsChar => "\t\n  "@,
        IOOperations::PrintAsNumber => "\t\n \t"@,
        IOOperations::ReadAsChar => "\t\n\t "@,
        IOOperations::ReadAsNumber => "\t\n\t\t"@,
    }
}

pub open spec fn spec_io_debug(op: IOOperations) -> Seq<char> {
    match op {
        IOOperations::PrintAsChar => "print_stack_top_as_char"@,
        IOOperations::PrintAsNumber => "print_stack_top_as_number"@,
        IOOperations::ReadAsChar => "read_stack_top_as_char"@,
        IOOperations::ReadAsNumber => "read_stack_top_as_number"@,
    }
}

/// The machine text of a flow-control instruction.
pub open spec fn spec_flow_code(op: FlowControlOperations) -> Seq<char> {
    match op {
        FlowControlOperations::SetLabel(l) => "\n  "@ + spec_label(l as int),
        FlowControlOperations::Jump(l) => "\n \n"@ + spec_label(l as int),
        FlowControlOperations::JumpIfZero(l) => "\n\t "@ + spec_label(l as int),
        FlowControlOperations::JumpIfNegative(l) => "\n\t\t"@ + spec_label(l as int),
        FlowControlOperations::Exit => "\n\n\n"@,
    }
}

pub open spec fn spec_flow_debug(op: FlowControlOperations) -> Seq<char> {
    match op {
        FlowControlOperations::SetLabel(l) => spec_decimal(l as int) + ":"@,
        FlowControlOperations::Jump(l) => "jump "@ + spec_decimal(l as int),
        FlowControlOperations::JumpIfZero(l) => "jump_if_zero "@ + spec_decimal(l as int),
        FlowControlOperations::JumpIfNegative(l) => "jump_if_negative "@ + spec_decimal(l as int),
        FlowControlOperations::Exit => "exit"@,
    }
}

/// The machine text of an instruction: the family prefix followed by the
/// operation and its operand.
pub open spec fn spec_instr_code(i: IMP) -> Seq<char> {
    match i {
        IMP::Stack(op) => spec_stack_code(op),
        IMP::Arithmetic(op) => spec_arith_code(op),
        IMP::Heap(op) => spec_heap_code(op),
        IMP::FlowControl(op) => spec_flow_code(op),
        IMP::IO(op) => spec_io_code(op),
    }
}

/// The mnemonic of an instruction, one line of the trace.
pub open spec fn spec_instr_debug(i: IMP) -> Seq<char> {
    match i {
        IMP::Stack(op) => spec_stack_debug(op),
        IMP::Arithmetic(op) => spec_arith_debug(op),
        IMP::Heap(op) => spec_heap_debug(op),
        IMP::FlowControl(op) => spec_flow_debug(op),
        IMP::IO(op) => spec_io_debug(op),
    }
}

impl StackOperations {
    pub fn gen(&self) -> (r: CodeOutput)
        requires
            stack_ok(*self),
        ensures
            r.code@ == spec_stack_code(*self),
            r.debug_code@ == spec_stack_debug(*self),
    {
        match self {
            StackOperations::PushNumber(value) => {
                let mut code = String::from_str("  ");
                code.append(encode_number(*value).as_str());
                let mut debug_code = String::from_str("push ");
                debug_code.append(decimal_string(*value).as_str());
                CodeOutput { code, debug_code }
            },
            StackOperations::Duplicate => CodeOutput {
                code: String::from_str(" \n "),
                debug_code: String::from_str("duplicate"),
            },
            StackOperations::CopyNth(n) => {
                let mut code = String::from_str(" \t ");
                code.append(encode_number(*n).as_str());
                let mut debug_code = String::from_str("copy ");
                debug_code.append(decimal_string(*n).as_str());
                CodeOutput { code, debug_code }
            },
            StackOperations::Swap => CodeOutput {
                code: String::from_str(" \n\t"),
                debug_code: String::from_str("swap"),
            },
            StackOperations::Discard => CodeOutput {
                code: String::from_str(" \n\n"),
                debug_code: String::from_str("discard"),
            },
            StackOperations::Slide(n) => {
                let mut code = String::from_str(" \t\n");
                code.append(encode_number(*n).as_str());
                let mut debug_code = String::from_str("slide ");
                debug_code.append(decimal_string(*n).as_str());
                CodeOutput { code, debug_code }
            },
        }
    }
}

impl ArithmeticOperations {
    pub fn gen(&self) -> (r: CodeOutput)
        ensures
            r.code@ == spec_arith_code(*self),
            r.debug_code@ == spec_arith_debug(*self),
    {
        match self {
            ArithmeticOperations::Add => CodeOutput {
                code: String::from_str("\t   "),
                debug_code: String::from_str("add"),
            },
            ArithmeticOperations::Subtract => CodeOutput {
                code: String::from_str("\t  \t"),
                debug_code: String::from_str("subtract"),
            },
            ArithmeticOperations::Multiply => CodeOutput {
                code: String::from_str("\t  \n"),
                debug_code: String::from_str("multiply"),
            },
            ArithmeticOperations::DivideInteger => CodeOutput {
                code: String::from_str("\t \t "),
                debug_code: String::from_str("divide"),
            },
            ArithmeticOperations::Modulo => CodeOutput {
                code: String::from_str("\t \t\t"),
                debug_code: String::from_str("modulo"),
            },
        }
    }
}

impl HeapOperations {
    pub fn gen(&self) -> (r: CodeOutput)
        ensures
            r.code@ == spec_heap_code(*self),
            r.debug_code@ == spec_heap_debug(*self),
    {
        match self {
            HeapOperations::Store => CodeOutput {
                code: String::from_str("\t\t "),
                debug_code: String::from_str("store"),
            },
            HeapOperations::Retrieve => CodeOutput {
                code: String::from_str("\t\t\t"),
                debug_code: String::from_str("retrieve"),
            },
        }
    }
}

impl IOOperations {
    pub fn gen(&self) -> (r: CodeOutput)
        ensures
            r.code@ == spec_io_code(*self),
            r.debug_code@ == spec_io_debug(*self),
    {
        match self {
            IOOperations::PrintAsChar => CodeOutput {
                code: String::from_str("\t\n  "),
                debug_code: String::from_str("print_stack_top_as_char"),
            },
            IOOperations::PrintAsNumber => CodeOutput {
                code: String::from_str("\t\n \t"),
                debug_code: String::from_str("print_stack_top_as_number"),
            },
            IOOperations::ReadAsChar => CodeOutput {
                code: String::from_str("\t\n\t "),
                debug_code: String::from_str("read_stack_top_as_char"),
            },
            IOOperations::ReadAsNumber => CodeOutput {
                code: String::from_str("\t\n\t\t"),
                debug_code: String::from_str("read_stack_top_as_number"),
            },
        }
    }
}

impl FlowControlOperations {
    pub fn gen(&self) -> (r: CodeOutput)
        requires
            flow_ok(*self),
        ensures
            r.code@ == spec_flow_code(*self),
            r.debug_code@ == spec_flow_debug(*self),
    {
        match self {
            FlowControlOperations::SetLabel(label) => {
                let mut code = String::from_str("\n  ");
                code.append(number_to_label(label).as_str());
                let mut debug_code = decimal_string(*label);
                debug_code.append(":");
                CodeOutput { code, debug_code }
            },
            FlowControlOperations::Jump(label) => {
                let mut code = String::from_str("\n \n");
                code.append(number_to_label(label).as_str());
                let mut debug_code = String::from_str("jump ");
                debug_code.append(decimal_string(*label).as_str());
                CodeOutput { code, debug_code }
            },
            FlowControlOperations::JumpIfZero(label) => {
                let mut code = String::from_str("\n\t ");
                code.append(number_to_label(label).as_str());
                let mut debug_code = String::from_str("jump_if_zero ");
                debug_code.append(decimal_string(*label).as_str());
                CodeOutput { code, debug_code }
            },
            FlowControlOperations::JumpIfNegative(label) => {
                let mut code = String::from_str("\n\t\t");
                code.append(number_to_label(label).as_str());
                let mut debug_code = String::from_str("jump_if_negative ");
                debug_code.append(decimal_string(*label).as_str());
                CodeOutput { code, debug_code }
            },
            FlowControlOperations::Exit => CodeOutput {
                code: String::from_str("\n\n\n"),
                debug_code: String::from_str("exit"),
            },
        }
    }
}

impl IMP {
    pub fn gen(&self) -> (r: CodeOutput)
        requires
            instr_ok(*self),
        ensures
            r.code@ == spec_instr_code(*self),
            r.debug_code@ == spec_instr_debug(*self),
    {
        match self {
            IMP::Stack(operation) => operation.gen(),
            IMP::Arithmetic(operation) => operation.gen(),
            IMP::Heap(operation) => operation.gen(),
            IMP::IO(operation) => operation.gen(),
            IMP::FlowControl(operation) => operation.gen(),
        }
    }
}

/// Every numeric operand in the sequence can be rendered.
pub open spec fn all_instrs_ok(s: Seq<IMP>) -> bool {
    forall|i: int| 0 <= i < s.len() ==> instr_ok(#[trigger] s[i])
}

/// The machine text of an instruction sequence: each instruction's
/// encoding in order, with nothing in between.
pub open spec fn spec_code_all(s: Seq<IMP>) -> Seq<char>
    decreases s.len(),
{
    if s.len() == 0 {
        Seq::empty()
    } else {
        spec_code_all(s.drop_last()) + spec_instr_code(s.last())
    }
}

/// The mnemonic trace of an instruction sequence: one line per
/// instruction, in the same order as the machine text.
pub open spec fn spec_debug_all(s: Seq<IMP>) -> Seq<char>
    decreases s.len(),
{
    if s.len() == 0 {
        Seq::empty()
    } else {
        spec_debug_all(s.drop_last()) + spec_instr_debug(s.last()) + seq!['\n']
    }
}

} // verus!
