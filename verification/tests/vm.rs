use opengpc::codegen::bytecode::{Instruction, Opcode, Value};
use opengpc::vm::{ArithFault, Fault, FuncProto, Output, Script, ScriptAction, TickInterval, VM};

fn ad(op: Opcode, a: u8, d: u16) -> Instruction {
    Instruction::encode_ad(op, a, d)
}

fn abc(op: Opcode, a: u8, b: u8, c: u8) -> Instruction {
    Instruction::encode_abc(op, a, b, c)
}

fn machine(code: Vec<Instruction>, constants: Vec<Value>, strings: Vec<&str>) -> VM {
    VM::new(code, constants, strings.into_iter().map(String::from).collect(), Vec::new())
}

fn func(entry: usize, arity: u8) -> FuncProto {
    FuncProto { name: None, entry, arity }
}

fn text(o: &Output) -> String {
    match o {
        Output::Text(s) => s.clone(),
        Output::Int(n) => n.to_string(),
        Output::Bool(b) => b.to_string(),
    }
}

#[test]
fn new_vm_is_fresh() {
    let vm = machine(vec![ad(Opcode::Nop, 0, 0)], vec![Value::Int(1)], vec!["x"]);
    assert!(vm.registers.iter().all(|v| *v == Value::Nil));
    assert_eq!(vm.ip, 0);
    assert!(vm.globals.is_empty());
    assert!(vm.arrays.is_empty());
    assert_eq!(vm.constants, vec![Value::Int(1)]);
    assert_eq!(vm.strings, vec!["x".to_string()]);
}

#[test]
fn run_empty_program_does_nothing() {
    let mut vm = machine(vec![], vec![], vec![]);
    let out = vm.run();
    assert!(out.is_empty());
    assert_eq!(vm.ip, 0);
}

#[test]
fn arithmetic_on_registers() {
    let mut vm = machine(
        vec![
            ad(Opcode::LoadInt, 0, 7),
            ad(Opcode::LoadInt, 1, 3),
            abc(Opcode::AddVV, 2, 0, 1),
            abc(Opcode::SubVV, 3, 0, 1),
            abc(Opcode::MulVV, 4, 0, 1),
            abc(Opcode::DivVV, 5, 0, 1),
            abc(Opcode::ModVV, 6, 0, 1),
        ],
        vec![],
        vec![],
    );
    vm.run();
    assert_eq!(vm.registers[2], Value::Int(10));
    assert_eq!(vm.registers[3], Value::Int(4));
    assert_eq!(vm.registers[4], Value::Int(21));
    assert_eq!(vm.registers[5], Value::Int(2));
    assert_eq!(vm.registers[6], Value::Int(1));
    assert_eq!(vm.ip, 7);
}

#[test]
fn division_truncates_towards_zero() {
    let mut vm = machine(
        vec![
            ad(Opcode::LoadInt, 0, (-7i16) as u16),
            ad(Opcode::LoadInt, 1, 2),
            abc(Opcode::DivVV, 2, 0, 1),
            abc(Opcode::ModVV, 3, 0, 1),
        ],
        vec![],
        vec![],
    );
    vm.run();
    assert_eq!(vm.registers[0], Value::Int(-7));
    assert_eq!(vm.registers[2], Value::Int(-3));
    assert_eq!(vm.registers[3], Value::Int(-1));
}

#[test]
fn constant_operands() {
    let mut vm = machine(
        vec![
            ad(Opcode::LoadK, 0, 0),
            abc(Opcode::AddVK, 1, 0, 1),
            abc(Opcode::MulVK, 2, 0, 1),
            abc(Opcode::LtVK, 3, 0, 1),
            abc(Opcode::GteVK, 4, 0, 1),
            abc(Opcode::EqVK, 5, 0, 0),
        ],
        vec![Value::Int(100), Value::Int(-4)],
        vec![],
    );
    vm.run();
    assert_eq!(vm.registers[1], Value::Int(96));
    assert_eq!(vm.registers[2], Value::Int(-400));
    assert_eq!(vm.registers[3], Value::Bool(false));
    assert_eq!(vm.registers[4], Value::Bool(true));
    assert_eq!(vm.registers[5], Value::Bool(true));
}

#[test]
fn bitwise_and_shifts() {
    let mut vm = machine(
        vec![
            ad(Opcode::LoadInt, 0, 0b1100),
            ad(Opcode::LoadInt, 1, 0b1010),
            abc(Opcode::AndVV, 2, 0, 1),
            abc(Opcode::OrVV, 3, 0, 1),
            abc(Opcode::XorVV, 4, 0, 1),
            ad(Opcode::LoadInt, 5, 2),
            abc(Opcode::ShlVV, 6, 0, 5),
            abc(Opcode::ShrVV, 7, 0, 5),
            ad(Opcode::LoadInt, 8, (-16i16) as u16),
            abc(Opcode::SarVV, 9, 8, 5),
            abc(Opcode::BitNotV, 10, 0, 0),
            abc(Opcode::NegV, 11, 0, 0),
        ],
        vec![],
        vec![],
    );
    vm.run();
    assert_eq!(vm.registers[2], Value::Int(0b1000));
    assert_eq!(vm.registers[3], Value::Int(0b1110));
    assert_eq!(vm.registers[4], Value::Int(0b0110));
    assert_eq!(vm.registers[6], Value::Int(48));
    assert_eq!(vm.registers[7], Value::Int(3));
    assert_eq!(vm.registers[9], Value::Int(-4));
    assert_eq!(vm.registers[10], Value::Int(!12));
    assert_eq!(vm.registers[11], Value::Int(-12));
}

#[test]
fn comparisons() {
    let mut vm = machine(
        vec![
            ad(Opcode::LoadInt, 0, 1),
            ad(Opcode::LoadInt, 1, 2),
            abc(Opcode::EqVV, 2, 0, 1),
            abc(Opcode::LtVV, 3, 0, 1),
            abc(Opcode::LteVV, 4, 1, 1),
            abc(Opcode::GtVV, 5, 0, 1),
            abc(Opcode::GteVV, 6, 0, 1),
        ],
        vec![],
        vec![],
    );
    vm.run();
    assert_eq!(vm.registers[2], Value::Bool(false));
    assert_eq!(vm.registers[3], Value::Bool(true));
    assert_eq!(vm.registers[4], Value::Bool(true));
    assert_eq!(vm.registers[5], Value::Bool(false));
    assert_eq!(vm.registers[6], Value::Bool(false));
}

#[test]
fn loads_and_moves() {
    let mut vm = machine(
        vec![
            ad(Opcode::LoadInt, 0, 0xFFFF),
            ad(Opcode::LoadBool, 1, 5),
            ad(Opcode::LoadBool, 2, 0),
            ad(Opcode::LoadFunc, 3, 9),
            abc(Opcode::Move, 4, 0, 0),
            ad(Opcode::LoadNil, 0, 0),
        ],
        vec![],
        vec![],
    );
    vm.run();
    assert_eq!(vm.registers[0], Value::Nil);
    assert_eq!(vm.registers[1], Value::Bool(true));
    assert_eq!(vm.registers[2], Value::Bool(false));
    assert_eq!(vm.registers[3], Value::Func(9));
    assert_eq!(vm.registers[4], Value::Int(-1));
}

#[test]
fn step_division_by_zero_faults_and_keeps_state() {
    let mut vm = machine(
        vec![ad(Opcode::LoadInt, 0, 1), ad(Opcode::LoadInt, 1, 0), abc(Opcode::DivVV, 2, 0, 1)],
        vec![],
        vec![],
    );
    assert!(vm.step().is_ok());
    assert!(vm.step().is_ok());
    assert_eq!(vm.step(), Err(Fault::Arithmetic(ArithFault::DivByZero)));
    assert_eq!(vm.ip, 2);
    assert_eq!(vm.registers[2], Value::Nil);
}

#[test]
fn remainder_by_zero_faults() {
    let mut vm = machine(vec![abc(Opcode::ModVK, 0, 1, 0)], vec![Value::Int(0)], vec![]);
    vm.registers[1] = Value::Int(5);
    assert_eq!(vm.step(), Err(Fault::Arithmetic(ArithFault::RemByZero)));
}

#[test]
fn overflow_faults() {
    let mut vm = machine(vec![abc(Opcode::AddVK, 0, 1, 0)], vec![Value::Int(1)], vec![]);
    vm.registers[1] = Value::Int(i32::MAX);
    assert_eq!(vm.step(), Err(Fault::Arithmetic(ArithFault::AddOverflow)));

    let mut vm = machine(vec![abc(Opcode::DivVK, 0, 1, 0)], vec![Value::Int(-1)], vec![]);
    vm.registers[1] = Value::Int(i32::MIN);
    assert_eq!(vm.step(), Err(Fault::Arithmetic(ArithFault::DivOverflow)));

    let mut vm = machine(vec![abc(Opcode::NegV, 0, 1, 0)], vec![], vec![]);
    vm.registers[1] = Value::Int(i32::MIN);
    assert_eq!(vm.step(), Err(Fault::Arithmetic(ArithFault::NegOverflow)));

    let mut vm = machine(vec![abc(Opcode::ShlVK, 0, 1, 0)], vec![Value::Int(32)], vec![]);
    vm.registers[1] = Value::Int(1);
    assert_eq!(vm.step(), Err(Fault::Arithmetic(ArithFault::ShlOverflow)));

    let mut vm = machine(vec![abc(Opcode::ShrVK, 0, 1, 0)], vec![Value::Int(-1)], vec![]);
    vm.registers[1] = Value::Int(1);
    assert_eq!(vm.step(), Err(Fault::Arithmetic(ArithFault::ShrOverflow)));

    let mut vm = machine(vec![abc(Opcode::MulVV, 0, 1, 1)], vec![], vec![]);
    vm.registers[1] = Value::Int(1 << 16);
    assert_eq!(vm.step(), Err(Fault::Arithmetic(ArithFault::MulOverflow)));

    let mut vm = machine(vec![abc(Opcode::SubVK, 0, 1, 0)], vec![Value::Int(1)], vec![]);
    vm.registers[1] = Value::Int(i32::MIN);
    assert_eq!(vm.step(), Err(Fault::Arithmetic(ArithFault::SubOverflow)));

    let mut vm = machine(vec![abc(Opcode::ModVK, 0, 1, 0)], vec![Value::Int(-1)], vec![]);
    vm.registers[1] = Value::Int(i32::MIN);
    assert_eq!(vm.step(), Err(Fault::Arithmetic(ArithFault::RemOverflow)));
}

#[test]
fn unknown_opcode_faults() {
    let mut vm = machine(vec![Instruction::new(0x0000_00FE)], vec![], vec![]);
    assert_eq!(vm.step(), Err(Fault::UnknownOpcode(0xFE)));
    assert_eq!(vm.ip, 0);
}

#[test]
fn non_integer_operand_faults() {
    let mut vm = machine(vec![abc(Opcode::AddVV, 0, 1, 2)], vec![], vec![]);
    vm.registers[1] = Value::Bool(true);
    assert_eq!(vm.step(), Err(Fault::NotAnInt(Value::Bool(true))));
}

#[test]
fn missing_constant_is_out_of_bounds() {
    let mut vm = machine(vec![ad(Opcode::LoadK, 0, 3)], vec![Value::Int(1)], vec![]);
    assert_eq!(vm.step(), Err(Fault::IndexOutOfBounds));
}

#[test]
fn jumps_follow_truthiness() {
    // R0 = "" (falsy), R1 = "a" (truthy), R2 = Str(7) (no such string: falsy)
    let mut vm = machine(
        vec![
            ad(Opcode::JumpIf, 0, 3),
            ad(Opcode::LoadInt, 10, 1),
            ad(Opcode::Jump, 0, 4),
            ad(Opcode::LoadInt, 10, 2),
            ad(Opcode::JumpIfNot, 1, 7),
            ad(Opcode::LoadInt, 11, 1),
            ad(Opcode::JumpIfNot, 2, 8),
            ad(Opcode::LoadInt, 11, 2),
        ],
        vec![],
        vec!["", "a"],
    );
    vm.registers[0] = Value::Str(0);
    vm.registers[1] = Value::Str(1);
    vm.registers[2] = Value::Str(7);
    vm.run();
    assert_eq!(vm.registers[10], Value::Int(1));
    assert_eq!(vm.registers[11], Value::Int(1));
    assert_eq!(vm.ip, 8);
}

#[test]
fn truthiness_of_values() {
    let mut vm = machine(
        vec![
            abc(Opcode::NotV, 10, 0, 0),
            abc(Opcode::NotV, 11, 1, 0),
            abc(Opcode::NotV, 12, 2, 0),
            abc(Opcode::NotV, 13, 3, 0),
            abc(Opcode::NotV, 14, 4, 0),
        ],
        vec![],
        vec![],
    );
    vm.registers[0] = Value::Nil;
    vm.registers[1] = Value::Int(0);
    vm.registers[2] = Value::Int(-3);
    vm.registers[3] = Value::Func(0);
    vm.registers[4] = Value::Array(5);
    vm.run();
    assert_eq!(vm.registers[10], Value::Bool(true));
    assert_eq!(vm.registers[11], Value::Bool(true));
    assert_eq!(vm.registers[12], Value::Bool(false));
    assert_eq!(vm.registers[13], Value::Bool(false));
    assert_eq!(vm.registers[14], Value::Bool(false));
}

#[test]
fn numeric_for_loop_sums() {
    // R0 = counter, R1 = limit, R2 = step, R3 = sum
    let mut vm = machine(
        vec![
            ad(Opcode::LoadInt, 0, 1),
            ad(Opcode::LoadInt, 1, 5),
            ad(Opcode::LoadInt, 2, 1),
            ad(Opcode::LoadInt, 3, 0),
            ad(Opcode::ForPrep, 0, 6),
            abc(Opcode::AddVV, 3, 3, 0),
            ad(Opcode::ForLoop, 0, 5),
        ],
        vec![],
        vec![],
    );
    vm.run();
    assert_eq!(vm.registers[3], Value::Int(15));
    assert_eq!(vm.registers[0], Value::Int(6));
    assert_eq!(vm.ip, 7);
}

#[test]
fn numeric_for_loop_counts_down() {
    let mut vm = machine(
        vec![
            ad(Opcode::LoadInt, 0, 3),
            ad(Opcode::LoadInt, 1, 1),
            ad(Opcode::LoadInt, 2, (-1i16) as u16),
            ad(Opcode::LoadInt, 3, 0),
            ad(Opcode::ForPrep, 0, 6),
            abc(Opcode::AddVV, 3, 3, 0),
            ad(Opcode::ForLoop, 0, 5),
        ],
        vec![],
        vec![],
    );
    vm.run();
    assert_eq!(vm.registers[3], Value::Int(6));
}

#[test]
fn call_and_return_values() {
    // main: R0 = add; R1 = 2; R2 = 40; CALL R0 2 1; HALT
    // add (entry 5): ADDVV R0 R0 R1; RETURN R0 1
    let mut vm = VM::new(
        vec![
            ad(Opcode::LoadFunc, 0, 0),
            ad(Opcode::LoadInt, 1, 2),
            ad(Opcode::LoadInt, 2, 40),
            abc(Opcode::Call, 0, 2, 1),
            abc(Opcode::Halt, 0, 0, 0),
            abc(Opcode::AddVV, 0, 0, 1),
            abc(Opcode::Return, 0, 1, 0),
        ],
        vec![],
        vec![],
        vec![func(5, 2)],
    );
    vm.run();
    assert_eq!(vm.registers[0], Value::Int(42));
    assert_eq!(vm.registers[1], Value::Int(42));
    assert_eq!(vm.ip, 7);
}

#[test]
fn return_copies_at_most_requested_values() {
    // The caller wants 1 result; the callee returns 2.
    let mut vm = VM::new(
        vec![
            ad(Opcode::LoadFunc, 0, 0),
            abc(Opcode::Call, 0, 0, 1),
            abc(Opcode::Halt, 0, 0, 0),
            ad(Opcode::LoadInt, 0, 7),
            ad(Opcode::LoadInt, 1, 8),
            abc(Opcode::Return, 0, 2, 0),
        ],
        vec![],
        vec![],
        vec![func(3, 0)],
    );
    vm.run();
    assert_eq!(vm.registers[0], Value::Int(7));
    assert_eq!(vm.registers[1], Value::Int(7));
    assert_eq!(vm.registers[2], Value::Int(8));
}

#[test]
fn top_level_return_halts() {
    let mut vm = machine(vec![abc(Opcode::Return, 0, 0, 0), ad(Opcode::LoadInt, 0, 1)], vec![], vec![]);
    vm.run();
    assert_eq!(vm.ip, 2);
    assert_eq!(vm.registers[0], Value::Nil);
}

#[test]
fn halt_stops() {
    let mut vm = machine(vec![abc(Opcode::Halt, 0, 0, 0), ad(Opcode::LoadInt, 0, 1)], vec![], vec![]);
    vm.run();
    assert_eq!(vm.ip, 2);
    assert_eq!(vm.registers[0], Value::Nil);
}

#[test]
fn tail_call_reuses_frame() {
    // main: R0 = f; CALL R0 0 1; HALT
    // f (3):  R0 = g; R1 = 5; TAILCALL R0 1 1
    // g (6):  ADDVV R0 R0 R0; RETURN R0 1
    let mut vm = VM::new(
        vec![
            ad(Opcode::LoadFunc, 0, 0),
            abc(Opcode::Call, 0, 0, 1),
            abc(Opcode::Halt, 0, 0, 0),
            ad(Opcode::LoadFunc, 0, 1),
            ad(Opcode::LoadInt, 1, 5),
            abc(Opcode::TailCall, 0, 1, 1),
            abc(Opcode::AddVV, 0, 0, 0),
            abc(Opcode::Return, 0, 1, 0),
        ],
        vec![],
        vec![],
        vec![func(3, 0), func(6, 1)],
    );
    vm.run();
    assert_eq!(vm.registers[0], Value::Int(10));
    assert_eq!(vm.ip, 8);
}

#[test]
fn call_of_non_function_faults() {
    let mut vm = machine(vec![abc(Opcode::Call, 0, 0, 0)], vec![], vec![]);
    vm.registers[0] = Value::Int(1);
    assert_eq!(vm.step(), Err(Fault::CallNotFunc(Value::Int(1))));
    let mut vm = machine(vec![abc(Opcode::TailCall, 0, 0, 0)], vec![], vec![]);
    assert_eq!(vm.step(), Err(Fault::TailCallNotFunc(Value::Nil)));
    let mut vm = machine(vec![ad(Opcode::LoadFunc, 0, 3), abc(Opcode::Call, 0, 0, 0)], vec![], vec![]);
    assert!(vm.step().is_ok());
    assert_eq!(vm.step(), Err(Fault::IndexOutOfBounds));
}

#[test]
fn globals_store_and_load() {
    let mut vm = machine(
        vec![
            ad(Opcode::LoadInt, 0, 9),
            ad(Opcode::StoreGlobal, 0, 3),
            ad(Opcode::LoadGlobal, 1, 3),
            ad(Opcode::LoadGlobal, 2, 1),
            ad(Opcode::LoadGlobal, 3, 100),
        ],
        vec![],
        vec![],
    );
    vm.run();
    assert_eq!(vm.globals, vec![Value::Nil, Value::Nil, Value::Nil, Value::Int(9)]);
    assert_eq!(vm.registers[1], Value::Int(9));
    assert_eq!(vm.registers[2], Value::Nil);
    assert_eq!(vm.registers[3], Value::Nil);
}

#[test]
fn arrays_new_set_get_len() {
    let mut vm = machine(
        vec![
            ad(Opcode::NewArray, 0, 3),
            ad(Opcode::LoadInt, 1, 1),
            ad(Opcode::LoadInt, 2, 77),
            abc(Opcode::SetIndex, 0, 1, 2),
            abc(Opcode::GetIndex, 3, 0, 1),
            ad(Opcode::LoadInt, 4, 9),
            abc(Opcode::SetIndex, 0, 4, 2),
            abc(Opcode::GetIndex, 5, 0, 4),
            abc(Opcode::LenV, 6, 0, 0),
            ad(Opcode::NewArray, 7, 0),
        ],
        vec![],
        vec![],
    );
    vm.run();
    assert_eq!(vm.registers[0], Value::Array(0));
    assert_eq!(vm.registers[3], Value::Int(77));
    assert_eq!(vm.registers[5], Value::Nil);
    assert_eq!(vm.registers[6], Value::Int(3));
    assert_eq!(vm.registers[7], Value::Array(1));
    assert_eq!(vm.arrays, vec![vec![Value::Nil, Value::Int(77), Value::Nil], vec![]]);
}

#[test]
fn get_index_on_missing_array_is_nil() {
    let mut vm = machine(vec![abc(Opcode::GetIndex, 0, 1, 2), abc(Opcode::LenV, 3, 1, 0)], vec![], vec![]);
    vm.registers[1] = Value::Array(4);
    vm.registers[2] = Value::Int(0);
    vm.run();
    assert_eq!(vm.registers[0], Value::Nil);
    assert_eq!(vm.registers[3], Value::Int(0));
}

#[test]
fn set_index_on_missing_array_faults() {
    let mut vm = machine(vec![abc(Opcode::SetIndex, 0, 1, 2)], vec![], vec![]);
    vm.registers[0] = Value::Array(4);
    vm.registers[1] = Value::Int(0);
    assert_eq!(vm.step(), Err(Fault::SetIndexInvalidArray(4)));
}

#[test]
fn index_type_faults() {
    let mut vm = machine(vec![abc(Opcode::GetIndex, 0, 1, 2)], vec![], vec![]);
    vm.registers[1] = Value::Int(3);
    assert_eq!(vm.step(), Err(Fault::GetIndexBadTarget(Value::Int(3))));
    let mut vm = machine(vec![abc(Opcode::GetIndex, 0, 1, 2)], vec![], vec![]);
    vm.registers[1] = Value::Array(0);
    assert_eq!(vm.step(), Err(Fault::GetIndexArrayBadIndex(Value::Nil)));
    let mut vm = machine(vec![abc(Opcode::SetIndex, 0, 1, 2)], vec![], vec!["ab"]);
    vm.registers[0] = Value::Str(0);
    vm.registers[1] = Value::Int(0);
    assert_eq!(vm.step(), Err(Fault::SetIndexStrBadChar(Value::Nil)));
    let mut vm = machine(vec![abc(Opcode::SetIndex, 0, 1, 2)], vec![], vec![]);
    vm.registers[0] = Value::Str(0);
    assert_eq!(vm.step(), Err(Fault::SetIndexInvalidString(0)));
    let mut vm = machine(vec![abc(Opcode::LenV, 0, 1, 0)], vec![], vec![]);
    assert_eq!(vm.step(), Err(Fault::LenVBadOperand(Value::Nil)));
}

#[test]
fn strings_index_and_length() {
    let mut vm = machine(
        vec![
            ad(Opcode::LoadK, 0, 0),
            ad(Opcode::LoadInt, 1, 1),
            abc(Opcode::GetIndex, 2, 0, 1),
            ad(Opcode::LoadInt, 3, 10),
            abc(Opcode::GetIndex, 4, 0, 3),
            abc(Opcode::LenV, 5, 0, 0),
            ad(Opcode::LenK, 6, 0),
            ad(Opcode::LenK, 7, 1),
        ],
        vec![Value::Str(0), Value::Str(9)],
        vec!["héllo"],
    );
    vm.run();
    assert_eq!(vm.registers[2], Value::Int('é' as i32));
    assert_eq!(vm.registers[4], Value::Int(0));
    assert_eq!(vm.registers[5], Value::Int(5));
    assert_eq!(vm.registers[6], Value::Int(5));
    // "<invalid string index>" stands in for a missing string.
    assert_eq!(vm.registers[7], Value::Int(22));
}

#[test]
fn len_k_faults() {
    let mut vm = machine(vec![ad(Opcode::LenK, 0, 0)], vec![Value::Int(1)], vec![]);
    assert_eq!(vm.step(), Err(Fault::LenKNotStr(Value::Int(1))));
    let mut vm = machine(vec![ad(Opcode::LenK, 0, 4)], vec![], vec![]);
    assert_eq!(vm.step(), Err(Fault::LenKInvalidConstant(4)));
}

#[test]
fn set_index_replaces_character() {
    let mut vm = machine(
        vec![
            ad(Opcode::LoadInt, 1, 1),
            ad(Opcode::LoadInt, 2, 'A' as u16),
            abc(Opcode::SetIndex, 0, 1, 2),
        ],
        vec![],
        vec!["abc"],
    );
    vm.registers[0] = Value::Str(0);
    vm.run();
    assert_eq!(vm.strings[0], "aAc");
}

#[test]
fn set_index_with_invalid_code_writes_nul() {
    let mut vm = machine(vec![abc(Opcode::SetIndex, 0, 1, 2)], vec![], vec!["abc"]);
    vm.registers[0] = Value::Str(0);
    vm.registers[1] = Value::Int(2);
    vm.registers[2] = Value::Int(0xD800);
    vm.run();
    assert_eq!(vm.strings[0], "ab\0");
}

#[test]
fn set_index_past_the_end_is_ignored() {
    let mut vm = machine(vec![abc(Opcode::SetIndex, 0, 1, 2)], vec![], vec!["abc"]);
    vm.registers[0] = Value::Str(0);
    vm.registers[1] = Value::Int(3);
    vm.registers[2] = Value::Int('z' as i32);
    vm.run();
    assert_eq!(vm.strings[0], "abc");
}

#[test]
fn set_index_between_char_and_byte_length_faults() {
    // "é" is one character but two bytes long.
    let mut vm = machine(vec![abc(Opcode::SetIndex, 0, 1, 2)], vec![], vec!["é"]);
    vm.registers[0] = Value::Str(0);
    vm.registers[1] = Value::Int(1);
    vm.registers[2] = Value::Int('z' as i32);
    assert_eq!(vm.step(), Err(Fault::IndexOutOfBounds));
    assert_eq!(vm.strings[0], "é");
}

#[test]
fn concatenation_appends_new_strings() {
    let mut vm = machine(
        vec![
            ad(Opcode::LoadK, 0, 0),
            ad(Opcode::LoadK, 1, 1),
            abc(Opcode::ConcatVV, 2, 0, 1),
            abc(Opcode::ConcatVK, 3, 2, 0),
        ],
        vec![Value::Str(0), Value::Str(1)],
        vec!["foo", "bar"],
    );
    vm.run();
    assert_eq!(vm.registers[2], Value::Str(2));
    assert_eq!(vm.registers[3], Value::Str(3));
    assert_eq!(vm.strings, vec!["foo", "bar", "foobar", "foobarfoo"]);
}

#[test]
fn concatenation_faults() {
    let mut vm = machine(vec![abc(Opcode::ConcatVV, 0, 1, 2)], vec![], vec![]);
    assert_eq!(vm.step(), Err(Fault::ConcatVVNotStr(Value::Nil)));
    let mut vm = machine(vec![abc(Opcode::ConcatVK, 0, 1, 0)], vec![Value::Int(3)], vec![]);
    vm.registers[1] = Value::Str(0);
    assert_eq!(vm.step(), Err(Fault::ConcatVKNotStrConstant(Value::Int(3))));
    let mut vm = machine(vec![abc(Opcode::ConcatVK, 0, 1, 5)], vec![], vec![]);
    vm.registers[1] = Value::Str(0);
    assert_eq!(vm.step(), Err(Fault::ConcatVKInvalidConstant(5)));
    let mut vm = machine(vec![abc(Opcode::ConcatVK, 0, 1, 0)], vec![], vec![]);
    assert_eq!(vm.step(), Err(Fault::ConcatVKNotStr(Value::Nil)));
}

#[test]
fn copy_range_copies_in_order() {
    let mut vm = machine(vec![abc(Opcode::CopyRange, 1, 0, 3)], vec![], vec![]);
    vm.registers[0] = Value::Int(5);
    vm.registers[1] = Value::Int(6);
    vm.registers[2] = Value::Int(7);
    vm.run();
    // Overlapping forward copy propagates the first value.
    assert_eq!(vm.registers[1], Value::Int(5));
    assert_eq!(vm.registers[2], Value::Int(5));
    assert_eq!(vm.registers[3], Value::Int(5));
}

#[test]
fn copy_range_past_register_file_faults() {
    let mut vm = machine(vec![abc(Opcode::CopyRange, 250, 0, 10)], vec![], vec![]);
    assert_eq!(vm.step(), Err(Fault::IndexOutOfBounds));
}

#[test]
fn printf_collects_output() {
    let mut vm = machine(
        vec![
            ad(Opcode::LoadK, 0, 0),
            abc(Opcode::Printf, 0, 0, 0),
            ad(Opcode::LoadInt, 1, 42),
            abc(Opcode::Printf, 1, 0, 0),
            ad(Opcode::LoadBool, 2, 1),
            abc(Opcode::Printf, 2, 0, 0),
            abc(Opcode::Nop, 0, 0, 0),
        ],
        vec![Value::Str(0)],
        vec!["hello"],
    );
    let out = vm.run();
    let texts: Vec<String> = out.iter().map(text).collect();
    assert_eq!(texts, vec!["hello", "42", "true"]);
}

#[test]
fn printf_of_nil_faults() {
    let mut vm = machine(vec![abc(Opcode::Printf, 0, 0, 0)], vec![], vec![]);
    assert_eq!(vm.step(), Err(Fault::PrintfBadOperand(Value::Nil)));
}

#[test]
fn step_reports_output() {
    let mut vm = machine(vec![abc(Opcode::Printf, 0, 0, 0)], vec![], vec![]);
    vm.registers[0] = Value::Str(3);
    match vm.step() {
        Ok(Some(Output::Text(s))) => assert_eq!(s, "<invalid string index>"),
        other => panic!("unexpected {:?}", other),
    }
    assert_eq!(vm.ip, 1);
}

fn script(code: Vec<Instruction>, init_fn: Option<u16>, main_fn: Option<u16>) -> Script {
    Script {
        code,
        constants: vec![Value::Str(0)],
        strings: vec!["tick".to_string()],
        functions: vec![func(0, 0), func(3, 0)],
        init_fn,
        main_fn,
        tick_interval: Some(TickInterval::from_vm_tctrl(0)),
    }
}

fn body() -> Vec<Instruction> {
    vec![
        ad(Opcode::LoadK, 0, 0),
        abc(Opcode::Printf, 0, 0, 0),
        abc(Opcode::Return, 0, 0, 0),
        ad(Opcode::LoadInt, 0, 1),
        abc(Opcode::Return, 0, 0, 0),
    ]
}

#[test]
fn from_script_with_init_and_main() {
    let (vm, main_loop_ip, tick) = VM::from_script(script(body(), Some(0), Some(1)));
    assert_eq!(main_loop_ip, Some(2));
    assert_eq!(tick, Some(TickInterval::default()));
    assert_eq!(vm.code.len(), 10);
    assert_eq!(vm.code[0].opcode(), Opcode::LoadFunc.to_u8());
    assert_eq!(vm.code[0].d(), 0);
    assert_eq!(vm.code[1].opcode(), Opcode::Call.to_u8());
    assert_eq!(vm.code[2].d(), 1);
    assert_eq!(vm.code[4].opcode(), Opcode::Jump.to_u8());
    assert_eq!(vm.code[4].d(), 2);
    assert_eq!(vm.code[5].opcode(), Opcode::LoadK.to_u8());
    assert_eq!(vm.functions[0].entry, 5);
    assert_eq!(vm.functions[1].entry, 8);
    assert_eq!(vm.ip, 0);
}

#[test]
fn from_script_with_main_only() {
    let (vm, main_loop_ip, _) = VM::from_script(script(body(), None, Some(1)));
    assert_eq!(main_loop_ip, Some(0));
    assert_eq!(vm.code.len(), 8);
    assert_eq!(vm.code[2].opcode(), Opcode::Jump.to_u8());
    assert_eq!(vm.code[2].d(), 0);
    assert_eq!(vm.functions[1].entry, 6);
}

#[test]
fn from_script_with_init_only_runs_once() {
    let (mut vm, main_loop_ip, _) = VM::from_script(script(body(), Some(0), None));
    assert_eq!(main_loop_ip, None);
    assert_eq!(vm.code[2].opcode(), Opcode::Halt.to_u8());
    let out = vm.run();
    let texts: Vec<String> = out.iter().map(text).collect();
    assert_eq!(texts, vec!["tick"]);
    assert_eq!(vm.ip, vm.code.len());
}

#[test]
fn from_script_without_blocks_has_no_preamble() {
    let (vm, main_loop_ip, _) = VM::from_script(script(body(), None, None));
    assert_eq!(main_loop_ip, None);
    assert_eq!(vm.code.len(), 5);
    assert_eq!(vm.functions[1].entry, 3);
}

#[test]
fn script_main_loop_reaches_tick_point_again() {
    let (mut vm, main_loop_ip, _) = VM::from_script(script(body(), Some(0), Some(0)));
    let main_loop_ip = main_loop_ip.unwrap();
    let mut printed = 0;
    let mut ticks = 0;
    for _ in 0..40 {
        match vm.script_action(main_loop_ip) {
            ScriptAction::Halted => break,
            ScriptAction::Tick => {
                ticks += 1;
                if ticks == 3 {
                    break;
                }
                if let Ok(Some(_)) = vm.step() {
                    printed += 1;
                }
            }
            ScriptAction::Execute => {
                if let Ok(Some(_)) = vm.step() {
                    printed += 1;
                }
            }
        }
    }
    assert_eq!(ticks, 3);
    // init printed once, main twice
    assert_eq!(printed, 3);
}

#[test]
fn script_action_halted_past_end() {
    let vm = machine(vec![], vec![], vec![]);
    assert_eq!(vm.script_action(0), ScriptAction::Halted);
    let vm = machine(vec![abc(Opcode::Nop, 0, 0, 0)], vec![], vec![]);
    assert_eq!(vm.script_action(0), ScriptAction::Tick);
    assert_eq!(vm.script_action(3), ScriptAction::Execute);
}

#[test]
fn running_keeps_the_program() {
    let code = vec![
        ad(Opcode::LoadK, 0, 0),
        abc(Opcode::ConcatVK, 1, 0, 0),
        ad(Opcode::StoreGlobal, 1, 0),
        ad(Opcode::NewArray, 2, 2),
    ];
    let mut vm = VM::new(code.clone(), vec![Value::Str(0)], vec!["ab".to_string()], vec![func(1, 0)]);
    vm.run();
    assert_eq!(vm.constants, vec![Value::Str(0)]);
    assert_eq!(vm.code.len(), code.len());
    for (x, y) in vm.code.iter().zip(code.iter()) {
        assert_eq!(x.opcode(), y.opcode());
        assert_eq!(x.a(), y.a());
        assert_eq!(x.d(), y.d());
    }
    assert_eq!(vm.functions[0].entry, 1);
    assert_eq!(vm.strings, vec!["ab", "abab"]);
    assert_eq!(vm.globals, vec![Value::Str(1)]);
    assert_eq!(vm.arrays, vec![vec![Value::Nil, Value::Nil]]);
}

#[test]
fn fault_leaves_machine_unchanged() {
    let mut vm = machine(vec![abc(Opcode::CopyRange, 250, 0, 10)], vec![], vec![]);
    vm.registers[0] = Value::Int(1);
    vm.registers[250] = Value::Int(2);
    assert_eq!(vm.step(), Err(Fault::IndexOutOfBounds));
    assert_eq!(vm.ip, 0);
    assert_eq!(vm.registers[250], Value::Int(2));
    assert_eq!(vm.registers[251], Value::Nil);

    let mut vm = machine(vec![abc(Opcode::ConcatVK, 0, 1, 3)], vec![], vec!["x"]);
    vm.registers[1] = Value::Str(0);
    assert_eq!(vm.step(), Err(Fault::ConcatVKInvalidConstant(3)));
    assert_eq!(vm.strings, vec!["x"]);
    assert_eq!(vm.registers[0], Value::Nil);
}

#[test]
fn nested_calls_return_to_their_callers() {
    // main: R0 = f; R1 = 4; CALL R0 1 1; HALT
    // f (4): R1 = g; R2 = R0; CALL R1 1 1; ADDVV R0 R1 R0; RETURN R0 1
    // g (9): MULVV R0 R0 R0; RETURN R0 1
    let mut vm = VM::new(
        vec![
            ad(Opcode::LoadFunc, 0, 0),
            ad(Opcode::LoadInt, 1, 4),
            abc(Opcode::Call, 0, 1, 1),
            abc(Opcode::Halt, 0, 0, 0),
            ad(Opcode::LoadFunc, 1, 1),
            abc(Opcode::Move, 2, 0, 0),
            abc(Opcode::Call, 1, 1, 1),
            abc(Opcode::AddVV, 0, 1, 0),
            abc(Opcode::Return, 0, 1, 0),
            abc(Opcode::MulVV, 0, 0, 0),
            abc(Opcode::Return, 0, 1, 0),
        ],
        vec![],
        vec![],
        vec![func(4, 1), func(9, 1)],
    );
    vm.run();
    // f(4) = g(4) + 4 = 20, returned into main's function slot R0.
    assert_eq!(vm.registers[0], Value::Int(20));
    assert_eq!(vm.ip, 11);
}

#[test]
fn string_set_then_get_reads_back() {
    let mut vm = machine(
        vec![abc(Opcode::SetIndex, 0, 1, 2), abc(Opcode::GetIndex, 3, 0, 1)],
        vec![],
        vec!["xyz"],
    );
    vm.registers[0] = Value::Str(0);
    vm.registers[1] = Value::Int(2);
    vm.registers[2] = Value::Int('é' as i32);
    vm.run();
    assert_eq!(vm.strings[0], "xyé");
    assert_eq!(vm.registers[3], Value::Int('é' as i32));
}

#[test]
fn array_set_out_of_range_then_get_is_nil() {
    let mut vm = machine(
        vec![ad(Opcode::NewArray, 0, 2), abc(Opcode::SetIndex, 0, 1, 2), abc(Opcode::GetIndex, 3, 0, 1)],
        vec![],
        vec![],
    );
    vm.registers[1] = Value::Int(-1);
    vm.registers[2] = Value::Int(5);
    vm.run();
    assert_eq!(vm.arrays, vec![vec![Value::Nil, Value::Nil]]);
    assert_eq!(vm.registers[3], Value::Nil);
}
