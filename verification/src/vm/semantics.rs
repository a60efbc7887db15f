//! The machine as a mathematical state and the meaning of each instruction.
use vstd::prelude::*;

use crate::codegen::bytecode::{abc_word, ad_word, decode_opcode, Instruction, Opcode, Value};
use super::{ArithFault, CallFrame, Fault, FuncProto};

verus! {

/// The abstract state of a virtual machine.
#[verifier::ext_equal]
pub struct State {
    /// The flat register file.
    pub registers: Seq<Value>,
    pub constants: Seq<Value>,
    /// The string table, each string as its characters.
    pub strings: Seq<Seq<char>>,
    pub globals: Seq<Value>,
    /// The array heap, each array as its slots.
    pub arrays: Seq<Seq<Value>>,
    pub functions: Seq<FuncProto>,
    pub code: Seq<Instruction>,
    pub ip: int,
    pub window_base: int,
    pub call_stack: Seq<CallFrame>,
}

/// What a `Printf` instruction prints.
pub enum OutputView {
    Text(Seq<char>),
    Int(i32),
    Bool(bool),
}

/// What executing one instruction does: the new state (with the instruction
/// pointer not yet moved), the explicit jump target if any, and what it prints.
pub struct Effect {
    pub state: State,
    pub jump: Option<usize>,
    pub output: Option<OutputView>,
}

/// The number of registers in the flat register file.
pub const NUM_REGISTERS: usize = 256usize;

impl State {
    /// Well-formedness: a full register file, code that a `Vec` can hold, a
    /// window inside the register file, and call frames whose saved windows
    /// and result slots lie inside it.
    pub open spec fn wf(self) -> bool {
        &&& self.registers.len() == NUM_REGISTERS
        &&& self.code.len() <= usize::MAX
        &&& 0 <= self.ip
        &&& 0 <= self.window_base <= NUM_REGISTERS
        &&& forall|k: int|
            0 <= k < self.call_stack.len() ==> {
                &&& (#[trigger] self.call_stack[k]).caller_window <= NUM_REGISTERS
                &&& self.call_stack[k].ret_base < NUM_REGISTERS
            }
    }

    pub open spec fn halted(self) -> bool {
        self.ip >= self.code.len()
    }
}

/// The text used in place of a string that the string table does not hold.
pub open spec fn invalid_string() -> Seq<char> {
    "<invalid string index>"@
}

/// A state with fresh registers, no globals, no arrays and an empty call
/// stack, about to run the first instruction of `code`.
pub open spec fn fresh_state(
    code: Seq<Instruction>,
    constants: Seq<Value>,
    strings: Seq<Seq<char>>,
    functions: Seq<FuncProto>,
) -> State {
    State {
        registers: Seq::new(NUM_REGISTERS as nat, |i: int| Value::Nil),
        constants,
        strings,
        globals: Seq::empty(),
        arrays: Seq::empty(),
        functions,
        code,
        ip: 0,
        window_base: 0,
        call_stack: Seq::empty(),
    }
}

// ── Loading a script ────────────────────────────────────────────────────

/// The register that the bootstrap preamble uses for the function it calls.
pub const BOOTSTRAP_REG: u8 = 0u8;

/// The instruction `op A D`.
pub open spec fn ad(op: Opcode, a: u8, d: u16) -> Instruction {
    Instruction::from_word(ad_word(op.code(), a, d))
}

/// The instruction `op A B C`.
pub open spec fn abc(op: Opcode, a: u8, b: u8, c: u8) -> Instruction {
    Instruction::from_word(abc_word(op.code(), a, b, c))
}

/// The bootstrap preamble that calls `init` once and then loops `main`:
///
/// ```text
/// (both init and main)        (main only)           (init only)
/// 0: LOADFUNC R0 F_init       0: LOADFUNC R0 F_main  0: LOADFUNC R0 F_init
/// 1: CALL     R0 0 0          1: CALL     R0 0 0     1: CALL     R0 0 0
/// 2: LOADFUNC R0 F_main  ←┐  2: JUMP     0      ←┘  2: HALT
/// 3: CALL     R0 0 0      |
/// 4: JUMP     2        ───┘
/// ```
pub open spec fn preamble(init_fn: Option<u16>, main_fn: Option<u16>) -> Seq<Instruction> {
    let r = BOOTSTRAP_REG;
    match (init_fn, main_fn) {
        (Some(init), Some(main)) => seq![
            ad(Opcode::LoadFunc, r, init),
            abc(Opcode::Call, r, 0, 0),
            ad(Opcode::LoadFunc, r, main),
            abc(Opcode::Call, r, 0, 0),
            ad(Opcode::Jump, 0, 2),
        ],
        (None, Some(main)) => seq![
            ad(Opcode::LoadFunc, r, main),
            abc(Opcode::Call, r, 0, 0),
            ad(Opcode::Jump, 0, 0),
        ],
        (Some(init), None) => seq![
            ad(Opcode::LoadFunc, r, init),
            abc(Opcode::Call, r, 0, 0),
            abc(Opcode::Halt, 0, 0, 0),
        ],
        (None, None) => Seq::empty(),
    }
}

/// The preamble address that starts each `main` iteration, if there is a `main`.
pub open spec fn main_loop_ip(init_fn: Option<u16>, main_fn: Option<u16>) -> Option<usize> {
    match (init_fn, main_fn) {
        (Some(_), Some(_)) => Some(2usize),
        (None, Some(_)) => Some(0usize),
        _ => None,
    }
}

/// The function table with every entry point moved `k` instructions on.
pub open spec fn shift_entries(fs: Seq<FuncProto>, k: int) -> Seq<FuncProto> {
    fs.map_values(|f: FuncProto| FuncProto { entry: (f.entry + k) as usize, ..f })
}

// ── Registers and operands ──────────────────────────────────────────────

/// The absolute index of local register `r`.
pub open spec fn reg(s: State, r: u8) -> int {
    s.window_base + r as int
}

pub open spec fn in_regs(s: State, i: int) -> bool {
    0 <= i < s.registers.len()
}

pub open spec fn read_reg(s: State, i: int) -> Result<Value, Fault> {
    if in_regs(s, i) {
        Ok(s.registers[i])
    } else {
        Err(Fault::IndexOutOfBounds)
    }
}

pub open spec fn with_reg(s: State, i: int, v: Value) -> State {
    State { registers: s.registers.update(i, v), ..s }
}

pub open spec fn as_int(v: Value) -> Result<i32, Fault> {
    match v {
        Value::Int(n) => Ok(n),
        other => Err(Fault::NotAnInt(other)),
    }
}

pub open spec fn read_int(s: State, i: int) -> Result<i32, Fault> {
    match read_reg(s, i) {
        Ok(v) => as_int(v),
        Err(f) => Err(f),
    }
}

pub open spec fn read_const(s: State, k: int) -> Result<Value, Fault> {
    if 0 <= k < s.constants.len() {
        Ok(s.constants[k])
    } else {
        Err(Fault::IndexOutOfBounds)
    }
}

/// The characters of string `si`, or the placeholder text when there is none.
pub open spec fn string_or_invalid(s: State, si: u32) -> Seq<char> {
    if (si as int) < s.strings.len() {
        s.strings[si as int]
    } else {
        invalid_string()
    }
}

/// Truthiness: `Nil` and `false` are falsy, an integer is truthy when non-zero,
/// functions and arrays are truthy, and a string when it exists and is not empty.
pub open spec fn truthy(s: State, v: Value) -> bool {
    match v {
        Value::Nil => false,
        Value::Bool(b) => b,
        Value::Int(n) => n != 0,
        Value::Func(_) => true,
        Value::Array(_) => true,
        Value::Str(i) => (i as int) < s.strings.len() && s.strings[i as int].len() != 0,
    }
}

/// Copies `n` registers from `src..` to `dst..`, one after the other in
/// increasing order (so overlapping ranges see the registers already copied).
pub open spec fn copy_regs(regs: Seq<Value>, dst: int, src: int, n: nat) -> Seq<Value>
    decreases n,
{
    if n == 0 {
        regs
    } else {
        let p = copy_regs(regs, dst, src, (n - 1) as nat);
        p.update(dst + n - 1, p[src + n - 1])
    }
}

pub proof fn lemma_copy_regs_len(regs: Seq<Value>, dst: int, src: int, n: nat)
    requires
        n == 0 || (0 <= dst && dst + n <= regs.len()),
    ensures
        copy_regs(regs, dst, src, n).len() == regs.len(),
    decreases n,
{
    if n > 0 {
        lemma_copy_regs_len(regs, dst, src, (n - 1) as nat);
    }
}

/// Whether both ranges of a copy of `n` registers lie in the register file.
pub open spec fn copy_in_range(s: State, dst: int, src: int, n: nat) -> bool {
    n == 0 || (0 <= dst && dst + n <= s.registers.len() && 0 <= src && src + n
        <= s.registers.len())
}

/// A Unicode scalar value, the numbers that `char` can hold.
pub open spec fn is_scalar(u: u32) -> bool {
    u <= 0xD7FFu32 || (0xE000u32 <= u && u <= 0x10FFFFu32)
}

/// The character with code `u`, or `'\0'` when `u` is no Unicode scalar value.
pub open spec fn char_or_nul(u: u32) -> char {
    if is_scalar(u) {
        u as char
    } else {
        '\0'
    }
}

/// The length in bytes of the UTF-8 encoding of a string.
pub open spec fn utf8_len(t: Seq<char>) -> int {
    (vstd::utf8::encode_utf8(t).len() as usize) as int
}

// ── Effects ─────────────────────────────────────────────────────────────

pub open spec fn proceed(s: State) -> Effect {
    Effect { state: s, jump: None, output: None }
}

pub open spec fn jump_to(s: State, target: usize) -> Effect {
    Effect { state: s, jump: Some(target), output: None }
}

pub open spec fn write_then_proceed(s: State, i: int, v: Value) -> Result<Effect, Fault> {
    if in_regs(s, i) {
        Ok(proceed(with_reg(s, i, v)))
    } else {
        Err(Fault::IndexOutOfBounds)
    }
}

// ── Integer operations ──────────────────────────────────────────────────

/// The integer operations of the arithmetic and bitwise instructions.
#[derive(Clone, Copy, Debug, PartialEq, Eq, Structural)]
pub enum IntOp {
    Add,
    Sub,
    Mul,
    Div,
    Rem,
    And,
    Or,
    Xor,
    Shl,
    Shr,
}

/// The comparisons of the comparison instructions.
#[derive(Clone, Copy, Debug, PartialEq, Eq, Structural)]
pub enum Compare {
    Eq,
    Lt,
    Le,
    Gt,
    Ge,
}

/// Whether an integer is a value of `i32`.
pub open spec fn fits_i32(v: int) -> bool {
    i32::MIN <= v <= i32::MAX
}

pub open spec fn abs(v: int) -> int {
    if v < 0 {
        -v
    } else {
        v
    }
}

/// Division truncating towards zero.
pub open spec fn trunc_div(x: int, y: int) -> int {
    if (x < 0) == (y < 0) {
        abs(x) / abs(y)
    } else {
        -(abs(x) / abs(y))
    }
}

/// The remainder of truncating division: it has the sign of `x`.
pub open spec fn trunc_rem(x: int, y: int) -> int {
    if x < 0 {
        -(abs(x) % abs(y))
    } else {
        abs(x) % abs(y)
    }
}

/// The result of an arithmetic operation when it fits in `i32`, else the
/// overflow fault `f`.
pub open spec fn in_range(v: int, f: ArithFault) -> Result<i32, Fault> {
    if fits_i32(v) {
        Ok(v as i32)
    } else {
        Err(Fault::Arithmetic(f))
    }
}

/// An integer operation on two `i32`, failing where Rust's arithmetic
/// panics: on a result outside `i32`, on a zero divisor, and on a shift by a
/// negative amount or by 32 or more. Division and remainder truncate towards
/// zero (`i32::MIN % -1` overflows); `Shr` is the arithmetic shift.
pub open spec fn int_op(op: IntOp, x: i32, y: i32) -> Result<i32, Fault> {
    match op {
        IntOp::Add => in_range(x + y, ArithFault::AddOverflow),
        IntOp::Sub => in_range(x - y, ArithFault::SubOverflow),
        IntOp::Mul => in_range(x * y, ArithFault::MulOverflow),
        IntOp::Div => if y == 0 {
            Err(Fault::Arithmetic(ArithFault::DivByZero))
        } else {
            in_range(trunc_div(x as int, y as int), ArithFault::DivOverflow)
        },
        IntOp::Rem => if y == 0 {
            Err(Fault::Arithmetic(ArithFault::RemByZero))
        } else if x == i32::MIN && y == -1 {
            Err(Fault::Arithmetic(ArithFault::RemOverflow))
        } else {
            Ok(trunc_rem(x as int, y as int) as i32)
        },
        IntOp::And => Ok(x & y),
        IntOp::Or => Ok(x | y),
        IntOp::Xor => Ok(x ^ y),
        IntOp::Shl => if 0 <= y < 32 {
            Ok(x << y)
        } else {
            Err(Fault::Arithmetic(ArithFault::ShlOverflow))
        },
        IntOp::Shr => if 0 <= y < 32 {
            Ok(x >> y)
        } else {
            Err(Fault::Arithmetic(ArithFault::ShrOverflow))
        },
    }
}

pub open spec fn compare(op: Compare, x: i32, y: i32) -> bool {
    match op {
        Compare::Eq => x == y,
        Compare::Lt => x < y,
        Compare::Le => x <= y,
        Compare::Gt => x > y,
        Compare::Ge => x >= y,
    }
}

/// The integer operation of an arithmetic or bitwise opcode, and whether its
/// right operand comes from the constant pool.
pub open spec fn int_op_of(op: Opcode) -> Option<(IntOp, bool)> {
    match op {
        Opcode::AddVV => Some((IntOp::Add, false)),
        Opcode::AddVK => Some((IntOp::Add, true)),
        Opcode::SubVV => Some((IntOp::Sub, false)),
        Opcode::SubVK => Some((IntOp::Sub, true)),
        Opcode::MulVV => Some((IntOp::Mul, false)),
        Opcode::MulVK => Some((IntOp::Mul, true)),
        Opcode::DivVV => Some((IntOp::Div, false)),
        Opcode::DivVK => Some((IntOp::Div, true)),
        Opcode::ModVV => Some((IntOp::Rem, false)),
        Opcode::ModVK => Some((IntOp::Rem, true)),
        Opcode::AndVV => Some((IntOp::And, false)),
        Opcode::AndVK => Some((IntOp::And, true)),
        Opcode::OrVV => Some((IntOp::Or, false)),
        Opcode::OrVK => Some((IntOp::Or, true)),
        Opcode::XorVV => Some((IntOp::Xor, false)),
        Opcode::XorVK => Some((IntOp::Xor, true)),
        Opcode::ShlVV => Some((IntOp::Shl, false)),
        Opcode::ShlVK => Some((IntOp::Shl, true)),
        Opcode::ShrVV => Some((IntOp::Shr, false)),
        Opcode::ShrVK => Some((IntOp::Shr, true)),
        Opcode::SarVV => Some((IntOp::Shr, false)),
        Opcode::SarVK => Some((IntOp::Shr, true)),
        _ => None,
    }
}

/// The comparison of a comparison opcode, and whether its right operand comes
/// from the constant pool.
pub open spec fn compare_of(op: Opcode) -> Option<(Compare, bool)> {
    match op {
        Opcode::EqVV => Some((Compare::Eq, false)),
        Opcode::EqVK => Some((Compare::Eq, true)),
        Opcode::LtVV => Some((Compare::Lt, false)),
        Opcode::LtVK => Some((Compare::Lt, true)),
        Opcode::LteVV => Some((Compare::Le, false)),
        Opcode::LteVK => Some((Compare::Le, true)),
        Opcode::GtVV => Some((Compare::Gt, false)),
        Opcode::GtVK => Some((Compare::Gt, true)),
        Opcode::GteVV => Some((Compare::Ge, false)),
        Opcode::GteVK => Some((Compare::Ge, true)),
        _ => None,
    }
}

/// The two integer operands of an ABC arithmetic or comparison instruction:
/// `R[B]`, and `R[C]` or `constants[C]`.
pub open spec fn int_operands(s: State, instr: Instruction, from_const: bool) -> Result<
    (i32, i32),
    Fault,
> {
    match read_int(s, reg(s, instr.b_field())) {
        Err(f) => Err(f),
        Ok(x) => {
            let rhs = if from_const {
                read_const(s, instr.c_field() as int)
            } else {
                read_reg(s, reg(s, instr.c_field()))
            };
            match rhs {
                Err(f) => Err(f),
                Ok(v) => match as_int(v) {
                    Err(f) => Err(f),
                    Ok(y) => Ok((x, y)),
                },
            }
        },
    }
}

pub open spec fn exec_int_op(s: State, instr: Instruction, op: IntOp, from_const: bool) -> Result<
    Effect,
    Fault,
> {
    match int_operands(s, instr, from_const) {
        Err(f) => Err(f),
        Ok((x, y)) => match int_op(op, x, y) {
            Err(f) => Err(f),
            Ok(r) => write_then_proceed(s, reg(s, instr.a_field()), Value::Int(r)),
        },
    }
}

pub open spec fn exec_compare(s: State, instr: Instruction, op: Compare, from_const: bool) -> Result<
    Effect,
    Fault,
> {
    match int_operands(s, instr, from_const) {
        Err(f) => Err(f),
        Ok((x, y)) => write_then_proceed(
            s,
            reg(s, instr.a_field()),
            Value::Bool(compare(op, x, y)),
        ),
    }
}

// ── Control flow ────────────────────────────────────────────────────────

pub open spec fn exec_jump_cond(s: State, instr: Instruction, when: bool) -> Result<Effect, Fault> {
    match read_reg(s, reg(s, instr.a_field())) {
        Err(f) => Err(f),
        Ok(v) => if truthy(s, v) == when {
            Ok(jump_to(s, instr.d_field() as usize))
        } else {
            Ok(proceed(s))
        },
    }
}

/// `FORPREP A D`: `R[A] -= R[A+2]`, then jump to `D`.
pub open spec fn exec_for_prep(s: State, instr: Instruction) -> Result<Effect, Fault> {
    let a = reg(s, instr.a_field());
    match read_int(s, a + 2) {
        Err(f) => Err(f),
        Ok(step) => match read_int(s, a) {
            Err(f) => Err(f),
            Ok(counter) => match in_range(counter - step, ArithFault::SubOverflow) {
                Err(f) => Err(f),
                Ok(n) => Ok(jump_to(with_reg(s, a, Value::Int(n)), instr.d_field() as usize)),
            },
        },
    }
}

/// `FORLOOP A D`: `R[A] += R[A+2]`, then jump to `D` while the counter has not
/// passed the limit `R[A+1]` (from below for a non-negative step, from above
/// for a negative one).
pub open spec fn exec_for_loop(s: State, instr: Instruction) -> Result<Effect, Fault> {
    let a = reg(s, instr.a_field());
    match read_int(s, a + 2) {
        Err(f) => Err(f),
        Ok(step) => match read_int(s, a + 1) {
            Err(f) => Err(f),
            Ok(limit) => match read_int(s, a) {
                Err(f) => Err(f),
                Ok(counter) => match in_range(counter + step, ArithFault::AddOverflow) {
                    Err(f) => Err(f),
                    Ok(n) => {
                        let t = with_reg(s, a, Value::Int(n));
                        let keep_looping = if step >= 0 {
                            n <= limit
                        } else {
                            n >= limit
                        };
                        if keep_looping {
                            Ok(jump_to(t, instr.d_field() as usize))
                        } else {
                            Ok(proceed(t))
                        }
                    },
                },
            },
        },
    }
}

/// The entry point of the function that register `i` refers to; `call` tells
/// a `Call` from a `TailCall`, whose faults for a non-function value differ.
pub open spec fn callee_entry(s: State, i: int, call: bool) -> Result<usize, Fault> {
    match read_reg(s, i) {
        Err(f) => Err(f),
        Ok(Value::Func(fi)) => if (fi as int) < s.functions.len() {
            Ok(s.functions[fi as int].entry)
        } else {
            Err(Fault::IndexOutOfBounds)
        },
        Ok(other) => if call {
            Err(Fault::CallNotFunc(other))
        } else {
            Err(Fault::TailCallNotFunc(other))
        },
    }
}

/// `CALL A B C`: pushes a frame that returns to the next instruction, shifts
/// the window so that the callee's `R0` is the caller's `R[A+1]`, and jumps
/// to the function's entry.
pub open spec fn exec_call(s: State, instr: Instruction) -> Result<Effect, Fault> {
    let func_abs = reg(s, instr.a_field());
    match callee_entry(s, func_abs, true) {
        Err(f) => Err(f),
        Ok(entry) => {
            let frame = CallFrame {
                return_ip: (s.ip + 1) as usize,
                caller_window: s.window_base as usize,
                ret_base: func_abs as usize,
                retc: instr.c_field(),
            };
            Ok(
                jump_to(
                    State {
                        call_stack: s.call_stack.push(frame),
                        window_base: func_abs + 1,
                        ..s
                    },
                    entry,
                ),
            )
        },
    }
}

/// `TAILCALL A B C`: moves the `B` arguments above `R[A]` down to the start of
/// the current window and jumps to the function's entry, keeping the frame.
pub open spec fn exec_tail_call(s: State, instr: Instruction) -> Result<Effect, Fault> {
    let func_abs = reg(s, instr.a_field());
    let argc = instr.b_field() as nat;
    match callee_entry(s, func_abs, false) {
        Err(f) => Err(f),
        Ok(entry) => if copy_in_range(s, s.window_base, func_abs + 1, argc) {
            Ok(
                jump_to(
                    State {
                        registers: copy_regs(s.registers, s.window_base, func_abs + 1, argc),
                        ..s
                    },
                    entry,
                ),
            )
        } else {
            Err(Fault::IndexOutOfBounds)
        },
    }
}

/// `RETURN A B`: with no frame to return to, stops the machine; otherwise
/// copies `min(caller's C, B)` values from `R[A]..` to the caller's function
/// slot, restores the caller's window and resumes after the call.
pub open spec fn exec_return(s: State, instr: Instruction) -> Result<Effect, Fault> {
    if s.call_stack.len() == 0 {
        Ok(jump_to(s, s.code.len() as usize))
    } else {
        let frame = s.call_stack.last();
        let n: nat = if frame.retc <= instr.b_field() {
            frame.retc as nat
        } else {
            instr.b_field() as nat
        };
        let src = reg(s, instr.a_field());
        if copy_in_range(s, frame.ret_base as int, src, n) {
            Ok(
                jump_to(
                    State {
                        registers: copy_regs(s.registers, frame.ret_base as int, src, n),
                        window_base: frame.caller_window as int,
                        call_stack: s.call_stack.drop_last(),
                        ..s
                    },
                    frame.return_ip,
                ),
            )
        } else {
            Err(Fault::IndexOutOfBounds)
        }
    }
}

// ── Data movement ───────────────────────────────────────────────────────

/// The globals table grown with `Nil` so that it has slot `d`.
pub open spec fn grow_globals(g: Seq<Value>, d: int) -> Seq<Value> {
    if d < g.len() {
        g
    } else {
        g + Seq::new((d + 1 - g.len()) as nat, |i: int| Value::Nil)
    }
}

pub open spec fn exec_store_global(s: State, instr: Instruction) -> Result<Effect, Fault> {
    let d = instr.d_field() as int;
    match read_reg(s, reg(s, instr.a_field())) {
        Err(f) => Err(f),
        Ok(v) => Ok(proceed(State { globals: grow_globals(s.globals, d).update(d, v), ..s })),
    }
}

pub open spec fn exec_load_global(s: State, instr: Instruction) -> Result<Effect, Fault> {
    let d = instr.d_field() as int;
    let v = if d < s.globals.len() {
        s.globals[d]
    } else {
        Value::Nil
    };
    write_then_proceed(s, reg(s, instr.a_field()), v)
}

pub open spec fn exec_load_k(s: State, instr: Instruction) -> Result<Effect, Fault> {
    match read_const(s, instr.d_field() as int) {
        Err(f) => Err(f),
        Ok(v) => write_then_proceed(s, reg(s, instr.a_field()), v),
    }
}

pub open spec fn exec_move(s: State, instr: Instruction) -> Result<Effect, Fault> {
    match read_reg(s, reg(s, instr.b_field())) {
        Err(f) => Err(f),
        Ok(v) => write_then_proceed(s, reg(s, instr.a_field()), v),
    }
}

/// `GETINDEX A B C`: the character code at index `R[C]` of a string, or the
/// element at index `R[C]` of an array; `0` and `Nil` when out of range.
pub open spec fn exec_get_index(s: State, instr: Instruction) -> Result<Effect, Fault> {
    let a = reg(s, instr.a_field());
    let c = reg(s, instr.c_field());
    match read_reg(s, reg(s, instr.b_field())) {
        Err(f) => Err(f),
        Ok(Value::Str(si)) => {
            let text = string_or_invalid(s, si);
            match read_reg(s, c) {
                Err(f) => Err(f),
                Ok(Value::Int(n)) => {
                    let idx = (n as usize) as int;
                    let ch = if idx < text.len() {
                        text[idx]
                    } else {
                        '\0'
                    };
                    write_then_proceed(s, a, Value::Int((ch as u32) as i32))
                },
                Ok(other) => Err(Fault::GetIndexStrBadIndex(other)),
            }
        },
        Ok(Value::Array(ai)) => match read_reg(s, c) {
            Err(f) => Err(f),
            Ok(Value::Int(n)) => {
                let idx = (n as usize) as int;
                let v = if (ai as int) < s.arrays.len() && idx < s.arrays[ai as int].len() {
                    s.arrays[ai as int][idx]
                } else {
                    Value::Nil
                };
                write_then_proceed(s, a, v)
            },
            Ok(other) => Err(Fault::GetIndexArrayBadIndex(other)),
        },
        Ok(other) => Err(Fault::GetIndexBadTarget(other)),
    }
}

/// `SETINDEX A B C` on a string: replaces the character at index `R[B]` by
/// the one with code `R[C]` (`'\0'` for a code that is no character). An
/// index past the string's length in bytes is ignored; an index inside it but
/// past its length in characters is out of bounds.
pub open spec fn set_string_char(s: State, instr: Instruction, si: u32) -> Result<Effect, Fault> {
    if (si as int) >= s.strings.len() {
        Err(Fault::SetIndexInvalidString(si))
    } else {
        match read_reg(s, reg(s, instr.b_field())) {
            Err(f) => Err(f),
            Ok(Value::Int(n)) => {
                let idx = (n as usize) as int;
                match read_reg(s, reg(s, instr.c_field())) {
                    Err(f) => Err(f),
                    Ok(Value::Int(code)) => {
                        let ch = char_or_nul(code as u32);
                        let text = s.strings[si as int];
                        if idx < utf8_len(text) {
                            if idx < text.len() {
                                Ok(
                                    proceed(
                                        State {
                                            strings: s.strings.update(
                                                si as int,
                                                text.update(idx, ch),
                                            ),
                                            ..s
                                        },
                                    ),
                                )
                            } else {
                                Err(Fault::IndexOutOfBounds)
                            }
                        } else {
                            Ok(proceed(s))
                        }
                    },
                    Ok(other) => Err(Fault::SetIndexStrBadChar(other)),
                }
            },
            Ok(other) => Err(Fault::SetIndexStrBadIndex(other)),
        }
    }
}

/// `SETINDEX A B C` on an array: sets the element at index `R[B]` to `R[C]`;
/// an index out of range is ignored.
pub open spec fn set_array_elem(s: State, instr: Instruction, ai: u32) -> Result<Effect, Fault> {
    match read_reg(s, reg(s, instr.b_field())) {
        Err(f) => Err(f),
        Ok(Value::Int(n)) => {
            let idx = (n as usize) as int;
            match read_reg(s, reg(s, instr.c_field())) {
                Err(f) => Err(f),
                Ok(v) => if (ai as int) >= s.arrays.len() {
                    Err(Fault::SetIndexInvalidArray(ai))
                } else if idx < s.arrays[ai as int].len() {
                    Ok(
                        proceed(
                            State {
                                arrays: s.arrays.update(
                                    ai as int,
                                    s.arrays[ai as int].update(idx, v),
                                ),
                                ..s
                            },
                        ),
                    )
                } else {
                    Ok(proceed(s))
                },
            }
        },
        Ok(other) => Err(Fault::SetIndexArrayBadIndex(other)),
    }
}

pub open spec fn exec_set_index(s: State, instr: Instruction) -> Result<Effect, Fault> {
    match read_reg(s, reg(s, instr.a_field())) {
        Err(f) => Err(f),
        Ok(Value::Str(si)) => set_string_char(s, instr, si),
        Ok(Value::Array(ai)) => set_array_elem(s, instr, ai),
        Ok(other) => Err(Fault::SetIndexBadTarget(other)),
    }
}

/// `NEWARRAY A D`: a new array of `D` `Nil` slots at the end of the heap.
pub open spec fn exec_new_array(s: State, instr: Instruction) -> Result<Effect, Fault> {
    let a = reg(s, instr.a_field());
    if in_regs(s, a) {
        let fresh = Seq::new(instr.d_field() as nat, |i: int| Value::Nil);
        let t = State { arrays: s.arrays.push(fresh), ..s };
        Ok(proceed(with_reg(t, a, Value::Array(s.arrays.len() as u32))))
    } else {
        Err(Fault::IndexOutOfBounds)
    }
}

/// `COPYRANGE A B C`: copies `C` registers from `R[B]..` to `R[A]..`.
pub open spec fn exec_copy_range(s: State, instr: Instruction) -> Result<Effect, Fault> {
    let a = reg(s, instr.a_field());
    let b = reg(s, instr.b_field());
    let n = instr.c_field() as nat;
    if copy_in_range(s, a, b, n) {
        Ok(proceed(State { registers: copy_regs(s.registers, a, b, n), ..s }))
    } else {
        Err(Fault::IndexOutOfBounds)
    }
}

/// `LENV A B`: the number of characters of a string or of elements of an
/// array; `0` for one that does not exist.
pub open spec fn exec_len_v(s: State, instr: Instruction) -> Result<Effect, Fault> {
    let a = reg(s, instr.a_field());
    match read_reg(s, reg(s, instr.b_field())) {
        Err(f) => Err(f),
        Ok(Value::Str(si)) => {
            let n: nat = if (si as int) < s.strings.len() {
                s.strings[si as int].len()
            } else {
                0
            };
            write_then_proceed(s, a, Value::Int(n as i32))
        },
        Ok(Value::Array(ai)) => {
            let n: nat = if (ai as int) < s.arrays.len() {
                s.arrays[ai as int].len()
            } else {
                0
            };
            write_then_proceed(s, a, Value::Int(n as i32))
        },
        Ok(other) => Err(Fault::LenVBadOperand(other)),
    }
}

/// `LENK A D`: the number of characters of the string constant `D`.
pub open spec fn exec_len_k(s: State, instr: Instruction) -> Result<Effect, Fault> {
    let d = instr.d_field() as int;
    if d >= s.constants.len() {
        Err(Fault::LenKInvalidConstant(d as usize))
    } else {
        match s.constants[d] {
            Value::Str(si) => write_then_proceed(
                s,
                reg(s, instr.a_field()),
                Value::Int(string_or_invalid(s, si).len() as i32),
            ),
            other => Err(Fault::LenKNotStr(other)),
        }
    }
}

/// Appends a new string to the table and stores a reference to it in `R[A]`.
pub open spec fn push_string(s: State, instr: Instruction, text: Seq<char>) -> Result<
    Effect,
    Fault,
> {
    let a = reg(s, instr.a_field());
    if in_regs(s, a) {
        let t = State { strings: s.strings.push(text), ..s };
        Ok(proceed(with_reg(t, a, Value::Str(s.strings.len() as u32))))
    } else {
        Err(Fault::IndexOutOfBounds)
    }
}

pub open spec fn exec_concat_vv(s: State, instr: Instruction) -> Result<Effect, Fault> {
    match read_reg(s, reg(s, instr.b_field())) {
        Err(f) => Err(f),
        Ok(Value::Str(s1)) => match read_reg(s, reg(s, instr.c_field())) {
            Err(f) => Err(f),
            Ok(Value::Str(s2)) => push_string(
                s,
                instr,
                string_or_invalid(s, s1) + string_or_invalid(s, s2),
            ),
            Ok(other) => Err(Fault::ConcatVVNotStr(other)),
        },
        Ok(other) => Err(Fault::ConcatVVNotStr(other)),
    }
}

pub open spec fn exec_concat_vk(s: State, instr: Instruction) -> Result<Effect, Fault> {
    let c = instr.c_field() as int;
    match read_reg(s, reg(s, instr.b_field())) {
        Err(f) => Err(f),
        Ok(Value::Str(s1)) => if c >= s.constants.len() {
            Err(Fault::ConcatVKInvalidConstant(c as usize))
        } else {
            match s.constants[c] {
                Value::Str(s2) => push_string(
                    s,
                    instr,
                    string_or_invalid(s, s1) + string_or_invalid(s, s2),
                ),
                other => Err(Fault::ConcatVKNotStrConstant(other)),
            }
        },
        Ok(other) => Err(Fault::ConcatVKNotStr(other)),
    }
}

// ── Unary operations and printing ───────────────────────────────────────

pub open spec fn exec_not(s: State, instr: Instruction) -> Result<Effect, Fault> {
    match read_reg(s, reg(s, instr.b_field())) {
        Err(f) => Err(f),
        Ok(v) => write_then_proceed(s, reg(s, instr.a_field()), Value::Bool(!truthy(s, v))),
    }
}

pub open spec fn exec_neg(s: State, instr: Instruction) -> Result<Effect, Fault> {
    match read_int(s, reg(s, instr.b_field())) {
        Err(f) => Err(f),
        Ok(x) => if x == i32::MIN {
            Err(Fault::Arithmetic(ArithFault::NegOverflow))
        } else {
            write_then_proceed(s, reg(s, instr.a_field()), Value::Int(-x as i32))
        },
    }
}

pub open spec fn exec_bit_not(s: State, instr: Instruction) -> Result<Effect, Fault> {
    match read_int(s, reg(s, instr.b_field())) {
        Err(f) => Err(f),
        Ok(x) => write_then_proceed(s, reg(s, instr.a_field()), Value::Int(!x)),
    }
}

pub open spec fn exec_printf(s: State, instr: Instruction) -> Result<Effect, Fault> {
    match read_reg(s, reg(s, instr.a_field())) {
        Err(f) => Err(f),
        Ok(Value::Str(i)) => Ok(
            Effect { state: s, jump: None, output: Some(OutputView::Text(string_or_invalid(s, i))) },
        ),
        Ok(Value::Int(n)) => Ok(Effect { state: s, jump: None, output: Some(OutputView::Int(n)) }),
        Ok(Value::Bool(b)) => Ok(Effect { state: s, jump: None, output: Some(OutputView::Bool(b)) }),
        Ok(other) => Err(Fault::PrintfBadOperand(other)),
    }
}

// ── One instruction, one step, a whole run ──────────────────────────────

/// What executing `instr` in state `s` does.
pub open spec fn execute(s: State, instr: Instruction) -> Result<Effect, Fault> {
    match decode_opcode(instr.op_field()) {
        Err(b) => Err(Fault::UnknownOpcode(b)),
        Ok(op) => match int_op_of(op) {
            Some((iop, k)) => exec_int_op(s, instr, iop, k),
            None => match compare_of(op) {
                Some((cop, k)) => exec_compare(s, instr, cop, k),
                None => execute_other(s, instr, op),
            },
        },
    }
}

/// What the opcodes other than the arithmetic, bitwise and comparison ones do.
pub open spec fn execute_other(s: State, instr: Instruction, op: Opcode) -> Result<Effect, Fault> {
    let a = reg(s, instr.a_field());
    let d = instr.d_field();
    match op {
        Opcode::Halt => Ok(jump_to(s, s.code.len() as usize)),
        Opcode::Jump => Ok(jump_to(s, d as usize)),
        Opcode::JumpIf => exec_jump_cond(s, instr, true),
        Opcode::JumpIfNot => exec_jump_cond(s, instr, false),
        Opcode::ForPrep => exec_for_prep(s, instr),
        Opcode::ForLoop => exec_for_loop(s, instr),
        Opcode::TailCall => exec_tail_call(s, instr),
        Opcode::LoadK => exec_load_k(s, instr),
        Opcode::Move => exec_move(s, instr),
        Opcode::LoadGlobal => exec_load_global(s, instr),
        Opcode::StoreGlobal => exec_store_global(s, instr),
        Opcode::LoadFunc => write_then_proceed(s, a, Value::Func(d)),
        Opcode::LoadInt => write_then_proceed(s, a, Value::Int((d as i16) as i32)),
        Opcode::LoadBool => write_then_proceed(s, a, Value::Bool(d != 0)),
        Opcode::LoadNil => write_then_proceed(s, a, Value::Nil),
        Opcode::GetIndex => exec_get_index(s, instr),
        Opcode::SetIndex => exec_set_index(s, instr),
        Opcode::NewArray => exec_new_array(s, instr),
        Opcode::CopyRange => exec_copy_range(s, instr),
        Opcode::LenV => exec_len_v(s, instr),
        Opcode::LenK => exec_len_k(s, instr),
        Opcode::ConcatVV => exec_concat_vv(s, instr),
        Opcode::ConcatVK => exec_concat_vk(s, instr),
        Opcode::NotV => exec_not(s, instr),
        Opcode::NegV => exec_neg(s, instr),
        Opcode::BitNotV => exec_bit_not(s, instr),
        Opcode::Call => exec_call(s, instr),
        Opcode::Return => exec_return(s, instr),
        Opcode::Printf => exec_printf(s, instr),
        // Nop, and the opcodes that `execute` handles before reaching here.
        _ => Ok(proceed(s)),
    }
}

/// `t`, the state after an instruction, keeps the frame of `s`: it is well
/// formed, has the same instruction pointer and program (code, constants,
/// functions), no fewer strings, globals or arrays, and every old array keeps
/// its length.
pub open spec fn keeps_frame(s: State, t: State) -> bool {
    &&& t.wf()
    &&& t.ip == s.ip
    &&& t.code == s.code
    &&& t.constants == s.constants
    &&& t.functions == s.functions
    &&& t.strings.len() >= s.strings.len()
    &&& t.globals.len() >= s.globals.len()
    &&& t.arrays.len() >= s.arrays.len()
    &&& forall|k: int| 0 <= k < s.arrays.len() ==> (#[trigger] t.arrays[k]).len() == s.arrays[k].len()
}

pub open spec fn frame_kept(s: State, r: Result<Effect, Fault>) -> bool {
    r matches Ok(e) ==> keeps_frame(s, e.state)
}

proof fn lemma_write_frame(s: State, i: int, v: Value)
    requires
        s.wf(),
    ensures
        frame_kept(s, write_then_proceed(s, i, v)),
{
}

proof fn lemma_copy_frame(s: State, dst: int, src: int, n: nat)
    requires
        s.wf(),
        copy_in_range(s, dst, src, n),
    ensures
        keeps_frame(s, State { registers: copy_regs(s.registers, dst, src, n), ..s }),
{
    lemma_copy_regs_len(s.registers, dst, src, n);
}

proof fn lemma_call_frame(s: State, instr: Instruction)
    requires
        s.wf(),
    ensures
        frame_kept(s, exec_call(s, instr)),
{
    if let Ok(e) = exec_call(s, instr) {
        let t = e.state;
        assert forall|k: int| 0 <= k < t.call_stack.len() implies {
            &&& (#[trigger] t.call_stack[k]).caller_window <= NUM_REGISTERS
            &&& t.call_stack[k].ret_base < NUM_REGISTERS
        } by {
            if k < s.call_stack.len() {
                assert(t.call_stack[k] == s.call_stack[k]);
            }
        }
    }
}

proof fn lemma_return_frame(s: State, instr: Instruction)
    requires
        s.wf(),
    ensures
        frame_kept(s, exec_return(s, instr)),
{
    if s.call_stack.len() > 0 {
        let frame = s.call_stack.last();
        let n: nat = if frame.retc <= instr.b_field() {
            frame.retc as nat
        } else {
            instr.b_field() as nat
        };
        let src = reg(s, instr.a_field());
        assert(s.call_stack[s.call_stack.len() - 1] == frame);
        if copy_in_range(s, frame.ret_base as int, src, n) {
            lemma_copy_regs_len(s.registers, frame.ret_base as int, src, n);
            let t = exec_return(s, instr).unwrap().state;
            assert forall|k: int| 0 <= k < t.call_stack.len() implies {
                &&& (#[trigger] t.call_stack[k]).caller_window <= NUM_REGISTERS
                &&& t.call_stack[k].ret_base < NUM_REGISTERS
            } by {
                assert(t.call_stack[k] == s.call_stack[k]);
            }
        }
    }
}

proof fn lemma_heap_frame(s: State, instr: Instruction)
    requires
        s.wf(),
    ensures
        frame_kept(s, exec_set_index(s, instr)),
        frame_kept(s, exec_new_array(s, instr)),
        frame_kept(s, exec_store_global(s, instr)),
        frame_kept(s, exec_concat_vv(s, instr)),
        frame_kept(s, exec_concat_vk(s, instr)),
{
    if let Ok(e) = exec_set_index(s, instr) {
        assert forall|k: int| 0 <= k < s.arrays.len() implies (#[trigger] e.state.arrays[k]).len()
            == s.arrays[k].len() by {}
    }
    if let Ok(e) = exec_new_array(s, instr) {
        assert forall|k: int| 0 <= k < s.arrays.len() implies (#[trigger] e.state.arrays[k]).len()
            == s.arrays[k].len() by {
            assert(e.state.arrays[k] == s.arrays[k]);
        }
    }
    let d = instr.d_field() as int;
    assert(grow_globals(s.globals, d).len() >= s.globals.len());
}

/// Only `Call` and `Return` change the call stack or the register window.
pub proof fn lemma_execute_keeps_stack(s: State, instr: Instruction)
    requires
        s.wf(),
        decode_opcode(instr.op_field()) is Ok,
        decode_opcode(instr.op_field()) != Ok::<Opcode, u8>(Opcode::Call),
        decode_opcode(instr.op_field()) != Ok::<Opcode, u8>(Opcode::Return),
    ensures
        execute(s, instr) matches Ok(e) ==> e.state.call_stack == s.call_stack
            && e.state.window_base == s.window_base,
{
    let op = decode_opcode(instr.op_field())->Ok_0;
    if int_op_of(op) is None && compare_of(op) is None {
        assert(execute(s, instr) == execute_other(s, instr, op));
    }
}

/// Executing an instruction keeps the frame of the state: see `keeps_frame`.
pub proof fn lemma_execute_frame(s: State, instr: Instruction)
    requires
        s.wf(),
    ensures
        frame_kept(s, execute(s, instr)),
{
    if let Ok(op) = decode_opcode(instr.op_field()) {
        if let Some((iop, k)) = int_op_of(op) {
            if let Ok((x, y)) = int_operands(s, instr, k) {
                if let Ok(r) = int_op(iop, x, y) {
                    lemma_write_frame(s, reg(s, instr.a_field()), Value::Int(r));
                }
            }
        } else if let Some((cop, k)) = compare_of(op) {
            if let Ok((x, y)) = int_operands(s, instr, k) {
                lemma_write_frame(s, reg(s, instr.a_field()), Value::Bool(compare(cop, x, y)));
            }
        } else {
            match op {
                Opcode::TailCall => {
                    let func_abs = reg(s, instr.a_field());
                    if copy_in_range(s, s.window_base, func_abs + 1, instr.b_field() as nat) {
                        lemma_copy_frame(s, s.window_base, func_abs + 1, instr.b_field() as nat);
                    }
                },
                Opcode::CopyRange => {
                    let a = reg(s, instr.a_field());
                    let b = reg(s, instr.b_field());
                    if copy_in_range(s, a, b, instr.c_field() as nat) {
                        lemma_copy_frame(s, a, b, instr.c_field() as nat);
                    }
                },
                Opcode::Return => lemma_return_frame(s, instr),
                Opcode::Call => lemma_call_frame(s, instr),
                _ => {
                    lemma_heap_frame(s, instr);
                    assert(frame_kept(s, exec_for_prep(s, instr)));
                    assert(frame_kept(s, exec_for_loop(s, instr)));
                    assert(frame_kept(s, exec_get_index(s, instr)));
                    assert(frame_kept(s, exec_len_v(s, instr)));
                    assert(frame_kept(s, exec_len_k(s, instr)));
                    assert(frame_kept(s, exec_printf(s, instr)));
                    assert(frame_kept(s, exec_load_global(s, instr)));
                    assert(frame_kept(s, exec_load_k(s, instr)));
                    assert(frame_kept(s, exec_move(s, instr)));
                    assert(frame_kept(s, exec_not(s, instr)));
                    assert(frame_kept(s, exec_neg(s, instr)));
                    if let Ok(x) = read_int(s, reg(s, instr.b_field())) {
                        lemma_write_frame(s, reg(s, instr.a_field()), Value::Int(!x));
                    }
                    assert(frame_kept(s, exec_bit_not(s, instr)));
                    assert(frame_kept(s, exec_jump_cond(s, instr, true)));
                    assert(frame_kept(s, exec_jump_cond(s, instr, false)));
                    let a = reg(s, instr.a_field());
                    let d = instr.d_field();
                    lemma_write_frame(s, a, Value::Func(d));
                    lemma_write_frame(s, a, Value::Int((d as i16) as i32));
                    lemma_write_frame(s, a, Value::Bool(d != 0));
                    lemma_write_frame(s, a, Value::Nil);
                },
            }
            assert(frame_kept(s, execute_other(s, instr, op)));
        }
    }
}

/// The instruction pointer after an effect: its jump target, or the next
/// instruction.
pub open spec fn next_ip(s: State, e: Effect) -> int {
    match e.jump {
        Some(t) => t as int,
        None => s.ip + 1,
    }
}

/// One step of the machine: executes the instruction at `ip` and moves `ip`.
pub open spec fn step(s: State) -> Result<(State, Option<OutputView>), Fault>
    recommends
        0 <= s.ip < s.code.len(),
{
    match execute(s, s.code[s.ip]) {
        Err(f) => Err(f),
        Ok(e) => Ok((State { ip: next_ip(s, e), ..e.state }, e.output)),
    }
}

pub open spec fn output_seq(o: Option<OutputView>) -> Seq<OutputView> {
    match o {
        Some(x) => seq![x],
        None => Seq::empty(),
    }
}

/// Running for at most `fuel` steps: the halted state and everything printed
/// on the way, or `None` when a step faults or the machine has not halted
/// within `fuel` steps.
pub open spec fn run_fuel(s: State, fuel: nat) -> Option<(State, Seq<OutputView>)>
    decreases fuel,
{
    if s.ip < 0 || s.halted() {
        Some((s, Seq::empty()))
    } else if fuel == 0 {
        None
    } else {
        match step(s) {
            Err(_) => None,
            Ok((t, o)) => match run_fuel(t, (fuel - 1) as nat) {
                None => None,
                Some((u, outs)) => Some((u, output_seq(o) + outs)),
            },
        }
    }
}

/// The machine halts, without a fault, after finitely many steps.
pub open spec fn terminates(s: State) -> bool {
    exists|n: nat| (#[trigger] run_fuel(s, n)) is Some
}

/// The halted state of a terminating run and everything it printed.
pub open spec fn run_result(s: State) -> (State, Seq<OutputView>) {
    run_fuel(s, choose|n: nat| (#[trigger] run_fuel(s, n)) is Some).unwrap()
}

} // verus!
