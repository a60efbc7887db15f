//! What single instructions do, stated over their operands and results.
use vstd::prelude::*;

use crate::codegen::bytecode::{Opcode, Value};
use super::laws::{current_op, law_step_keeps_frame, lemma_copy_regs_down};
use super::semantics::{
    abs, execute, proceed, read_int, reg, step, trunc_div, trunc_rem, with_reg, Effect,
    OutputView, State, NUM_REGISTERS,
};
use super::Fault;

verus! {

/// `v` is an `Int` holding the integer `z`.
pub open spec fn holds_int(v: Value, z: int) -> bool {
    v matches Value::Int(n) && n == z
}

/// `q` is `x / y` rounded towards zero: the remainder `x - q * y` is smaller
/// than `y` in magnitude and is zero or has the sign of `x`.
pub open spec fn is_truncated_quotient(x: int, y: int, q: int) -> bool {
    let m = x - q * y;
    &&& abs(m) < abs(y)
    &&& (m == 0 || (m < 0) == (x < 0))
}

/// `r` is the remainder of `x / y` rounded towards zero: `x - r` is a
/// multiple of `y`, and `r` is smaller than `y` in magnitude and is zero or
/// has the sign of `x`.
pub open spec fn is_truncated_remainder(x: int, y: int, r: int) -> bool {
    &&& exists|q: int| #[trigger] (q * y) == x - r
    &&& abs(r) < abs(y)
    &&& (r == 0 || (r < 0) == (x < 0))
}

proof fn lemma_truncated_division(x: int, y: int)
    requires
        y != 0,
    ensures
        i32::MIN <= x <= i32::MAX && i32::MIN <= y <= i32::MAX && !(x == i32::MIN && y == -1)
            ==> i32::MIN <= trunc_div(x, y) <= i32::MAX,
        x - trunc_div(x, y) * y == trunc_rem(x, y),
        is_truncated_quotient(x, y, trunc_div(x, y)),
        is_truncated_remainder(x, y, trunc_rem(x, y)),
{
    let a = abs(x);
    let b = abs(y);
    let q = a / b;
    let m = a % b;
    assert(a == b * q + m && 0 <= m < b) by (nonlinear_arith)
        requires
            a >= 0,
            b > 0,
            q == a / b,
            m == a % b,
    ;
    assert(q <= a && (b >= 2 ==> 2 * q <= a)) by (nonlinear_arith)
        requires
            a >= 0,
            b > 0,
            q == a / b,
    ;
    let d = trunc_div(x, y);
    assert(d * y == if x < 0 { -(b * q) } else { b * q }) by (nonlinear_arith)
        requires
            d == (if (x < 0) == (y < 0) { q } else { -q }),
            b == (if y < 0 { -y } else { y }),
    ;
    assert(x - d * y == trunc_rem(x, y));
    assert(d * y == x - trunc_rem(x, y));
}

proof fn lemma_with_reg_at(s: State, a: int, v: Value)
    requires
        0 <= a < s.registers.len(),
    ensures
        with_reg(s, a, v).registers[a] == v,
{
}

/// The registers other than `R[A]` keep their values, and execution goes on
/// with the next instruction.
pub open spec fn writes_only(s: State, t: State, a: int) -> bool {
    &&& t.ip == s.ip + 1
    &&& t.registers.len() == s.registers.len()
    &&& forall|k: int| 0 <= k < s.registers.len() && k != a ==> #[trigger] t.registers[k] == s.registers[k]
}

/// The result of an arithmetic or bitwise instruction on the integers `x`
/// and `y`, by opcode.
pub open spec fn int_result_is(op: Opcode, x: i32, y: i32, r: Value) -> bool {
    &&& (op == Opcode::AddVV || op == Opcode::AddVK) ==> holds_int(r, x + y)
    &&& (op == Opcode::SubVV || op == Opcode::SubVK) ==> holds_int(r, x - y)
    &&& (op == Opcode::MulVV || op == Opcode::MulVK) ==> holds_int(r, x * y)
    &&& (op == Opcode::DivVV || op == Opcode::DivVK) ==> y != 0 && (r matches Value::Int(q)
        && is_truncated_quotient(x as int, y as int, q as int))
    &&& (op == Opcode::ModVV || op == Opcode::ModVK) ==> y != 0 && (r matches Value::Int(m)
        && is_truncated_remainder(x as int, y as int, m as int))
    &&& (op == Opcode::AndVV || op == Opcode::AndVK) ==> r == Value::Int(x & y)
    &&& (op == Opcode::OrVV || op == Opcode::OrVK) ==> r == Value::Int(x | y)
    &&& (op == Opcode::XorVV || op == Opcode::XorVK) ==> r == Value::Int(x ^ y)
    &&& (op == Opcode::ShlVV || op == Opcode::ShlVK) ==> 0 <= y < 32 && r == Value::Int(x << y)
    &&& (op == Opcode::ShrVV || op == Opcode::ShrVK || op == Opcode::SarVV || op == Opcode::SarVK)
        ==> 0 <= y < 32 && r == Value::Int(x >> y)
}

/// The result of a comparison instruction on the integers `x` and `y`, by
/// opcode.
pub open spec fn compare_result_is(op: Opcode, x: i32, y: i32, r: Value) -> bool {
    &&& (op == Opcode::EqVV || op == Opcode::EqVK) ==> r == Value::Bool(x == y)
    &&& (op == Opcode::LtVV || op == Opcode::LtVK) ==> r == Value::Bool(x < y)
    &&& (op == Opcode::LteVV || op == Opcode::LteVK) ==> r == Value::Bool(x <= y)
    &&& (op == Opcode::GtVV || op == Opcode::GtVK) ==> r == Value::Bool(x > y)
    &&& (op == Opcode::GteVV || op == Opcode::GteVK) ==> r == Value::Bool(x >= y)
}

pub open spec fn is_register_register(op: Opcode) -> bool {
    op == Opcode::AddVV || op == Opcode::SubVV || op == Opcode::MulVV || op == Opcode::DivVV || op
        == Opcode::ModVV || op == Opcode::AndVV || op == Opcode::OrVV || op == Opcode::XorVV || op
        == Opcode::ShlVV || op == Opcode::ShrVV || op == Opcode::SarVV || op == Opcode::EqVV || op
        == Opcode::LtVV || op == Opcode::LteVV || op == Opcode::GtVV || op == Opcode::GteVV
}

pub open spec fn is_register_constant(op: Opcode) -> bool {
    op == Opcode::AddVK || op == Opcode::SubVK || op == Opcode::MulVK || op == Opcode::DivVK || op
        == Opcode::ModVK || op == Opcode::AndVK || op == Opcode::OrVK || op == Opcode::XorVK || op
        == Opcode::ShlVK || op == Opcode::ShrVK || op == Opcode::SarVK || op == Opcode::EqVK || op
        == Opcode::LtVK || op == Opcode::LteVK || op == Opcode::GtVK || op == Opcode::GteVK
}

/// When a binary instruction on the integers `x` and `y` succeeds: a sum,
/// difference or product that fits in `i32`; a division or remainder by a
/// non-zero divisor other than `i32::MIN` by `-1`; a shift by `0 ..= 31`;
/// bitwise operations and comparisons always.
pub open spec fn operation_succeeds(op: Opcode, x: i32, y: i32) -> bool {
    if op == Opcode::AddVV || op == Opcode::AddVK {
        i32::MIN <= x + y <= i32::MAX
    } else if op == Opcode::SubVV || op == Opcode::SubVK {
        i32::MIN <= x - y <= i32::MAX
    } else if op == Opcode::MulVV || op == Opcode::MulVK {
        i32::MIN <= x * y <= i32::MAX
    } else if op == Opcode::DivVV || op == Opcode::DivVK || op == Opcode::ModVV || op
        == Opcode::ModVK {
        y != 0 && !(x == i32::MIN && y == -1)
    } else if op == Opcode::ShlVV || op == Opcode::ShlVK || op == Opcode::ShrVV || op
        == Opcode::ShrVK || op == Opcode::SarVV || op == Opcode::SarVK {
        0 <= y < 32
    } else {
        true
    }
}

/// The operands and the result register of a binary instruction lie in the
/// register file and the constant pool, and hold the integers `x` and `y`.
pub open spec fn binary_operands(s: State, op: Opcode, x: i32, y: i32) -> bool {
    let instr = s.code[s.ip];
    &&& 0 <= reg(s, instr.a_field()) < NUM_REGISTERS
    &&& 0 <= reg(s, instr.b_field()) < NUM_REGISTERS
    &&& s.registers[reg(s, instr.b_field())] == Value::Int(x)
    &&& is_register_register(op) ==> {
        &&& 0 <= reg(s, instr.c_field()) < NUM_REGISTERS
        &&& s.registers[reg(s, instr.c_field())] == Value::Int(y)
    }
    &&& is_register_constant(op) ==> {
        &&& (instr.c_field() as int) < s.constants.len()
        &&& s.constants[instr.c_field() as int] == Value::Int(y)
    }
}

proof fn lemma_binary_result(s: State, op: Opcode, x: i32, y: i32)
    requires
        s.wf(),
        0 <= s.ip < s.code.len(),
        current_op(s) == Ok::<Opcode, u8>(op),
        is_register_register(op) || is_register_constant(op),
        binary_operands(s, op, x, y),
    ensures
        step(s) is Ok <==> operation_succeeds(op, x, y),
        step(s) is Ok ==> ({
            let t = step(s)->Ok_0.0;
            let a = reg(s, s.code[s.ip].a_field());
            &&& int_result_is(op, x, y, t.registers[a])
            &&& compare_result_is(op, x, y, t.registers[a])
            &&& writes_only(s, t, a)
        }),
{
    if y != 0 {
        lemma_truncated_division(x as int, y as int);
    }
    if step(s) is Ok {
        law_step_keeps_frame(s);
    }
}

/// Arithmetic, bitwise and comparison instructions with two register
/// operands (`…VV`) on the integers `x` in `R[B]` and `y` in `R[C]`: they
/// succeed exactly when `operation_succeeds`, and then `R[A]` gets the exact
/// sum, difference or product, the quotient or remainder of division rounded
/// towards zero, the bitwise or shift result, or the comparison as a `Bool`.
/// No other register changes and execution goes on with the next
/// instruction.
pub proof fn law_register_register_operations(s: State, op: Opcode, x: i32, y: i32)
    requires
        s.wf(),
        0 <= s.ip < s.code.len(),
        current_op(s) == Ok::<Opcode, u8>(op),
        is_register_register(op),
        binary_operands(s, op, x, y),
    ensures
        step(s) is Ok <==> operation_succeeds(op, x, y),
        step(s) is Ok ==> ({
            let t = step(s)->Ok_0.0;
            let a = reg(s, s.code[s.ip].a_field());
            &&& int_result_is(op, x, y, t.registers[a])
            &&& compare_result_is(op, x, y, t.registers[a])
            &&& writes_only(s, t, a)
        }),
{
    lemma_binary_result(s, op, x, y);
}

/// Arithmetic, bitwise and comparison instructions with a constant operand
/// (`…VK`): the right operand is the constant `constants[C]`, never the
/// register numbered `C`; with `x` in `R[B]` and `y` that constant, they
/// succeed and compute as the register forms do.
pub proof fn law_register_constant_operations(s: State, op: Opcode, x: i32, y: i32)
    requires
        s.wf(),
        0 <= s.ip < s.code.len(),
        current_op(s) == Ok::<Opcode, u8>(op),
        is_register_constant(op),
        binary_operands(s, op, x, y),
    ensures
        step(s) is Ok <==> operation_succeeds(op, x, y),
        step(s) is Ok ==> ({
            let t = step(s)->Ok_0.0;
            let a = reg(s, s.code[s.ip].a_field());
            &&& int_result_is(op, x, y, t.registers[a])
            &&& compare_result_is(op, x, y, t.registers[a])
            &&& writes_only(s, t, a)
        }),
{
    lemma_binary_result(s, op, x, y);
}

/// `NEGV` and `BITNOTV` on the integer `x` in `R[B]` write `-x` and `!x` to
/// `R[A]`.
pub proof fn law_unary_integer_operations(s: State, op: Opcode, x: i32)
    requires
        s.wf(),
        0 <= s.ip < s.code.len(),
        current_op(s) == Ok::<Opcode, u8>(op),
        op == Opcode::NegV || op == Opcode::BitNotV,
        step(s) is Ok,
        s.registers[reg(s, s.code[s.ip].b_field())] == Value::Int(x),
    ensures
        ({
            let t = step(s)->Ok_0.0;
            let a = reg(s, s.code[s.ip].a_field());
            &&& op == Opcode::NegV ==> holds_int(t.registers[a], -x)
            &&& op == Opcode::BitNotV ==> t.registers[a] == Value::Int(!x)
            &&& writes_only(s, t, a)
        }),
{
    law_step_keeps_frame(s);
    let t = step(s)->Ok_0.0;
    let a = reg(s, s.code[s.ip].a_field());
    if op == Opcode::NegV {
        assert(x != i32::MIN);
        assert(t.registers[a] == Value::Int((-x) as i32));
    } else {
        let instr = s.code[s.ip];
        assert(read_int(s, reg(s, instr.b_field())) == Ok::<i32, Fault>(x));
        assert(execute(s, instr) == Ok::<Effect, Fault>(proceed(with_reg(s, a, Value::Int(!x)))));
        lemma_with_reg_at(s, a, Value::Int(!x));
        assert(t.registers[a] == Value::Int(!x));
    }
}

/// `JUMPIF A D` jumps to `D` exactly when `R[A]` holds `true`, a non-zero
/// integer, a function, an array or a non-empty string; `JUMPIFNOT A D`
/// exactly when it holds `false`, zero, `Nil`, an empty or missing string.
/// Neither changes anything else.
pub proof fn law_conditional_jumps(s: State, op: Opcode)
    requires
        s.wf(),
        0 <= s.ip < s.code.len(),
        current_op(s) == Ok::<Opcode, u8>(op),
        op == Opcode::JumpIf || op == Opcode::JumpIfNot,
        step(s) is Ok,
    ensures
        ({
            let t = step(s)->Ok_0.0;
            let instr = s.code[s.ip];
            let v = s.registers[reg(s, instr.a_field())];
            let taken = match v {
                Value::Nil => false,
                Value::Bool(b) => b,
                Value::Int(n) => n != 0,
                Value::Func(_) => true,
                Value::Array(_) => true,
                Value::Str(i) => (i as int) < s.strings.len() && s.strings[i as int].len() > 0,
            };
            let jumps = if op == Opcode::JumpIf {
                taken
            } else {
                !taken
            };
            &&& t.ip == (if jumps {
                instr.d_field() as int
            } else {
                s.ip + 1
            })
            &&& t == (State { ip: t.ip, ..s })
        }),
{
}

/// `NOTV A B` writes to `R[A]` the negation of the truth of `R[B]`: `Bool(!b)`
/// for `Bool(b)`, `Bool(n == 0)` for `Int(n)`, `Bool(true)` for `Nil`,
/// `Bool(false)` for a function or an array, and for a string whether the
/// string is missing or empty.
pub proof fn law_not(s: State)
    requires
        s.wf(),
        0 <= s.ip < s.code.len(),
        current_op(s) == Ok::<Opcode, u8>(Opcode::NotV),
        step(s) is Ok,
    ensures
        ({
            let t = step(s)->Ok_0.0;
            let instr = s.code[s.ip];
            let a = reg(s, instr.a_field());
            let r = t.registers[a];
            &&& match s.registers[reg(s, instr.b_field())] {
                Value::Nil => r == Value::Bool(true),
                Value::Bool(b) => r == Value::Bool(!b),
                Value::Int(n) => r == Value::Bool(n == 0),
                Value::Func(_) => r == Value::Bool(false),
                Value::Array(_) => r == Value::Bool(false),
                Value::Str(i) => r == Value::Bool(
                    !((i as int) < s.strings.len() && s.strings[i as int].len() > 0),
                ),
            }
            &&& writes_only(s, t, a)
        }),
{
    law_step_keeps_frame(s);
}

/// `FORPREP A D` with counter `c` in `R[A]` and step `k` in `R[A+2]` sets the
/// counter to `c - k` and jumps to `D`.
pub proof fn law_for_prep(s: State, c: i32, k: i32)
    requires
        s.wf(),
        0 <= s.ip < s.code.len(),
        current_op(s) == Ok::<Opcode, u8>(Opcode::ForPrep),
        step(s) is Ok,
        s.registers[reg(s, s.code[s.ip].a_field())] == Value::Int(c),
        s.registers[reg(s, s.code[s.ip].a_field()) + 2] == Value::Int(k),
    ensures
        ({
            let t = step(s)->Ok_0.0;
            let a = reg(s, s.code[s.ip].a_field());
            &&& holds_int(t.registers[a], c - k)
            &&& t.ip == s.code[s.ip].d_field() as int
            &&& forall|j: int| 0 <= j < NUM_REGISTERS && j != a ==> #[trigger] t.registers[j] == s.registers[j]
        }),
{
    law_step_keeps_frame(s);
}

/// `FORLOOP A D` with counter `c` in `R[A]`, limit `l` in `R[A+1]` and step
/// `k` in `R[A+2]` sets the counter to `c + k` and jumps back to `D` exactly
/// when the new counter has not passed the limit: `c + k <= l` for a
/// non-negative step, `c + k >= l` for a negative one; otherwise it goes on
/// with the next instruction.
pub proof fn law_for_loop(s: State, c: i32, l: i32, k: i32)
    requires
        s.wf(),
        0 <= s.ip < s.code.len(),
        current_op(s) == Ok::<Opcode, u8>(Opcode::ForLoop),
        step(s) is Ok,
        s.registers[reg(s, s.code[s.ip].a_field())] == Value::Int(c),
        s.registers[reg(s, s.code[s.ip].a_field()) + 1] == Value::Int(l),
        s.registers[reg(s, s.code[s.ip].a_field()) + 2] == Value::Int(k),
    ensures
        ({
            let t = step(s)->Ok_0.0;
            let a = reg(s, s.code[s.ip].a_field());
            let again = if k >= 0 {
                c + k <= l
            } else {
                c + k >= l
            };
            &&& holds_int(t.registers[a], c + k)
            &&& t.ip == (if again {
                s.code[s.ip].d_field() as int
            } else {
                s.ip + 1
            })
            &&& forall|j: int| 0 <= j < NUM_REGISTERS && j != a ==> #[trigger] t.registers[j] == s.registers[j]
        }),
{
    law_step_keeps_frame(s);
}

/// `TAILCALL A B C` through `R[A]` holding `Func(f)` moves the `B` arguments
/// `R[A+1] .. R[A+B]` down to the start of the current window, so that the
/// callee's `R[i]` holds the caller's old `R[A+1+i]` for every `i < B`; the
/// rest of the registers above the arguments, the window and the call stack
/// are unchanged, and execution goes on at `f`'s entry point.
pub proof fn law_tail_call_moves_arguments(s: State)
    requires
        s.wf(),
        0 <= s.ip < s.code.len(),
        current_op(s) == Ok::<Opcode, u8>(Opcode::TailCall),
        step(s) is Ok,
    ensures
        ({
            let t = step(s)->Ok_0.0;
            let instr = s.code[s.ip];
            let func = reg(s, instr.a_field());
            let n = instr.b_field() as int;
            &&& s.registers[func] matches Value::Func(f) && t.ip == s.functions[f as int].entry
            &&& forall|i: int|
                0 <= i < n ==> #[trigger] t.registers[s.window_base + i] == s.registers[func + 1 + i]
            &&& forall|j: int|
                0 <= j < NUM_REGISTERS && !(s.window_base <= j < s.window_base + n) ==> #[trigger] t.registers[j]
                    == s.registers[j]
            &&& t.window_base == s.window_base
            &&& t.call_stack == s.call_stack
        }),
{
    law_step_keeps_frame(s);
    let instr = s.code[s.ip];
    let func = reg(s, instr.a_field());
    let n = instr.b_field() as nat;
    if n > 0 {
        lemma_copy_regs_down(s.registers, s.window_base, func + 1, n);
    }
}


/// When the unary integer instructions succeed, with `R[A]` and `R[B]` in the
/// register file and `R[B]` holding `x`: `BITNOTV` always, `NEGV` unless `x`
/// is `i32::MIN`.
pub proof fn law_unary_integer_success(s: State, op: Opcode, x: i32)
    requires
        s.wf(),
        0 <= s.ip < s.code.len(),
        current_op(s) == Ok::<Opcode, u8>(op),
        op == Opcode::NegV || op == Opcode::BitNotV,
        0 <= reg(s, s.code[s.ip].a_field()) < NUM_REGISTERS,
        0 <= reg(s, s.code[s.ip].b_field()) < NUM_REGISTERS,
        s.registers[reg(s, s.code[s.ip].b_field())] == Value::Int(x),
    ensures
        step(s) is Ok <==> (op == Opcode::BitNotV || x != i32::MIN),
{
}

/// `JUMPIF`, `JUMPIFNOT` and `NOTV` never fail on operands in the register
/// file, whatever value those hold.
pub proof fn law_truth_tests_succeed(s: State, op: Opcode)
    requires
        s.wf(),
        0 <= s.ip < s.code.len(),
        current_op(s) == Ok::<Opcode, u8>(op),
        op == Opcode::JumpIf || op == Opcode::JumpIfNot || op == Opcode::NotV,
        0 <= reg(s, s.code[s.ip].a_field()) < NUM_REGISTERS,
        0 <= reg(s, s.code[s.ip].b_field()) < NUM_REGISTERS,
    ensures
        step(s) is Ok,
{
}

/// When the numeric-for instructions succeed, with `R[A] .. R[A+2]` in the
/// register file holding the counter `c`, the limit `l` and the step `k`:
/// exactly when the new counter, `c - k` for `FORPREP` and `c + k` for
/// `FORLOOP`, fits in `i32`.
pub proof fn law_numeric_for_success(s: State, op: Opcode, c: i32, l: i32, k: i32)
    requires
        s.wf(),
        0 <= s.ip < s.code.len(),
        current_op(s) == Ok::<Opcode, u8>(op),
        op == Opcode::ForPrep || op == Opcode::ForLoop,
        0 <= reg(s, s.code[s.ip].a_field()),
        reg(s, s.code[s.ip].a_field()) + 2 < NUM_REGISTERS,
        s.registers[reg(s, s.code[s.ip].a_field())] == Value::Int(c),
        s.registers[reg(s, s.code[s.ip].a_field()) + 1] == Value::Int(l),
        s.registers[reg(s, s.code[s.ip].a_field()) + 2] == Value::Int(k),
    ensures
        op == Opcode::ForPrep ==> (step(s) is Ok <==> i32::MIN <= c - k <= i32::MAX),
        op == Opcode::ForLoop ==> (step(s) is Ok <==> i32::MIN <= c + k <= i32::MAX),
{
}

/// When `CALL A B C` and `TAILCALL A B C` succeed, with `R[A]` in the register
/// file: exactly when `R[A]` holds `Func(f)` for a function `f` of the table,
/// and, for `TAILCALL`, the `B` arguments above `R[A]` and their destination
/// at the start of the window lie in the register file.
pub proof fn law_call_success(s: State, op: Opcode)
    requires
        s.wf(),
        0 <= s.ip < s.code.len(),
        current_op(s) == Ok::<Opcode, u8>(op),
        op == Opcode::Call || op == Opcode::TailCall,
        0 <= reg(s, s.code[s.ip].a_field()) < NUM_REGISTERS,
    ensures
        ({
            let instr = s.code[s.ip];
            let func = reg(s, instr.a_field());
            let n = instr.b_field() as int;
            let callable = s.registers[func] matches Value::Func(f) && (f as int) < s.functions.len();
            &&& op == Opcode::Call ==> (step(s) is Ok <==> callable)
            &&& op == Opcode::TailCall ==> (step(s) is Ok <==> callable && (n == 0 || (
            s.window_base + n <= NUM_REGISTERS && func + 1 + n <= NUM_REGISTERS)))
        }),
{
}

/// The loading and moving instructions, with `R[A]` in the register file:
/// `LOADINT` writes `D` read as a signed 16-bit number, `LOADBOOL` whether `D`
/// is non-zero, `LOADNIL` `Nil`, `LOADFUNC` `Func(D)`, `LOADK` the constant
/// `constants[D]`, `MOVE` the value of `R[B]`, and `LOADGLOBAL` global `D`
/// (`Nil` when unset). They fail only on a constant or a register out of
/// range; no other register changes and execution goes on with the next
/// instruction.
pub proof fn law_loads(s: State, op: Opcode)
    requires
        s.wf(),
        0 <= s.ip < s.code.len(),
        current_op(s) == Ok::<Opcode, u8>(op),
        op == Opcode::LoadInt || op == Opcode::LoadBool || op == Opcode::LoadNil || op
            == Opcode::LoadFunc || op == Opcode::LoadK || op == Opcode::Move || op
            == Opcode::LoadGlobal,
        0 <= reg(s, s.code[s.ip].a_field()) < NUM_REGISTERS,
    ensures
        ({
            let instr = s.code[s.ip];
            let a = reg(s, instr.a_field());
            let b = reg(s, instr.b_field());
            let d = instr.d_field() as int;
            &&& step(s) is Ok <==> (op != Opcode::LoadK || d < s.constants.len()) && (op
                != Opcode::Move || 0 <= b < NUM_REGISTERS)
            &&& step(s) is Ok ==> {
                let r = step(s)->Ok_0.0.registers[a];
                &&& op == Opcode::LoadInt ==> holds_int(
                    r,
                    if d < 0x8000 {
                        d
                    } else {
                        d - 0x10000
                    },
                )
                &&& op == Opcode::LoadBool ==> r == Value::Bool(d != 0)
                &&& op == Opcode::LoadNil ==> r == Value::Nil
                &&& op == Opcode::LoadFunc ==> r == Value::Func(instr.d_field())
                &&& op == Opcode::LoadK ==> r == s.constants[d]
                &&& op == Opcode::Move ==> r == s.registers[b]
                &&& op == Opcode::LoadGlobal ==> r == (if d < s.globals.len() {
                    s.globals[d]
                } else {
                    Value::Nil
                })
                &&& writes_only(s, step(s)->Ok_0.0, a)
                &&& step(s)->Ok_0.0.globals == s.globals
            }
        }),
{
    let instr = s.code[s.ip];
    let d = instr.d_field();
    assert(d < 0x8000u16 ==> (d as i16) as i32 == d as i32) by (bit_vector);
    assert(d >= 0x8000u16 ==> (d as i16) as i32 == d as i32 - 0x10000i32) by (bit_vector);
    if step(s) is Ok {
        law_step_keeps_frame(s);
    }
}

/// `STOREGLOBAL A D` sets global `D` to the value of `R[A]`, growing the
/// globals table with `Nil` up to slot `D` when it is shorter, and keeping
/// every other global and every register.
pub proof fn law_store_global(s: State)
    requires
        s.wf(),
        0 <= s.ip < s.code.len(),
        current_op(s) == Ok::<Opcode, u8>(Opcode::StoreGlobal),
        0 <= reg(s, s.code[s.ip].a_field()) < NUM_REGISTERS,
    ensures
        step(s) is Ok,
        ({
            let t = step(s)->Ok_0.0;
            let d = s.code[s.ip].d_field() as int;
            &&& t.globals.len() == (if d < s.globals.len() {
                s.globals.len() as int
            } else {
                d + 1
            })
            &&& t.globals[d] == s.registers[reg(s, s.code[s.ip].a_field())]
            &&& forall|k: int|
                0 <= k < t.globals.len() && k != d ==> #[trigger] t.globals[k] == (if k
                    < s.globals.len() {
                    s.globals[k]
                } else {
                    Value::Nil
                })
            &&& t.registers == s.registers
            &&& t.ip == s.ip + 1
        }),
{
}

/// `JUMP D` goes to `D` and `HALT` past the end of the code; neither changes
/// anything else.
pub proof fn law_jump_and_halt(s: State, op: Opcode)
    requires
        s.wf(),
        0 <= s.ip < s.code.len(),
        current_op(s) == Ok::<Opcode, u8>(op),
        op == Opcode::Jump || op == Opcode::Halt,
    ensures
        step(s) is Ok,
        op == Opcode::Jump ==> step(s)->Ok_0.0 == (State { ip: s.code[s.ip].d_field() as int, ..s }),
        op == Opcode::Halt ==> step(s)->Ok_0.0 == (State { ip: s.code.len() as int, ..s }),
{
}

/// `PRINTF A` prints a string as its text (the placeholder text for a
/// missing string), an integer as itself and a `Bool` as itself, fails on
/// any other value, and changes nothing but the instruction pointer.
pub proof fn law_printf(s: State)
    requires
        s.wf(),
        0 <= s.ip < s.code.len(),
        current_op(s) == Ok::<Opcode, u8>(Opcode::Printf),
        0 <= reg(s, s.code[s.ip].a_field()) < NUM_REGISTERS,
    ensures
        ({
            let v = s.registers[reg(s, s.code[s.ip].a_field())];
            &&& step(s) is Ok <==> (v is Str || v is Int || v is Bool)
            &&& step(s) is Ok ==> {
                let (t, out) = step(s)->Ok_0;
                &&& t == (State { ip: s.ip + 1, ..s })
                &&& v matches Value::Str(i) ==> out == Some(
                    OutputView::Text(
                        if (i as int) < s.strings.len() {
                            s.strings[i as int]
                        } else {
                            "<invalid string index>"@
                        },
                    ),
                )
                &&& v matches Value::Int(n) ==> out == Some(OutputView::Int(n))
                &&& v matches Value::Bool(b) ==> out == Some(OutputView::Bool(b))
            }
        }),
{
}

/// `LENV A B` writes the number of characters of the string, or of elements
/// of the array, that `R[B]` refers to (`0` for one the machine does not
/// hold); `LENK A D` the number of characters of the string constant `D`.
pub proof fn law_lengths(s: State, op: Opcode)
    requires
        s.wf(),
        0 <= s.ip < s.code.len(),
        current_op(s) == Ok::<Opcode, u8>(op),
        op == Opcode::LenV || op == Opcode::LenK,
        step(s) is Ok,
    ensures
        ({
            let instr = s.code[s.ip];
            let a = reg(s, instr.a_field());
            let t = step(s)->Ok_0.0;
            let subject = if op == Opcode::LenV {
                s.registers[reg(s, instr.b_field())]
            } else {
                s.constants[instr.d_field() as int]
            };
            &&& op == Opcode::LenK ==> subject is Str
            &&& subject matches Value::Str(i) ==> t.registers[a] == Value::Int(
                (if (i as int) < s.strings.len() {
                    s.strings[i as int].len() as int
                } else if op == Opcode::LenV {
                    0
                } else {
                    "<invalid string index>"@.len() as int
                }) as i32,
            )
            &&& subject matches Value::Array(i) ==> t.registers[a] == Value::Int(
                (if (i as int) < s.arrays.len() {
                    s.arrays[i as int].len() as int
                } else {
                    0
                }) as i32,
            )
            &&& writes_only(s, t, a)
        }),
{
    law_step_keeps_frame(s);
}

/// `CONCATVV A B C` and `CONCATVK A B C` append to the string table the text of
/// the string in `R[B]` followed by that of the string in `R[C]` (for `VV`) or
/// of the string constant `C` (for `VK`), and make `R[A]` refer to the new
/// string, at the old end of the table.
pub proof fn law_concat(s: State, op: Opcode, i: u32, j: u32)
    requires
        s.wf(),
        0 <= s.ip < s.code.len(),
        current_op(s) == Ok::<Opcode, u8>(op),
        op == Opcode::ConcatVV || op == Opcode::ConcatVK,
        s.registers[reg(s, s.code[s.ip].b_field())] == Value::Str(i),
        op == Opcode::ConcatVV ==> s.registers[reg(s, s.code[s.ip].c_field())] == Value::Str(j),
        op == Opcode::ConcatVK ==> s.constants[s.code[s.ip].c_field() as int] == Value::Str(j),
        step(s) is Ok,
    ensures
        ({
            let t = step(s)->Ok_0.0;
            let a = reg(s, s.code[s.ip].a_field());
            let text = |k: u32|
                if (k as int) < s.strings.len() {
                    s.strings[k as int]
                } else {
                    "<invalid string index>"@
                };
            &&& t.strings == s.strings.push(text(i) + text(j))
            &&& t.registers[a] == Value::Str(s.strings.len() as u32)
            &&& writes_only(s, t, a)
        }),
{
    law_step_keeps_frame(s);
}

/// `NEWARRAY A D` appends an array of `D` `Nil` slots to the heap and makes
/// `R[A]` refer to it, at the old end of the heap.
pub proof fn law_new_array(s: State)
    requires
        s.wf(),
        0 <= s.ip < s.code.len(),
        current_op(s) == Ok::<Opcode, u8>(Opcode::NewArray),
        0 <= reg(s, s.code[s.ip].a_field()) < NUM_REGISTERS,
    ensures
        step(s) is Ok,
        ({
            let t = step(s)->Ok_0.0;
            let a = reg(s, s.code[s.ip].a_field());
            let d = s.code[s.ip].d_field() as int;
            &&& t.arrays.len() == s.arrays.len() + 1
            &&& t.arrays.last().len() == d
            &&& forall|k: int| 0 <= k < d ==> #[trigger] t.arrays.last()[k] == Value::Nil
            &&& t.arrays.drop_last() == s.arrays
            &&& t.registers[a] == Value::Array(s.arrays.len() as u32)
            &&& writes_only(s, t, a)
        }),
{
    law_step_keeps_frame(s);
    let t = step(s)->Ok_0.0;
    assert(t.arrays.drop_last() =~= s.arrays);
}

/// `GETINDEX A B C` with `R[C]` holding `Int(n)` writes the code of the
/// character at index `n` of the string that `R[B]` refers to (`0` past its
/// end), or the element at index `n` of the array (`Nil` outside it).
pub proof fn law_get_index(s: State, n: i32)
    requires
        s.wf(),
        0 <= s.ip < s.code.len(),
        current_op(s) == Ok::<Opcode, u8>(Opcode::GetIndex),
        s.registers[reg(s, s.code[s.ip].c_field())] == Value::Int(n),
        step(s) is Ok,
    ensures
        ({
            let instr = s.code[s.ip];
            let t = step(s)->Ok_0.0;
            let a = reg(s, instr.a_field());
            let idx = (n as usize) as int;
            let subject = s.registers[reg(s, instr.b_field())];
            &&& subject is Str || subject is Array
            &&& subject matches Value::Str(i) ==> {
                let text = if (i as int) < s.strings.len() {
                    s.strings[i as int]
                } else {
                    "<invalid string index>"@
                };
                t.registers[a] == Value::Int(
                    if idx < text.len() {
                        (text[idx] as u32) as i32
                    } else {
                        0
                    },
                )
            }
            &&& subject matches Value::Array(i) ==> t.registers[a] == (if (i as int)
                < s.arrays.len() && idx < s.arrays[i as int].len() {
                s.arrays[i as int][idx]
            } else {
                Value::Nil
            })
            &&& writes_only(s, t, a)
        }),
{
    law_step_keeps_frame(s);
}

/// `COPYRANGE A B C` copies `C` registers from `R[B]..` to `R[A]..` when the
/// destination does not overlap the source from above (`A <= B`, or the
/// ranges are apart): each `R[A+i]` gets the old `R[B+i]`, and no other
/// register changes.
pub proof fn law_copy_range(s: State)
    requires
        s.wf(),
        0 <= s.ip < s.code.len(),
        current_op(s) == Ok::<Opcode, u8>(Opcode::CopyRange),
        step(s) is Ok,
        ({
            let instr = s.code[s.ip];
            let a = reg(s, instr.a_field());
            let b = reg(s, instr.b_field());
            a <= b || b + instr.c_field() <= a
        }),
    ensures
        ({
            let instr = s.code[s.ip];
            let t = step(s)->Ok_0.0;
            let a = reg(s, instr.a_field());
            let b = reg(s, instr.b_field());
            let n = instr.c_field() as int;
            &&& forall|i: int| 0 <= i < n ==> #[trigger] t.registers[a + i] == s.registers[b + i]
            &&& forall|k: int|
                0 <= k < NUM_REGISTERS && !(a <= k < a + n) ==> #[trigger] t.registers[k]
                    == s.registers[k]
            &&& t.ip == s.ip + 1
        }),
{
    law_step_keeps_frame(s);
    let instr = s.code[s.ip];
    let a = reg(s, instr.a_field());
    let b = reg(s, instr.b_field());
    let n = instr.c_field() as nat;
    if n > 0 {
        lemma_copy_regs_down(s.registers, a, b, n);
    }
}

/// `RETURN A B` with a call frame `f` on top of the stack pops it, resumes at
/// `f`'s return address in `f`'s saved window, and copies `min(f's result
/// count, B)` values from `R[A]..` to the function slot `f.ret_base..`; when
/// the slot lies below the results (as it does for every call), each slot
/// gets the old result and no other register changes.
pub proof fn law_return(s: State)
    requires
        s.wf(),
        0 <= s.ip < s.code.len(),
        current_op(s) == Ok::<Opcode, u8>(Opcode::Return),
        s.call_stack.len() > 0,
        step(s) is Ok,
    ensures
        ({
            let instr = s.code[s.ip];
            let t = step(s)->Ok_0.0;
            let f = s.call_stack.last();
            let src = reg(s, instr.a_field());
            let n: int = if f.retc <= instr.b_field() {
                f.retc as int
            } else {
                instr.b_field() as int
            };
            &&& t.ip == f.return_ip as int
            &&& t.window_base == f.caller_window as int
            &&& t.call_stack == s.call_stack.drop_last()
            &&& f.ret_base <= src ==> {
                &&& forall|i: int| 0 <= i < n ==> #[trigger] t.registers[f.ret_base + i] == s.registers[src + i]
                &&& forall|k: int|
                    0 <= k < NUM_REGISTERS && !(f.ret_base <= k < f.ret_base + n) ==> #[trigger] t.registers[k]
                        == s.registers[k]
            }
        }),
{
    law_step_keeps_frame(s);
    let instr = s.code[s.ip];
    let f = s.call_stack.last();
    assert(f == s.call_stack[s.call_stack.len() - 1]);
    let src = reg(s, instr.a_field());
    let n: nat = if f.retc <= instr.b_field() {
        f.retc as nat
    } else {
        instr.b_field() as nat
    };
    if n > 0 && f.ret_base <= src {
        lemma_copy_regs_down(s.registers, f.ret_base as int, src, n);
    }
}

} // verus!
