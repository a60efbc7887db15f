//! Properties of the machine that span instructions, steps and whole runs.
use vstd::prelude::*;

use crate::codegen::bytecode::{
    decode_opcode, law_abc_decodes, law_ad_decodes, Instruction, Opcode, Value,
};
use super::semantics::{
    abc, ad, copy_regs, lemma_execute_keeps_stack, fresh_state, lemma_copy_regs_len, lemma_execute_frame,
    is_scalar, preamble, reg, run_fuel, utf8_len, run_result, shift_entries, step,
    OutputView, State, NUM_REGISTERS,
};
use super::{CallFrame, FuncProto};

verus! {

/// The decoded opcode of the instruction at `ip`.
pub open spec fn current_op(s: State) -> Result<Opcode, u8> {
    decode_opcode(s.code[s.ip].op_field())
}

/// One step keeps the machine well formed, never changes the program (code,
/// constants, function table), never shrinks the string table, the globals or
/// the array heap, and never resizes an existing array.
pub proof fn law_step_keeps_frame(s: State)
    requires
        s.wf(),
        0 <= s.ip < s.code.len(),
        step(s) is Ok,
    ensures
        ({
            let t = step(s)->Ok_0.0;
            &&& t.wf()
            &&& t.code == s.code
            &&& t.constants == s.constants
            &&& t.functions == s.functions
            &&& t.strings.len() >= s.strings.len()
            &&& t.globals.len() >= s.globals.len()
            &&& t.arrays.len() >= s.arrays.len()
            &&& forall|k: int|
                0 <= k < s.arrays.len() ==> (#[trigger] t.arrays[k]).len() == s.arrays[k].len()
        }),
{
    lemma_execute_frame(s, s.code[s.ip]);
}

/// A terminating run ends in a well-formed, halted state with the program it
/// started with: the constant pool, the code and the function table are never
/// changed by running code.
pub proof fn law_run_keeps_program(s: State, fuel: nat)
    requires
        s.wf(),
        run_fuel(s, fuel) is Some,
    ensures
        ({
            let t = run_fuel(s, fuel)->Some_0.0;
            &&& t.wf()
            &&& t.halted()
            &&& t.code == s.code
            &&& t.constants == s.constants
            &&& t.functions == s.functions
        }),
    decreases fuel,
{
    if !s.halted() {
        law_step_keeps_frame(s);
        let t = step(s)->Ok_0.0;
        law_run_keeps_program(t, (fuel - 1) as nat);
    }
}

/// Running longer changes nothing once the machine has halted: a run that
/// halts within `n` steps gives the same result with any larger bound.
pub proof fn law_run_fuel_monotone(s: State, n: nat, m: nat)
    requires
        run_fuel(s, n) is Some,
        n <= m,
    ensures
        run_fuel(s, m) == run_fuel(s, n),
    decreases n,
{
    if !(s.ip < 0 || s.halted()) {
        let t = step(s)->Ok_0.0;
        law_run_fuel_monotone(t, (n - 1) as nat, (m - 1) as nat);
    }
}

/// The result of a run does not depend on the step bound used to find it:
/// every bound within which the machine halts gives `run_result`.
pub proof fn law_run_result_unique(s: State, n: nat)
    requires
        run_fuel(s, n) is Some,
    ensures
        run_fuel(s, n) == Some(run_result(s)),
{
    let k = choose|k: nat| (#[trigger] run_fuel(s, k)) is Some;
    assert(run_fuel(s, k) is Some);
    if n <= k {
        law_run_fuel_monotone(s, n, k);
    } else {
        law_run_fuel_monotone(s, k, n);
    }
}

/// A halted machine's run is the machine itself, printing nothing.
pub proof fn law_halted_run_is_empty(s: State)
    requires
        s.wf(),
        s.halted(),
    ensures
        run_fuel(s, 0) == Some((s, Seq::<OutputView>::empty())),
        run_result(s) == (s, Seq::<OutputView>::empty()),
{
    law_run_result_unique(s, 0);
}

/// `Halt` stops the machine: after it the instruction pointer is past the
/// end of the code, and nothing else has changed.
pub proof fn law_halt_stops(s: State)
    requires
        s.wf(),
        0 <= s.ip < s.code.len(),
        current_op(s) == Ok::<Opcode, u8>(Opcode::Halt),
    ensures
        step(s) is Ok,
        step(s)->Ok_0.0.halted(),
        step(s)->Ok_0.0 == (State { ip: s.code.len() as int, ..s }),
{
}

/// A `Return` with no call frame to return to stops the machine.
pub proof fn law_top_level_return_stops(s: State)
    requires
        s.wf(),
        0 <= s.ip < s.code.len(),
        current_op(s) == Ok::<Opcode, u8>(Opcode::Return),
        s.call_stack.len() == 0,
    ensures
        step(s) is Ok,
        step(s)->Ok_0.0.halted(),
{
}

/// Copying towards lower (or equal) indices reads every source register
/// before it is overwritten: the destination gets the source's old values and
/// every other register keeps its value.
pub proof fn lemma_copy_regs_down(regs: Seq<Value>, dst: int, src: int, n: nat)
    requires
        0 <= dst,
        dst <= src || src + n <= dst,
        0 <= src,
        src + n <= regs.len(),
        dst + n <= regs.len(),
    ensures
        copy_regs(regs, dst, src, n).len() == regs.len(),
        forall|i: int| 0 <= i < n ==> #[trigger] copy_regs(regs, dst, src, n)[dst + i] == regs[src + i],
        forall|k: int|
            0 <= k < regs.len() && !(dst <= k < dst + n) ==> #[trigger] copy_regs(regs, dst, src, n)[k]
                == regs[k],
    decreases n,
{
    lemma_copy_regs_len(regs, dst, src, n);
    if n > 0 {
        let m = (n - 1) as nat;
        lemma_copy_regs_down(regs, dst, src, m);
        let p = copy_regs(regs, dst, src, m);
        let q = copy_regs(regs, dst, src, n);
        assert(q == p.update(dst + m, p[src + m]));
        assert(p[src + m] == regs[src + m]);
        assert forall|i: int| 0 <= i < n implies #[trigger] q[dst + i] == regs[src + i] by {
            if i < m {
                assert(q[dst + i] == p[dst + i]);
            }
        }
        assert forall|k: int| 0 <= k < regs.len() && !(dst <= k < dst + n) implies #[trigger] q[k]
            == regs[k] by {
            assert(q[k] == p[k]);
        }
    }
}

/// Calling convention, entry: a `Call` through register `A` makes the callee's
/// `R0, R1, ...` the caller's `R[A+1], R[A+2], ...` (the registers themselves
/// are untouched), pushes a frame that returns to the next instruction, and
/// jumps to the callee's entry point.
pub proof fn law_call_enters_callee(s: State)
    requires
        s.wf(),
        0 <= s.ip < s.code.len(),
        current_op(s) == Ok::<Opcode, u8>(Opcode::Call),
        step(s) is Ok,
    ensures
        ({
            let instr = s.code[s.ip];
            let func_abs = reg(s, instr.a_field());
            let t = step(s)->Ok_0.0;
            &&& s.registers[func_abs] matches Value::Func(fi) && t.ip == s.functions[fi as int].entry
            &&& t.window_base == func_abs + 1
            &&& t.registers == s.registers
            &&& t.call_stack == s.call_stack.push(
                CallFrame {
                    return_ip: (s.ip + 1) as usize,
                    caller_window: s.window_base as usize,
                    ret_base: func_abs as usize,
                    retc: instr.c_field(),
                },
            )
        }),
{
}

/// Calling convention, round trip: a `Call` whose callee returns at once
/// restores the caller's window and call stack, resumes at the instruction
/// after the call, and leaves `min(C of the call, B of the return)` results in
/// the caller's function slot `R[A]..`, taken from the callee's `R[A']..`.
pub proof fn law_call_then_return(s: State)
    requires
        s.wf(),
        0 <= s.ip < s.code.len(),
        current_op(s) == Ok::<Opcode, u8>(Opcode::Call),
        step(s) is Ok,
        0 <= step(s)->Ok_0.0.ip < s.code.len(),
        current_op(step(s)->Ok_0.0) == Ok::<Opcode, u8>(Opcode::Return),
        step(step(s)->Ok_0.0) is Ok,
    ensures
        ({
            let call = s.code[s.ip];
            let t = step(s)->Ok_0.0;
            let ret = t.code[t.ip];
            let u = step(t)->Ok_0.0;
            let n: int = if call.c_field() <= ret.b_field() {
                call.c_field() as int
            } else {
                ret.b_field() as int
            };
            &&& u.ip == s.ip + 1
            &&& u.window_base == s.window_base
            &&& u.call_stack == s.call_stack
            &&& forall|i: int|
                0 <= i < n ==> #[trigger] u.registers[reg(s, call.a_field()) + i]
                    == t.registers[reg(t, ret.a_field()) + i]
            &&& forall|k: int|
                0 <= k < NUM_REGISTERS && !(reg(s, call.a_field()) <= k < reg(s, call.a_field())
                    + n) ==> #[trigger] u.registers[k] == s.registers[k]
        }),
{
    law_step_keeps_frame(s);
    let t = step(s)->Ok_0.0;
    let call = s.code[s.ip];
    let ret = t.code[t.ip];
    let frame = t.call_stack.last();
    assert(frame == t.call_stack[t.call_stack.len() - 1]);
    let n: nat = if frame.retc <= ret.b_field() {
        frame.retc as nat
    } else {
        ret.b_field() as nat
    };
    let src = reg(t, ret.a_field());
    assert(frame.retc == call.c_field());
    assert(frame.ret_base == reg(s, call.a_field()));
    assert(t.window_base == reg(s, call.a_field()) + 1);
    assert(t.registers == s.registers);
    let u = step(t)->Ok_0.0;
    if n > 0 {
        lemma_copy_regs_down(t.registers, frame.ret_base as int, src, n);
        assert(u.registers == copy_regs(t.registers, frame.ret_base as int, src, n));
    } else {
        assert(u.registers == t.registers);
    }
    assert(u.call_stack =~= s.call_stack);
}

/// A sequence of states, each the step of the one before.
pub open spec fn is_trace(tr: Seq<State>) -> bool {
    forall|i: int|
        0 <= i < tr.len() - 1 ==> {
            &&& 0 <= (#[trigger] tr[i]).ip < tr[i].code.len()
            &&& step(tr[i]) is Ok
            &&& tr[i + 1] == step(tr[i])->Ok_0.0
        }
}

/// The register window of code running at call depth `k` in state `x`, for
/// code nested in the call that entered state `t`: `t`'s window at `t`'s own
/// depth, and just above the function slot of the innermost frame below.
pub open spec fn window_at(t: State, x: State, k: int) -> int {
    if k == t.call_stack.len() {
        t.window_base
    } else {
        x.call_stack[k - 1].ret_base + 1
    }
}

/// `x` runs nested inside the call that entered `t`: the frames of `t` are
/// intact below any frames pushed since, the current window is the one of
/// the current depth, and every frame pushed since saved the window of the
/// depth it was pushed at.
pub open spec fn nested_in(t: State, x: State) -> bool {
    let d = t.call_stack.len();
    &&& x.wf()
    &&& x.call_stack.len() >= d
    &&& x.call_stack.subrange(0, d as int) == t.call_stack
    &&& x.window_base == window_at(t, x, x.call_stack.len() as int)
    &&& forall|k: int|
        d <= k < x.call_stack.len() ==> (#[trigger] x.call_stack[k]).caller_window as int
            == window_at(t, x, k)
}

proof fn lemma_nested_step(t: State, x: State)
    requires
        nested_in(t, x),
        0 <= x.ip < x.code.len(),
        step(x) is Ok,
        step(x)->Ok_0.0.call_stack.len() >= t.call_stack.len(),
    ensures
        nested_in(t, step(x)->Ok_0.0),
{
    law_step_keeps_frame(x);
    let d = t.call_stack.len() as int;
    let y = step(x)->Ok_0.0;
    let l = x.call_stack.len() as int;
    let instr = x.code[x.ip];
    let op = current_op(x)->Ok_0;
    assert(current_op(x) is Ok);
    if op == Opcode::Call {
        assert(y.call_stack.len() == l + 1);
        assert forall|k: int| 0 <= k < l implies y.call_stack[k] == x.call_stack[k] by {}
        assert(y.call_stack.subrange(0, d) =~= t.call_stack) by {
            assert forall|k: int| 0 <= k < d implies y.call_stack.subrange(0, d)[k]
                == t.call_stack[k] by {
                assert(x.call_stack.subrange(0, d)[k] == x.call_stack[k]);
            }
        }
        assert(window_at(t, y, l) == window_at(t, x, l));
        assert forall|k: int| d <= k < y.call_stack.len() implies (
        #[trigger] y.call_stack[k]).caller_window as int == window_at(t, y, k) by {
            if k < l {
                assert(window_at(t, y, k) == window_at(t, x, k));
            }
        }
    } else if op == Opcode::Return && l == 0 {
        assert(y.call_stack == x.call_stack);
        assert(y.window_base == x.window_base);
    } else if op == Opcode::Return {
        assert(y.call_stack.len() == l - 1);
        assert(l > d);
        assert(y.call_stack =~= x.call_stack.drop_last());
        assert(y.call_stack.subrange(0, d) =~= t.call_stack) by {
            assert forall|k: int| 0 <= k < d implies y.call_stack.subrange(0, d)[k]
                == t.call_stack[k] by {
                assert(x.call_stack.subrange(0, d)[k] == x.call_stack[k]);
            }
        }
        assert(x.call_stack.last() == x.call_stack[l - 1]);
        assert(window_at(t, y, l - 1) == window_at(t, x, l - 1));
        assert forall|k: int| d <= k < y.call_stack.len() implies (
        #[trigger] y.call_stack[k]).caller_window as int == window_at(t, y, k) by {
            assert(window_at(t, y, k) == window_at(t, x, k));
        }
    } else {
        lemma_execute_keeps_stack(x, instr);
        assert(y.call_stack == x.call_stack);
    }
}

proof fn lemma_nested_trace(t: State, tr: Seq<State>, i: int)
    requires
        t.wf(),
        tr.len() >= 1,
        tr[0] == t,
        is_trace(tr),
        forall|j: int| 0 <= j < tr.len() ==> (#[trigger] tr[j]).call_stack.len() >= t.call_stack.len(),
        0 <= i < tr.len(),
    ensures
        nested_in(t, tr[i]),
    decreases i,
{
    if i == 0 {
        assert(t.call_stack.subrange(0, t.call_stack.len() as int) =~= t.call_stack);
    } else {
        lemma_nested_trace(t, tr, i - 1);
        assert(tr[i - 1] == tr[i - 1]);
        lemma_nested_step(t, tr[i - 1]);
    }
}

/// Calling convention, for any callee: after a `Call`, run the callee for
/// any number of steps in which every call it makes has returned (the call
/// stack never drops below the depth the `Call` entered) until it executes a
/// `Return` at that depth. That `Return` runs in the window just above the
/// function slot, resumes the caller at the instruction after the `Call`,
/// restores its window and call stack, and leaves `min(C of the call, B of
/// the return)` results in the caller's function slot `R[A]..`, taken from
/// the callee's `R[A']..` as they were just before the `Return`; no other
/// register changes at the `Return`.
pub proof fn law_call_returns_after_callee(s: State, tr: Seq<State>)
    requires
        s.wf(),
        0 <= s.ip < s.code.len(),
        current_op(s) == Ok::<Opcode, u8>(Opcode::Call),
        step(s) is Ok,
        tr.len() >= 1,
        tr[0] == step(s)->Ok_0.0,
        is_trace(tr),
        forall|j: int|
            0 <= j < tr.len() ==> (#[trigger] tr[j]).call_stack.len() >= tr[0].call_stack.len(),
        tr.last().call_stack.len() == tr[0].call_stack.len(),
        0 <= tr.last().ip < tr.last().code.len(),
        current_op(tr.last()) == Ok::<Opcode, u8>(Opcode::Return),
        step(tr.last()) is Ok,
    ensures
        ({
            let call = s.code[s.ip];
            let v = tr.last();
            let ret = v.code[v.ip];
            let w = step(v)->Ok_0.0;
            let slot = reg(s, call.a_field());
            let n: int = if call.c_field() <= ret.b_field() {
                call.c_field() as int
            } else {
                ret.b_field() as int
            };
            &&& v.window_base == slot + 1
            &&& w.ip == s.ip + 1
            &&& w.window_base == s.window_base
            &&& w.call_stack == s.call_stack
            &&& forall|i: int|
                0 <= i < n ==> #[trigger] w.registers[slot + i] == v.registers[reg(v, ret.a_field())
                    + i]
            &&& forall|k: int|
                0 <= k < NUM_REGISTERS && !(slot <= k < slot + n) ==> #[trigger] w.registers[k]
                    == v.registers[k]
        }),
{
    law_step_keeps_frame(s);
    let t = tr[0];
    lemma_nested_trace(t, tr, tr.len() - 1);
    let v = tr.last();
    let d = t.call_stack.len() as int;
    assert(v.call_stack =~= t.call_stack) by {
        assert forall|k: int| 0 <= k < d implies v.call_stack[k] == t.call_stack[k] by {
            assert(v.call_stack.subrange(0, d)[k] == v.call_stack[k]);
        }
    }
    let call = s.code[s.ip];
    let ret = v.code[v.ip];
    let frame = v.call_stack.last();
    assert(t.call_stack == s.call_stack.push(frame));
    assert(frame == v.call_stack[v.call_stack.len() - 1]);
    let n: nat = if frame.retc <= ret.b_field() {
        frame.retc as nat
    } else {
        ret.b_field() as nat
    };
    let src = reg(v, ret.a_field());
    let w = step(v)->Ok_0.0;
    if n > 0 {
        lemma_copy_regs_down(v.registers, frame.ret_base as int, src, n);
        assert(w.registers == copy_regs(v.registers, frame.ret_base as int, src, n));
    } else {
        assert(w.registers == v.registers);
    }
    assert(w.call_stack =~= s.call_stack);
}

/// `FORPREP` pre-subtracts the step so that the `FORLOOP` it jumps to adds it
/// back: after the pair, the loop counter `R[A]` holds its initial value.
pub proof fn law_for_prep_then_loop(s: State)
    requires
        s.wf(),
        0 <= s.ip < s.code.len(),
        current_op(s) == Ok::<Opcode, u8>(Opcode::ForPrep),
        step(s) is Ok,
        0 <= step(s)->Ok_0.0.ip < s.code.len(),
        current_op(step(s)->Ok_0.0) == Ok::<Opcode, u8>(Opcode::ForLoop),
        step(s)->Ok_0.0.code[step(s)->Ok_0.0.ip].a_field() == s.code[s.ip].a_field(),
        step(step(s)->Ok_0.0) is Ok,
    ensures
        ({
            let a = reg(s, s.code[s.ip].a_field());
            let u = step(step(s)->Ok_0.0)->Ok_0.0;
            &&& u.registers[a] == s.registers[a]
            &&& u.window_base == s.window_base
        }),
{
}

/// What `STOREGLOBAL A D` writes, a following `LOADGLOBAL A' D` reads back.
pub proof fn law_store_then_load_global(s: State)
    requires
        s.wf(),
        0 <= s.ip < s.code.len(),
        current_op(s) == Ok::<Opcode, u8>(Opcode::StoreGlobal),
        step(s) is Ok,
        0 <= step(s)->Ok_0.0.ip < s.code.len(),
        current_op(step(s)->Ok_0.0) == Ok::<Opcode, u8>(Opcode::LoadGlobal),
        step(s)->Ok_0.0.code[step(s)->Ok_0.0.ip].d_field() == s.code[s.ip].d_field(),
        step(step(s)->Ok_0.0) is Ok,
    ensures
        ({
            let t = step(s)->Ok_0.0;
            let u = step(t)->Ok_0.0;
            u.registers[reg(t, t.code[t.ip].a_field())] == s.registers[reg(
                s,
                s.code[s.ip].a_field(),
            )]
        }),
{
}

/// What `SETINDEX` writes into an array element, a following `GETINDEX` of
/// the same array and index reads back. `SETINDEX` never resizes an array and
/// changes no other slot; at an index outside the array it changes nothing,
/// and `GETINDEX` there reads `Nil`.
pub proof fn law_set_then_get_array(s: State, ai: u32, n: i32)
    requires
        s.wf(),
        0 <= s.ip < s.code.len(),
        current_op(s) == Ok::<Opcode, u8>(Opcode::SetIndex),
        s.registers[reg(s, s.code[s.ip].a_field())] == Value::Array(ai),
        s.registers[reg(s, s.code[s.ip].b_field())] == Value::Int(n),
        (ai as int) < s.arrays.len(),
        step(s) is Ok,
        0 <= step(s)->Ok_0.0.ip < s.code.len(),
        current_op(step(s)->Ok_0.0) == Ok::<Opcode, u8>(Opcode::GetIndex),
        ({
            let t = step(s)->Ok_0.0;
            let get = t.code[t.ip];
            &&& t.registers[reg(t, get.b_field())] == Value::Array(ai)
            &&& t.registers[reg(t, get.c_field())] == Value::Int(n)
        }),
        step(step(s)->Ok_0.0) is Ok,
    ensures
        ({
            let t = step(s)->Ok_0.0;
            let u = step(t)->Ok_0.0;
            let idx = (n as usize) as int;
            let v = s.registers[reg(s, s.code[s.ip].c_field())];
            let got = u.registers[reg(t, t.code[t.ip].a_field())];
            &&& t.registers == s.registers
            &&& t.arrays.len() == s.arrays.len()
            &&& forall|k: int| 0 <= k < s.arrays.len() ==> (#[trigger] t.arrays[k]).len() == s.arrays[k].len()
            &&& idx < s.arrays[ai as int].len() ==> {
                &&& t.arrays == s.arrays.update(ai as int, s.arrays[ai as int].update(idx, v))
                &&& got == v
            }
            &&& idx >= s.arrays[ai as int].len() ==> {
                &&& t.arrays == s.arrays
                &&& got == Value::Nil
            }
        }),
{
    law_step_keeps_frame(s);
}

/// `GETINDEX` on a string gives the code of the character at the index, and
/// `0` past the end.
///
/// What `SETINDEX` writes into a string, a following `GETINDEX` of the same
/// string and index reads back: `SETINDEX` with a character code `c` replaces
/// the character at an index inside the string by the character `c` (the
/// string keeps its length, its other characters and every other string), and
/// `GETINDEX` then gives `c`. At an index past the string's length in bytes,
/// `SETINDEX` changes nothing.
pub proof fn law_set_then_get_string(s: State, si: u32, n: i32, c: i32)
    requires
        s.wf(),
        0 <= s.ip < s.code.len(),
        current_op(s) == Ok::<Opcode, u8>(Opcode::SetIndex),
        s.registers[reg(s, s.code[s.ip].a_field())] == Value::Str(si),
        s.registers[reg(s, s.code[s.ip].b_field())] == Value::Int(n),
        s.registers[reg(s, s.code[s.ip].c_field())] == Value::Int(c),
        (si as int) < s.strings.len(),
        // A string's length in bytes is a `usize`.
        vstd::utf8::encode_utf8(s.strings[si as int]).len() <= usize::MAX,
        step(s) is Ok,
        0 <= step(s)->Ok_0.0.ip < s.code.len(),
        current_op(step(s)->Ok_0.0) == Ok::<Opcode, u8>(Opcode::GetIndex),
        ({
            let t = step(s)->Ok_0.0;
            let get = t.code[t.ip];
            &&& t.registers[reg(t, get.b_field())] == Value::Str(si)
            &&& t.registers[reg(t, get.c_field())] == Value::Int(n)
        }),
        step(step(s)->Ok_0.0) is Ok,
    ensures
        ({
            let t = step(s)->Ok_0.0;
            let u = step(t)->Ok_0.0;
            let idx = (n as usize) as int;
            let text = s.strings[si as int];
            let got = u.registers[reg(t, t.code[t.ip].a_field())];
            &&& t.registers == s.registers
            &&& idx < text.len() && is_scalar(c as u32) ==> {
                &&& t.strings == s.strings.update(si as int, text.update(idx, (c as u32) as char))
                &&& t.strings[si as int].len() == text.len()
                &&& got == Value::Int(c)
            }
            &&& idx < text.len() && !is_scalar(c as u32) ==> {
                &&& t.strings == s.strings.update(si as int, text.update(idx, '\0'))
                &&& got == Value::Int(0)
            }
            &&& idx >= utf8_len(text) ==> t.strings == s.strings
            &&& idx >= text.len() ==> got == Value::Int(0)
        }),
{
    law_step_keeps_frame(s);
    let text = s.strings[si as int];
    lemma_utf8_len_at_least_chars(text);
    let u = c as u32;
    if is_scalar(u) {
        assert(((u as char) as u32) == u);
        assert(((c as u32) as i32) == c) by (bit_vector);
    }
}

/// A string takes at least one byte per character in UTF-8.
pub proof fn lemma_utf8_len_at_least_chars(t: Seq<char>)
    ensures
        vstd::utf8::encode_utf8(t).len() >= t.len(),
    decreases t.len(),
{
    if t.len() > 0 {
        lemma_utf8_len_at_least_chars(t.drop_first());
    }
}

/// Moving function entries past a preamble keeps each function pointing at
/// its own first instruction: in the loaded code, the shifted entry holds the
/// instruction that the unshifted entry held in the script's code.
pub proof fn law_shifted_entries_point_at_bodies(
    pre: Seq<Instruction>,
    body: Seq<Instruction>,
    functions: Seq<FuncProto>,
    k: int,
)
    requires
        0 <= k < functions.len(),
        functions[k].entry < body.len(),
        functions[k].entry + pre.len() <= usize::MAX,
    ensures
        (pre + body)[shift_entries(functions, pre.len() as int)[k].entry as int]
            == body[functions[k].entry as int],
        shift_entries(functions, pre.len() as int)[k].name == functions[k].name,
        shift_entries(functions, pre.len() as int)[k].arity == functions[k].arity,
{
}

/// The bootstrap preamble of a script with a `main` block (and no `init`)
/// enters `main`: two steps from the freshly loaded machine, it has called
/// `main` through `R0`, with a frame that returns to the preamble's `JUMP 0`.
pub proof fn law_preamble_enters_main(
    body: Seq<Instruction>,
    constants: Seq<Value>,
    strings: Seq<Seq<char>>,
    functions: Seq<FuncProto>,
    main_fn: u16,
)
    requires
        (main_fn as int) < functions.len(),
    ensures
        ({
            let s = fresh_state(preamble(None, Some(main_fn)) + body, constants, strings, functions);
            &&& step(s) is Ok
            &&& step(step(s)->Ok_0.0) is Ok
            &&& step(step(s)->Ok_0.0)->Ok_0.0 == (State {
                registers: s.registers.update(0, Value::Func(main_fn)),
                ip: functions[main_fn as int].entry as int,
                window_base: 1,
                call_stack: seq![CallFrame { return_ip: 2, caller_window: 0, ret_base: 0, retc: 0 }],
                ..s
            })
        }),
{
    law_ad_decodes(Opcode::LoadFunc, 0, main_fn);
    law_abc_decodes(Opcode::Call, 0, 0, 0);
    law_ad_decodes(Opcode::Jump, 0, 0);
    let s = fresh_state(preamble(None, Some(main_fn)) + body, constants, strings, functions);
    assert(s.code[0] == ad(Opcode::LoadFunc, 0, main_fn));
    assert(s.code[1] == abc(Opcode::Call, 0, 0, 0));
    let t = step(s)->Ok_0.0;
    assert(t.registers[0] == Value::Func(main_fn));
    let u = step(t)->Ok_0.0;
    assert(u.registers =~= s.registers.update(0, Value::Func(main_fn)));
    assert(u.call_stack =~= seq![CallFrame { return_ip: 2, caller_window: 0, ret_base: 0, retc: 0 }]);
}

} // verus!
