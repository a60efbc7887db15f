use vstd::prelude::*;
use vstd::string::{StrSliceExecFns, StringExecFns};

use crate::codegen::bytecode::{decode_opcode, Instruction, Opcode, Value};

pub mod laws;
pub mod operation_laws;
pub mod semantics;
pub mod tick;

pub use tick::TickInterval;

use semantics::{
    as_int, callee_entry, compare, copy_in_range, copy_regs, exec_bit_not, exec_call, exec_compare,
    exec_concat_vk, exec_concat_vv, exec_copy_range, exec_for_loop, exec_for_prep, exec_get_index,
    exec_int_op, exec_jump_cond, exec_len_k, exec_len_v, exec_load_global, exec_load_k, exec_move,
    exec_neg, exec_new_array, exec_not, exec_printf, exec_return, exec_set_index,
    exec_store_global, exec_tail_call, execute, fresh_state, grow_globals, int_op, int_operands,
    is_scalar, lemma_copy_regs_len, lemma_execute_frame, main_loop_ip, preamble, push_string,
    read_const, read_int, read_reg, reg, run_fuel, run_result, set_array_elem, set_string_char,
    shift_entries, string_or_invalid, terminates, truthy, write_then_proceed, BOOTSTRAP_REG,
    Compare, Effect, IntOp, NUM_REGISTERS, OutputView, State,
};

verus! {

/// A function prototype — a named entry point in the shared code stream.
#[derive(Debug, Clone)]
pub struct FuncProto {
    /// Optional name (string table index), used for debugging / disassembly.
    pub name: Option<u32>,
    /// Index of the first instruction for this function in `VM::code`.
    pub entry: usize,
    /// Number of parameters (arguments) the function accepts.
    pub arity: u8,
}

/// Saved caller state pushed onto the call stack when entering a function.
#[derive(Debug, Clone, Copy)]
pub struct CallFrame {
    /// IP to resume after `Return`.
    pub return_ip: usize,
    /// The caller's `window_base` — restored on return.
    pub caller_window: usize,
    /// Absolute flat-register index where return values should be written.
    /// Equal to `caller_window + A` of the `Call` instruction (the func slot).
    pub ret_base: usize,
    /// How many return values the caller expects (C operand of `Call`).
    pub retc: u8,
}

/// The arithmetic faults of Rust's integer operations.
#[derive(Debug, Clone, Copy, PartialEq, Eq, Structural)]
pub enum ArithFault {
    AddOverflow,
    SubOverflow,
    MulOverflow,
    DivOverflow,
    RemOverflow,
    NegOverflow,
    ShlOverflow,
    ShrOverflow,
    DivByZero,
    RemByZero,
}

/// Why an instruction cannot be executed.
#[derive(Debug, Clone, Copy, PartialEq, Eq, Structural)]
pub enum Fault {
    /// The opcode byte encodes no opcode.
    UnknownOpcode(u8),
    /// A register, constant or function index out of range.
    IndexOutOfBounds,
    Arithmetic(ArithFault),
    /// An integer operand that is not an `Int`.
    NotAnInt(Value),
    CallNotFunc(Value),
    TailCallNotFunc(Value),
    GetIndexBadTarget(Value),
    GetIndexStrBadIndex(Value),
    GetIndexArrayBadIndex(Value),
    SetIndexBadTarget(Value),
    SetIndexStrBadIndex(Value),
    SetIndexStrBadChar(Value),
    SetIndexArrayBadIndex(Value),
    SetIndexInvalidString(u32),
    SetIndexInvalidArray(u32),
    LenVBadOperand(Value),
    LenKNotStr(Value),
    LenKInvalidConstant(usize),
    ConcatVVNotStr(Value),
    ConcatVKNotStr(Value),
    ConcatVKNotStrConstant(Value),
    ConcatVKInvalidConstant(usize),
    PrintfBadOperand(Value),
}

/// A compiled GPC script, ready to be loaded into the VM.
///
/// `init_fn` and `main_fn` are indices into `functions`. The VM prepends a
/// bootstrap preamble that calls `init` once then loops `main` indefinitely.
/// All code outside those two blocks (function definitions, globals) lives in
/// `code`; all function entry points in `functions` are relative to the start
/// of `code` and are automatically adjusted for the preamble by `VM::from_script`.
pub struct Script {
    /// Bytecode for all function bodies (function entry indices are into this vec).
    pub code: Vec<Instruction>,
    pub constants: Vec<Value>,
    pub strings: Vec<String>,
    pub functions: Vec<FuncProto>,
    /// Function table index of the `init {}` block — runs once at startup.
    pub init_fn: Option<u16>,
    /// Function table index of the `main {}` block — looped until `Halt`.
    pub main_fn: Option<u16>,
    /// How long to pause between `main` iterations.
    /// `None` means run as fast as possible (useful for tests and tooling).
    pub tick_interval: Option<TickInterval>,
}

/// What a host running a script with tick timing does next.
#[derive(Debug, Clone, Copy, PartialEq, Eq, Structural)]
pub enum ScriptAction {
    /// The instruction pointer is past the end of the code: stop.
    Halted,
    /// `main` has lapped back to the top of the main loop: check whether to
    /// stop, pause for the tick interval, then execute.
    Tick,
    /// Execute the next instruction.
    Execute,
}

/// What a `Printf` instruction prints.
#[derive(Debug, Clone, PartialEq, Eq)]
pub enum Output {
    Text(String),
    Int(i32),
    Bool(bool),
}

impl View for Output {
    type V = OutputView;

    open spec fn view(&self) -> OutputView {
        match self {
            Output::Text(s) => OutputView::Text(s@),
            Output::Int(n) => OutputView::Int(*n),
            Output::Bool(b) => OutputView::Bool(*b),
        }
    }
}

/// The characters of each string of a table.
pub open spec fn strings_view(v: Seq<String>) -> Seq<Seq<char>> {
    v.map_values(|t: String| t@)
}

/// The elements of each array of a heap.
pub open spec fn arrays_view(v: Seq<Vec<Value>>) -> Seq<Seq<Value>> {
    v.map_values(|a: Vec<Value>| a@)
}

pub open spec fn output_view(o: Option<Output>) -> Option<OutputView> {
    match o {
        Some(x) => Some(x@),
        None => None,
    }
}

/// What executing one instruction gives: the explicit new instruction pointer
/// (for jumps, calls, returns and halts) and what it prints.
pub type Outcome = Result<(Option<usize>, Option<Output>), Fault>;

/// The executable outcome `r`, leaving state `t` behind, is the one that the
/// semantics gives from state `s`: on a fault the state is left unchanged.
pub open spec fn outcome_matches(s: State, spec: Result<Effect, Fault>, r: Outcome, t: State) -> bool {
    match spec {
        Ok(e) => {
            &&& r matches Ok((j, o))
            &&& j == e.jump
            &&& output_view(o) == e.output
            &&& t == e.state
        },
        Err(f) => r == Err::<(Option<usize>, Option<Output>), Fault>(f) && t == s,
    }
}

pub struct VM {
    /// Flat 256-register file, addressed as `registers[window_base + local_index]`.
    pub registers: [Value; 256],
    /// Constant pool — loaded at startup, never mutated by running code.
    pub constants: Vec<Value>,
    /// String table; `Value::Str(i)` resolves to `strings[i as usize]`.
    pub strings: Vec<String>,
    /// Global variable table, indexed by a u16 key.
    pub globals: Vec<Value>,
    /// Array heap; `Value::Array(i)` resolves to `arrays[i as usize]`.
    pub arrays: Vec<Vec<Value>>,
    /// Function table; `Value::Func(i)` resolves to `functions[i as usize]`.
    pub functions: Vec<FuncProto>,
    /// The instruction stream (function bodies and main code share one flat vec).
    pub code: Vec<Instruction>,
    /// Instruction pointer.
    pub ip: usize,
    /// Base offset into `registers` for the current call frame's locals.
    ///
    /// Local register `Rn` always means `self.registers[self.window_base + n]`.
    /// The top-level frame has `window_base = 0`.
    window_base: usize,
    /// Call stack — grows on `Call`, shrinks on `Return`.
    call_stack: Vec<CallFrame>,
}

impl View for VM {
    type V = State;

    closed spec fn view(&self) -> State {
        State {
            registers: self.registers@,
            constants: self.constants@,
            strings: strings_view(self.strings@),
            globals: self.globals@,
            arrays: arrays_view(self.arrays@),
            functions: self.functions@,
            code: self.code@,
            ip: self.ip as int,
            window_base: self.window_base as int,
            call_stack: self.call_stack@,
        }
    }
}

impl VM {
    /// The machine is well formed: see `State::wf`.
    pub open spec fn wf(&self) -> bool {
        self@.wf()
    }

    pub fn new(
        code: Vec<Instruction>,
        constants: Vec<Value>,
        strings: Vec<String>,
        functions: Vec<FuncProto>,
    ) -> (r: Self)
        ensures
            r.wf(),
            r@ == fresh_state(code@, constants@, strings_view(strings@), functions@),
    {
        let r = Self {
            registers: [Value::Nil; 256],
            constants,
            strings,
            globals: Vec::new(),
            arrays: Vec::new(),
            functions,
            code,
            ip: 0,
            window_base: 0,
            call_stack: Vec::new(),
        };
        assert(r.registers@ =~= Seq::new(NUM_REGISTERS as nat, |i: int| Value::Nil));
        let _ = r.code.len();
        r
    }

    /// Translates a local register index to an absolute index in the flat register file.
    fn reg(&self, idx: u8) -> (r: usize)
        requires
            self.wf(),
        ensures
            r == reg(self@, idx),
    {
        self.window_base + idx as usize
    }

    fn read(&self, i: usize) -> (r: Result<Value, Fault>)
        requires
            self.wf(),
        ensures
            r == read_reg(self@, i as int),
    {
        if i < NUM_REGISTERS {
            Ok(self.registers[i])
        } else {
            Err(Fault::IndexOutOfBounds)
        }
    }

    fn write_then_proceed(&mut self, i: usize, v: Value) -> (r: Outcome)
        requires
            old(self).wf(),
        ensures
            outcome_matches(old(self)@, write_then_proceed(old(self)@, i as int, v), r, final(self)@),
    {
        if i < NUM_REGISTERS {
            self.registers[i] = v;
            Ok((None, None))
        } else {
            Err(Fault::IndexOutOfBounds)
        }
    }

    /// Construct a VM from a compiled [`Script`].
    ///
    /// A bootstrap preamble (see `semantics::preamble`) is prepended to the
    /// code stream; R0 is used as a scratch register in the bootstrap frame.
    /// All `FuncProto::entry` values are shifted past the preamble.
    ///
    /// Returns `(vm, main_loop_ip, tick_interval)`:
    /// - `main_loop_ip` — the preamble IP that starts each `main` iteration;
    ///   `None` when there is no `main` block.
    /// - `tick_interval` — taken from [`Script::tick_interval`].
    pub fn from_script(script: Script) -> (r: (Self, Option<usize>, Option<TickInterval>))
        requires
            forall|k: int|
                0 <= k < script.functions@.len() ==> (#[trigger] script.functions@[k]).entry
                    + preamble(script.init_fn, script.main_fn).len() <= usize::MAX,
        ensures
            r.0.wf(),
            r.0@ == fresh_state(
                preamble(script.init_fn, script.main_fn) + script.code@,
                script.constants@,
                strings_view(script.strings@),
                shift_entries(
                    script.functions@,
                    preamble(script.init_fn, script.main_fn).len() as int,
                ),
            ),
            r.1 == main_loop_ip(script.init_fn, script.main_fn),
            r.2 == script.tick_interval,
    {
        let Script {
            code: mut body,
            constants,
            strings,
            mut functions,
            init_fn,
            main_fn,
            tick_interval,
        } = script;
        let ghost funcs0 = functions@;
        let mut main_loop_ip: Option<usize> = None;
        let mut code: Vec<Instruction> = Vec::new();
        match (init_fn, main_fn) {
            (Some(init_fi), Some(main_fi)) => {
                // LOADFUNC for main is at preamble index 2
                main_loop_ip = Some(2);
                code.push(Instruction::encode_ad(Opcode::LoadFunc, BOOTSTRAP_REG, init_fi));
                code.push(Instruction::encode_abc(Opcode::Call, BOOTSTRAP_REG, 0, 0));
                code.push(Instruction::encode_ad(Opcode::LoadFunc, BOOTSTRAP_REG, main_fi));
                code.push(Instruction::encode_abc(Opcode::Call, BOOTSTRAP_REG, 0, 0));
                code.push(Instruction::encode_ad(Opcode::Jump, 0, 2));
            },
            (None, Some(main_fi)) => {
                // LOADFUNC for main is at preamble index 0
                main_loop_ip = Some(0);
                code.push(Instruction::encode_ad(Opcode::LoadFunc, BOOTSTRAP_REG, main_fi));
                code.push(Instruction::encode_abc(Opcode::Call, BOOTSTRAP_REG, 0, 0));
                code.push(Instruction::encode_ad(Opcode::Jump, 0, 0));
            },
            (Some(init_fi), None) => {
                code.push(Instruction::encode_ad(Opcode::LoadFunc, BOOTSTRAP_REG, init_fi));
                code.push(Instruction::encode_abc(Opcode::Call, BOOTSTRAP_REG, 0, 0));
                code.push(Instruction::encode_abc(Opcode::Halt, 0, 0, 0));
            },
            (None, None) => {},
        }
        assert(code@ =~= preamble(init_fn, main_fn));

        // Shift every function entry point past the preamble.
        let offset = code.len();
        let mut k: usize = 0;
        while k < functions.len()
            invariant
                offset == preamble(init_fn, main_fn).len(),
                functions@.len() == funcs0.len(),
                0 <= k <= functions@.len(),
                forall|j: int|
                    0 <= j < funcs0.len() ==> (#[trigger] funcs0[j]).entry + offset <= usize::MAX,
                forall|j: int|
                    0 <= j < k ==> #[trigger] functions@[j] == (FuncProto {
                        entry: (funcs0[j].entry + offset) as usize,
                        ..funcs0[j]
                    }),
                forall|j: int| k <= j < functions@.len() ==> #[trigger] functions@[j] == funcs0[j],
            decreases functions@.len() - k,
        {
            let name = functions[k].name;
            let entry = functions[k].entry;
            let arity = functions[k].arity;
            assert(funcs0[k as int].entry + offset <= usize::MAX);
            functions.set(k, FuncProto { name, entry: entry + offset, arity });
            k = k + 1;
        }
        assert(functions@ =~= shift_entries(funcs0, offset as int));

        code.append(&mut body);
        (VM::new(code, constants, strings, functions), main_loop_ip, tick_interval)
    }

    /// What a host running a script with tick timing does next: stop once
    /// `ip` is past the end of the code, pause when `ip` has reached the top of
    /// the main loop, and otherwise execute.
    pub fn script_action(&self, main_loop_ip: usize) -> (r: ScriptAction)
        ensures
            r == (if self@.halted() {
                ScriptAction::Halted
            } else if self@.ip == main_loop_ip {
                ScriptAction::Tick
            } else {
                ScriptAction::Execute
            }),
    {
        if self.ip >= self.code.len() {
            ScriptAction::Halted
        } else if self.ip == main_loop_ip {
            ScriptAction::Tick
        } else {
            ScriptAction::Execute
        }
    }

    /// Execute one instruction.
    ///
    /// Returns the explicit new instruction pointer when the instruction
    /// changes it (jumps, calls, returns, halt), and what it prints.
    fn execute(&mut self, instr: Instruction) -> (r: Outcome)
        requires
            old(self).wf(),
            old(self)@.ip < old(self)@.code.len(),
            decode_opcode(instr.op_field()) is Ok,
        ensures
            outcome_matches(old(self)@, execute(old(self)@, instr), r, final(self)@),
    {
        let op = Opcode::from_u8(instr.opcode()).unwrap();
        match op {
            Opcode::Halt => Ok((Some(self.code.len()), None)),
            Opcode::Jump => Ok((Some(instr.d() as usize), None)),
            Opcode::JumpIf => self.jump_cond(instr, true),
            Opcode::JumpIfNot => self.jump_cond(instr, false),
            Opcode::ForPrep => self.for_prep(instr),
            Opcode::ForLoop => self.for_loop(instr),
            Opcode::TailCall => self.tail_call(instr),
            Opcode::LoadK => self.load_k(instr),
            Opcode::Move => self.move_reg(instr),
            Opcode::LoadGlobal => self.load_global(instr),
            Opcode::StoreGlobal => self.store_global(instr),
            Opcode::LoadFunc => {
                let a = self.reg(instr.a());
                self.write_then_proceed(a, Value::Func(instr.d()))
            },
            Opcode::LoadInt => {
                let a = self.reg(instr.a());
                self.write_then_proceed(a, Value::Int(instr.d() as i16 as i32))
            },
            Opcode::LoadBool => {
                let a = self.reg(instr.a());
                self.write_then_proceed(a, Value::Bool(instr.d() != 0))
            },
            Opcode::LoadNil => {
                let a = self.reg(instr.a());
                self.write_then_proceed(a, Value::Nil)
            },
            Opcode::GetIndex => self.get_index(instr),
            Opcode::SetIndex => self.set_index(instr),
            Opcode::NewArray => self.new_array(instr),
            Opcode::CopyRange => self.copy_range(instr),
            Opcode::LenV => self.len_v(instr),
            Opcode::LenK => self.len_k(instr),
            Opcode::ConcatVV => self.concat_vv(instr),
            Opcode::ConcatVK => self.concat_vk(instr),
            Opcode::AddVV => self.binop_vv(instr, IntOp::Add),
            Opcode::AddVK => self.binop_vk(instr, IntOp::Add),
            Opcode::SubVV => self.binop_vv(instr, IntOp::Sub),
            Opcode::SubVK => self.binop_vk(instr, IntOp::Sub),
            Opcode::MulVV => self.binop_vv(instr, IntOp::Mul),
            Opcode::MulVK => self.binop_vk(instr, IntOp::Mul),
            Opcode::DivVV => self.binop_vv(instr, IntOp::Div),
            Opcode::DivVK => self.binop_vk(instr, IntOp::Div),
            Opcode::ModVV => self.binop_vv(instr, IntOp::Rem),
            Opcode::ModVK => self.binop_vk(instr, IntOp::Rem),
            Opcode::EqVV => self.compare_vv(instr, Compare::Eq),
            Opcode::EqVK => self.compare_vk(instr, Compare::Eq),
            Opcode::LtVV => self.compare_vv(instr, Compare::Lt),
            Opcode::LtVK => self.compare_vk(instr, Compare::Lt),
            Opcode::LteVV => self.compare_vv(instr, Compare::Le),
            Opcode::LteVK => self.compare_vk(instr, Compare::Le),
            Opcode::GtVV => self.compare_vv(instr, Compare::Gt),
            Opcode::GtVK => self.compare_vk(instr, Compare::Gt),
            Opcode::GteVV => self.compare_vv(instr, Compare::Ge),
            Opcode::GteVK => self.compare_vk(instr, Compare::Ge),
            Opcode::NotV => self.not_v(instr),
            Opcode::NegV => self.neg_v(instr),
            Opcode::BitNotV => self.bit_not_v(instr),
            Opcode::AndVV => self.binop_vv(instr, IntOp::And),
            Opcode::AndVK => self.binop_vk(instr, IntOp::And),
            Opcode::OrVV => self.binop_vv(instr, IntOp::Or),
            Opcode::OrVK => self.binop_vk(instr, IntOp::Or),
            Opcode::XorVV => self.binop_vv(instr, IntOp::Xor),
            Opcode::XorVK => self.binop_vk(instr, IntOp::Xor),
            Opcode::ShlVV => self.binop_vv(instr, IntOp::Shl),
            Opcode::ShlVK => self.binop_vk(instr, IntOp::Shl),
            Opcode::ShrVV => self.binop_vv(instr, IntOp::Shr),
            Opcode::ShrVK => self.binop_vk(instr, IntOp::Shr),
            Opcode::SarVV => self.binop_vv(instr, IntOp::Shr),
            Opcode::SarVK => self.binop_vk(instr, IntOp::Shr),
            Opcode::Call => self.call(instr),
            Opcode::Return => self.ret(instr),
            Opcode::Printf => self.printf(instr),
            Opcode::Nop => Ok((None, None)),
        }
    }

    /// Executes the instruction at `ip` and moves `ip` on: to the target of a
    /// jump, call, return or halt, else to the next instruction. Gives what the
    /// instruction prints, or the fault that stops it, leaving the machine as
    /// it was.
    pub fn step(&mut self) -> (r: Result<Option<Output>, Fault>)
        requires
            old(self).wf(),
            old(self)@.ip < old(self)@.code.len(),
        ensures
            final(self).wf(),
            match semantics::step(old(self)@) {
                Ok((t, o)) => {
                    &&& r matches Ok(out)
                    &&& output_view(out) == o
                    &&& final(self)@ == t
                },
                Err(f) => r == Err::<Option<Output>, Fault>(f) && final(self)@ == old(self)@,
            },
    {
        let code_len = self.code.len();
        let instr = self.code[self.ip];
        let ghost s0 = self@;
        proof {
            lemma_execute_frame(s0, instr);
        }
        if let Err(b) = Opcode::from_u8(instr.opcode()) {
            return Err(Fault::UnknownOpcode(b));
        }
        match self.execute(instr) {
            Ok((jump, out)) => {
                match jump {
                    Some(new_ip) => self.ip = new_ip,
                    None => self.ip = self.ip + 1,
                }
                Ok(out)
            },
            Err(f) => Err(f),
        }
    }

    /// Runs until `ip` falls off the end of the code or a `Halt` is executed,
    /// and gives everything that `Printf` printed on the way, in order.
    ///
    /// This is the raw execution loop: it never sleeps and has no concept of
    /// `init`/`main` timing.
    pub fn run(&mut self) -> (outputs: Vec<Output>)
        requires
            old(self).wf(),
            terminates(old(self)@),
        ensures
            final(self).wf(),
            (final(self)@, outputs@.map_values(|o: Output| o@)) == run_result(old(self)@),
    {
        let ghost s0 = self@;
        let ghost n0: nat = choose|n: nat| (#[trigger] run_fuel(s0, n)) is Some;
        let ghost mut n: nat = n0;
        let mut outputs: Vec<Output> = Vec::new();
        while self.ip < self.code.len()
            invariant
                self.wf(),
                run_fuel(self@, n) is Some,
                run_fuel(s0, n0) == Some(
                    (
                        run_fuel(self@, n).unwrap().0,
                        outputs@.map_values(|o: Output| o@) + run_fuel(self@, n).unwrap().1,
                    ),
                ),
            decreases n,
        {
            let ghost before = outputs@.map_values(|o: Output| o@);
            let ghost rest = run_fuel(self@, n).unwrap().1;
            match self.step() {
                Ok(out) => {
                    proof {
                        n = (n - 1) as nat;
                    }
                    match out {
                        Some(o) => {
                            outputs.push(o);
                            assert(outputs@.map_values(|o: Output| o@) =~= before.push(o@));
                            assert(before + rest =~= before.push(o@) + run_fuel(self@, n).unwrap().1);
                        },
                        None => {
                            assert(outputs@.map_values(|o: Output| o@) =~= before);
                            assert(rest =~= run_fuel(self@, n).unwrap().1);
                        },
                    }
                },
                Err(_) => {
                    assert(false);
                },
            }
        }
        outputs
    }

    fn jump_cond(&self, instr: Instruction, when: bool) -> (r: Outcome)
        requires
            self.wf(),
        ensures
            outcome_matches(self@, exec_jump_cond(self@, instr, when), r, self@),
    {
        match self.read(self.reg(instr.a())) {
            Err(f) => Err(f),
            Ok(v) => if self.is_truthy(v) == when {
                Ok((Some(instr.d() as usize), None))
            } else {
                Ok((None, None))
            },
        }
    }

    fn for_prep(&mut self, instr: Instruction) -> (r: Outcome)
        requires
            old(self).wf(),
        ensures
            outcome_matches(old(self)@, exec_for_prep(old(self)@, instr), r, final(self)@),
    {
        let a = self.reg(instr.a());
        let step = match self.read_int(a + 2) {
            Ok(v) => v,
            Err(f) => return Err(f),
        };
        let counter = match self.read_int(a) {
            Ok(v) => v,
            Err(f) => return Err(f),
        };
        match counter.checked_sub(step) {
            None => Err(Fault::Arithmetic(ArithFault::SubOverflow)),
            Some(n) => {
                self.registers[a] = Value::Int(n);
                Ok((Some(instr.d() as usize), None))
            },
        }
    }

    fn for_loop(&mut self, instr: Instruction) -> (r: Outcome)
        requires
            old(self).wf(),
        ensures
            outcome_matches(old(self)@, exec_for_loop(old(self)@, instr), r, final(self)@),
    {
        let a = self.reg(instr.a());
        let step = match self.read_int(a + 2) {
            Ok(v) => v,
            Err(f) => return Err(f),
        };
        let limit = match self.read_int(a + 1) {
            Ok(v) => v,
            Err(f) => return Err(f),
        };
        let counter = match self.read_int(a) {
            Ok(v) => v,
            Err(f) => return Err(f),
        };
        match counter.checked_add(step) {
            None => Err(Fault::Arithmetic(ArithFault::AddOverflow)),
            Some(new_counter) => {
                self.registers[a] = Value::Int(new_counter);
                let keep_looping = if step >= 0 {
                    new_counter <= limit
                } else {
                    new_counter >= limit
                };
                if keep_looping {
                    Ok((Some(instr.d() as usize), None))
                } else {
                    Ok((None, None))
                }
            },
        }
    }

    fn callee_entry(&self, i: usize, call: bool) -> (r: Result<usize, Fault>)
        requires
            self.wf(),
        ensures
            r == callee_entry(self@, i as int, call),
    {
        match self.read(i) {
            Err(f) => Err(f),
            Ok(Value::Func(fi)) => if (fi as usize) < self.functions.len() {
                Ok(self.functions[fi as usize].entry)
            } else {
                Err(Fault::IndexOutOfBounds)
            },
            Ok(other) => if call {
                Err(Fault::CallNotFunc(other))
            } else {
                Err(Fault::TailCallNotFunc(other))
            },
        }
    }

    /// Copies `n` registers from `src..` to `dst..`, in increasing order.
    fn copy_registers(&mut self, dst: usize, src: usize, n: usize)
        requires
            old(self).wf(),
            copy_in_range(old(self)@, dst as int, src as int, n as nat),
        ensures
            final(self)@ == (State {
                registers: copy_regs(old(self)@.registers, dst as int, src as int, n as nat),
                ..old(self)@
            }),
    {
        let ghost s0 = self@;
        let mut i: usize = 0;
        while i < n
            invariant
                0 <= i <= n,
                copy_in_range(s0, dst as int, src as int, n as nat),
                s0.registers.len() == NUM_REGISTERS,
                self@ == (State {
                    registers: copy_regs(s0.registers, dst as int, src as int, i as nat),
                    ..s0
                }),
            decreases n - i,
        {
            proof {
                lemma_copy_regs_len(s0.registers, dst as int, src as int, i as nat);
            }
            let v = self.registers[src + i];
            self.registers[dst + i] = v;
            i = i + 1;
            assert(self@.registers =~= copy_regs(s0.registers, dst as int, src as int, i as nat));
        }
    }

    fn call(&mut self, instr: Instruction) -> (r: Outcome)
        requires
            old(self).wf(),
            old(self)@.ip < old(self)@.code.len(),
        ensures
            outcome_matches(old(self)@, exec_call(old(self)@, instr), r, final(self)@),
    {
        let a = instr.a();
        let retc = instr.c();
        let func_abs = self.window_base + a as usize;
        let entry = match self.callee_entry(func_abs, true) {
            Ok(e) => e,
            Err(f) => return Err(f),
        };
        let code_len = self.code.len();
        assert(self.ip < code_len);
        self.call_stack.push(
            CallFrame {
                return_ip: self.ip + 1,
                caller_window: self.window_base,
                ret_base: func_abs,
                retc,
            },
        );
        // Callee's R0 is the first argument, sitting right above the func slot.
        self.window_base = func_abs + 1;
        Ok((Some(entry), None))
    }

    fn tail_call(&mut self, instr: Instruction) -> (r: Outcome)
        requires
            old(self).wf(),
        ensures
            outcome_matches(old(self)@, exec_tail_call(old(self)@, instr), r, final(self)@),
    {
        let a = instr.a();
        let argc = instr.b() as usize;
        let func_abs = self.window_base + a as usize;
        let entry = match self.callee_entry(func_abs, false) {
            Ok(e) => e,
            Err(f) => return Err(f),
        };
        // Shift args down into the start of the current window so the
        // callee sees them as R0..R(argc-1).
        let base = self.window_base;
        if argc == 0 || (base + argc <= NUM_REGISTERS && func_abs + 1 + argc <= NUM_REGISTERS) {
            self.copy_registers(base, func_abs + 1, argc);
            Ok((Some(entry), None))
        } else {
            Err(Fault::IndexOutOfBounds)
        }
    }

    fn ret(&mut self, instr: Instruction) -> (r: Outcome)
        requires
            old(self).wf(),
        ensures
            outcome_matches(old(self)@, exec_return(old(self)@, instr), r, final(self)@),
    {
        let a = instr.a();
        let retc = instr.b();
        let depth = self.call_stack.len();
        if depth == 0 {
            // top-level return — halt
            return Ok((Some(self.code.len()), None));
        }
        let frame = self.call_stack[depth - 1];
        let actual_retc: usize = if frame.retc <= retc {
            frame.retc as usize
        } else {
            retc as usize
        };
        let src = self.window_base + a as usize;
        if actual_retc == 0 || (frame.ret_base + actual_retc <= NUM_REGISTERS && src + actual_retc
            <= NUM_REGISTERS) {
            self.copy_registers(frame.ret_base, src, actual_retc);
            self.window_base = frame.caller_window;
            self.call_stack.pop();
            Ok((Some(frame.return_ip), None))
        } else {
            Err(Fault::IndexOutOfBounds)
        }
    }

    fn load_k(&mut self, instr: Instruction) -> (r: Outcome)
        requires
            old(self).wf(),
        ensures
            outcome_matches(old(self)@, exec_load_k(old(self)@, instr), r, final(self)@),
    {
        match self.read_const(instr.d() as usize) {
            Err(f) => Err(f),
            Ok(v) => {
                let a = self.reg(instr.a());
                self.write_then_proceed(a, v)
            },
        }
    }

    fn move_reg(&mut self, instr: Instruction) -> (r: Outcome)
        requires
            old(self).wf(),
        ensures
            outcome_matches(old(self)@, exec_move(old(self)@, instr), r, final(self)@),
    {
        match self.read(self.reg(instr.b())) {
            Err(f) => Err(f),
            Ok(v) => {
                let a = self.reg(instr.a());
                self.write_then_proceed(a, v)
            },
        }
    }

    fn load_global(&mut self, instr: Instruction) -> (r: Outcome)
        requires
            old(self).wf(),
        ensures
            outcome_matches(old(self)@, exec_load_global(old(self)@, instr), r, final(self)@),
    {
        let d = instr.d() as usize;
        let val = if d < self.globals.len() {
            self.globals[d]
        } else {
            Value::Nil
        };
        let a = self.reg(instr.a());
        self.write_then_proceed(a, val)
    }

    fn store_global(&mut self, instr: Instruction) -> (r: Outcome)
        requires
            old(self).wf(),
        ensures
            outcome_matches(old(self)@, exec_store_global(old(self)@, instr), r, final(self)@),
    {
        let idx = instr.d() as usize;
        let val = match self.read(self.reg(instr.a())) {
            Ok(v) => v,
            Err(f) => return Err(f),
        };
        let ghost g0 = self.globals@;
        if idx >= self.globals.len() {
            self.globals.resize(idx + 1, Value::Nil);
            assert(self.globals@ =~= grow_globals(g0, idx as int));
        }
        self.globals.set(idx, val);
        Ok((None, None))
    }

    fn get_index(&mut self, instr: Instruction) -> (r: Outcome)
        requires
            old(self).wf(),
        ensures
            outcome_matches(old(self)@, exec_get_index(old(self)@, instr), r, final(self)@),
    {
        let a = self.reg(instr.a());
        let b = self.reg(instr.b());
        let c = self.reg(instr.c());
        match self.read(b) {
            Err(f) => Err(f),
            Ok(Value::Str(si)) => {
                let code = {
                    let s = self.string_or_invalid(si);
                    let idx = match self.read(c) {
                        Err(f) => return Err(f),
                        Ok(Value::Int(n)) => n as usize,
                        Ok(other) => return Err(Fault::GetIndexStrBadIndex(other)),
                    };
                    let ch = if idx < s.unicode_len() {
                        s.get_char(idx)
                    } else {
                        '\0'
                    };
                    ch as u32 as i32
                };
                self.write_then_proceed(a, Value::Int(code))
            },
            Ok(Value::Array(ai)) => {
                let idx = match self.read(c) {
                    Err(f) => return Err(f),
                    Ok(Value::Int(n)) => n as usize,
                    Ok(other) => return Err(Fault::GetIndexArrayBadIndex(other)),
                };
                let result = if (ai as usize) < self.arrays.len() && idx < self.arrays[ai
                    as usize].len() {
                    self.arrays[ai as usize][idx]
                } else {
                    Value::Nil
                };
                self.write_then_proceed(a, result)
            },
            Ok(other) => Err(Fault::GetIndexBadTarget(other)),
        }
    }

    fn set_string_char(&mut self, instr: Instruction, si: u32) -> (r: Outcome)
        requires
            old(self).wf(),
        ensures
            outcome_matches(old(self)@, set_string_char(old(self)@, instr, si), r, final(self)@),
    {
        if si as usize >= self.strings.len() {
            return Err(Fault::SetIndexInvalidString(si));
        }
        let idx = match self.read(self.reg(instr.b())) {
            Err(f) => return Err(f),
            Ok(Value::Int(n)) => n as usize,
            Ok(other) => return Err(Fault::SetIndexStrBadIndex(other)),
        };
        let ch = match self.read(self.reg(instr.c())) {
            Err(f) => return Err(f),
            Ok(Value::Int(n)) => match char_from_u32(n as u32) {
                Some(ch) => ch,
                None => '\0',
            },
            Ok(other) => return Err(Fault::SetIndexStrBadChar(other)),
        };
        let ghost s0 = self@;
        let updated = {
            let s: &str = self.strings[si as usize].as_str();
            if idx < s.len() {
                let n = s.unicode_len();
                if idx < n {
                    let prefix = s.substring_char(0, idx);
                    let suffix = s.substring_char(idx + 1, n);
                    let mut text = prefix.to_owned();
                    let middle = char_to_string(ch);
                    text.append(middle.as_str());
                    text.append(suffix);
                    assert(text@ =~= s@.update(idx as int, ch));
                    text
                } else {
                    return Err(Fault::IndexOutOfBounds);
                }
            } else {
                return Ok((None, None));
            }
        };
        self.strings.set(si as usize, updated);
        assert(self@.strings =~= s0.strings.update(si as int, s0.strings[si as int].update(idx as int, ch)));
        Ok((None, None))
    }

    fn set_array_elem(&mut self, instr: Instruction, ai: u32) -> (r: Outcome)
        requires
            old(self).wf(),
        ensures
            outcome_matches(old(self)@, set_array_elem(old(self)@, instr, ai), r, final(self)@),
    {
        let idx = match self.read(self.reg(instr.b())) {
            Err(f) => return Err(f),
            Ok(Value::Int(n)) => n as usize,
            Ok(other) => return Err(Fault::SetIndexArrayBadIndex(other)),
        };
        let val = match self.read(self.reg(instr.c())) {
            Err(f) => return Err(f),
            Ok(v) => v,
        };
        if ai as usize >= self.arrays.len() {
            return Err(Fault::SetIndexInvalidArray(ai));
        }
        if idx < self.arrays[ai as usize].len() {
            let ghost s0 = self@;
            self.arrays[ai as usize].set(idx, val);
            assert(self@.arrays =~= s0.arrays.update(ai as int, s0.arrays[ai as int].update(idx as int, val)));
        }
        Ok((None, None))
    }

    fn set_index(&mut self, instr: Instruction) -> (r: Outcome)
        requires
            old(self).wf(),
        ensures
            outcome_matches(old(self)@, exec_set_index(old(self)@, instr), r, final(self)@),
    {
        match self.read(self.reg(instr.a())) {
            Err(f) => Err(f),
            Ok(Value::Str(si)) => self.set_string_char(instr, si),
            Ok(Value::Array(ai)) => self.set_array_elem(instr, ai),
            Ok(other) => Err(Fault::SetIndexBadTarget(other)),
        }
    }

    fn new_array(&mut self, instr: Instruction) -> (r: Outcome)
        requires
            old(self).wf(),
        ensures
            outcome_matches(old(self)@, exec_new_array(old(self)@, instr), r, final(self)@),
    {
        let a = self.reg(instr.a());
        if a >= NUM_REGISTERS {
            return Err(Fault::IndexOutOfBounds);
        }
        let size = instr.d() as usize;
        let idx = self.arrays.len() as u32;
        let ghost s0 = self@;
        let fresh: Vec<Value> = vec![Value::Nil; size];
        assert(fresh@ =~= Seq::new(size as nat, |i: int| Value::Nil));
        self.arrays.push(fresh);
        self.registers[a] = Value::Array(idx);
        assert(self@.arrays =~= s0.arrays.push(Seq::new(size as nat, |i: int| Value::Nil)));
        Ok((None, None))
    }

    fn copy_range(&mut self, instr: Instruction) -> (r: Outcome)
        requires
            old(self).wf(),
        ensures
            outcome_matches(old(self)@, exec_copy_range(old(self)@, instr), r, final(self)@),
    {
        let a = self.reg(instr.a());
        let b = self.reg(instr.b());
        let count = instr.c() as usize;
        if count == 0 || (a + count <= NUM_REGISTERS && b + count <= NUM_REGISTERS) {
            self.copy_registers(a, b, count);
            Ok((None, None))
        } else {
            Err(Fault::IndexOutOfBounds)
        }
    }

    fn len_v(&mut self, instr: Instruction) -> (r: Outcome)
        requires
            old(self).wf(),
        ensures
            outcome_matches(old(self)@, exec_len_v(old(self)@, instr), r, final(self)@),
    {
        let a = self.reg(instr.a());
        match self.read(self.reg(instr.b())) {
            Err(f) => Err(f),
            Ok(Value::Str(si)) => {
                let len: usize = if (si as usize) < self.strings.len() {
                    self.strings[si as usize].as_str().unicode_len()
                } else {
                    0
                };
                self.write_then_proceed(a, Value::Int(len as i32))
            },
            Ok(Value::Array(ai)) => {
                let len: usize = if (ai as usize) < self.arrays.len() {
                    self.arrays[ai as usize].len()
                } else {
                    0
                };
                self.write_then_proceed(a, Value::Int(len as i32))
            },
            Ok(other) => Err(Fault::LenVBadOperand(other)),
        }
    }

    fn len_k(&mut self, instr: Instruction) -> (r: Outcome)
        requires
            old(self).wf(),
        ensures
            outcome_matches(old(self)@, exec_len_k(old(self)@, instr), r, final(self)@),
    {
        let d = instr.d() as usize;
        if d >= self.constants.len() {
            return Err(Fault::LenKInvalidConstant(d));
        }
        match self.constants[d] {
            Value::Str(si) => {
                let len = self.string_or_invalid(si).unicode_len();
                let a = self.reg(instr.a());
                self.write_then_proceed(a, Value::Int(len as i32))
            },
            other => Err(Fault::LenKNotStr(other)),
        }
    }

    /// Appends `text` to the string table and stores a reference to it in `R[A]`.
    fn push_string(&mut self, instr: Instruction, text: String) -> (r: Outcome)
        requires
            old(self).wf(),
        ensures
            outcome_matches(old(self)@, push_string(old(self)@, instr, text@), r, final(self)@),
    {
        let a = self.reg(instr.a());
        if a >= NUM_REGISTERS {
            return Err(Fault::IndexOutOfBounds);
        }
        let ghost s0 = self@;
        let idx = self.strings.len() as u32;
        self.strings.push(text);
        self.registers[a] = Value::Str(idx);
        assert(self@.strings =~= s0.strings.push(text@));
        Ok((None, None))
    }

    fn concat_vv(&mut self, instr: Instruction) -> (r: Outcome)
        requires
            old(self).wf(),
        ensures
            outcome_matches(old(self)@, exec_concat_vv(old(self)@, instr), r, final(self)@),
    {
        let s1 = match self.read(self.reg(instr.b())) {
            Err(f) => return Err(f),
            Ok(Value::Str(si)) => si,
            Ok(other) => return Err(Fault::ConcatVVNotStr(other)),
        };
        let s2 = match self.read(self.reg(instr.c())) {
            Err(f) => return Err(f),
            Ok(Value::Str(si)) => si,
            Ok(other) => return Err(Fault::ConcatVVNotStr(other)),
        };
        let mut result = self.string_or_invalid(s1).to_owned();
        result.append(self.string_or_invalid(s2));
        self.push_string(instr, result)
    }

    fn concat_vk(&mut self, instr: Instruction) -> (r: Outcome)
        requires
            old(self).wf(),
        ensures
            outcome_matches(old(self)@, exec_concat_vk(old(self)@, instr), r, final(self)@),
    {
        let c = instr.c() as usize;
        let s1 = match self.read(self.reg(instr.b())) {
            Err(f) => return Err(f),
            Ok(Value::Str(si)) => si,
            Ok(other) => return Err(Fault::ConcatVKNotStr(other)),
        };
        if c >= self.constants.len() {
            return Err(Fault::ConcatVKInvalidConstant(c));
        }
        let s2 = match self.constants[c] {
            Value::Str(si) => si,
            other => return Err(Fault::ConcatVKNotStrConstant(other)),
        };
        let mut result = self.string_or_invalid(s1).to_owned();
        result.append(self.string_or_invalid(s2));
        self.push_string(instr, result)
    }

    fn not_v(&mut self, instr: Instruction) -> (r: Outcome)
        requires
            old(self).wf(),
        ensures
            outcome_matches(old(self)@, exec_not(old(self)@, instr), r, final(self)@),
    {
        match self.read(self.reg(instr.b())) {
            Err(f) => Err(f),
            Ok(v) => {
                let t = self.is_truthy(v);
                let a = self.reg(instr.a());
                self.write_then_proceed(a, Value::Bool(!t))
            },
        }
    }

    fn neg_v(&mut self, instr: Instruction) -> (r: Outcome)
        requires
            old(self).wf(),
        ensures
            outcome_matches(old(self)@, exec_neg(old(self)@, instr), r, final(self)@),
    {
        match self.read_int(self.reg(instr.b())) {
            Err(f) => Err(f),
            Ok(x) => if x == i32::MIN {
                Err(Fault::Arithmetic(ArithFault::NegOverflow))
            } else {
                let a = self.reg(instr.a());
                self.write_then_proceed(a, Value::Int(-x))
            },
        }
    }

    fn bit_not_v(&mut self, instr: Instruction) -> (r: Outcome)
        requires
            old(self).wf(),
        ensures
            outcome_matches(old(self)@, exec_bit_not(old(self)@, instr), r, final(self)@),
    {
        match self.read_int(self.reg(instr.b())) {
            Err(f) => Err(f),
            Ok(x) => {
                let a = self.reg(instr.a());
                self.write_then_proceed(a, Value::Int(!x))
            },
        }
    }

    fn printf(&self, instr: Instruction) -> (r: Outcome)
        requires
            self.wf(),
        ensures
            outcome_matches(self@, exec_printf(self@, instr), r, self@),
    {
        match self.read(self.reg(instr.a())) {
            Err(f) => Err(f),
            Ok(Value::Str(i)) => Ok((None, Some(Output::Text(self.string_or_invalid(i).to_owned())))),
            Ok(Value::Int(n)) => Ok((None, Some(Output::Int(n)))),
            Ok(Value::Bool(b)) => Ok((None, Some(Output::Bool(b)))),
            Ok(other) => Err(Fault::PrintfBadOperand(other)),
        }
    }

    /// The integer that an `Int` value holds.
    fn as_int(&self, v: Value) -> (r: i32)
        requires
            v is Int,
        ensures
            Value::Int(r) == v,
    {
        match v {
            Value::Int(n) => n,
            _ => {
                assert(false);
                0
            },
        }
    }

    /// The integer that `v` holds, or the fault for a value that is no `Int`.
    fn int_of(&self, v: Value) -> (r: Result<i32, Fault>)
        ensures
            r == as_int(v),
    {
        if let Value::Int(_) = v {
            Ok(self.as_int(v))
        } else {
            Err(Fault::NotAnInt(v))
        }
    }

    fn read_int(&self, i: usize) -> (r: Result<i32, Fault>)
        requires
            self.wf(),
        ensures
            r == read_int(self@, i as int),
    {
        match self.read(i) {
            Ok(v) => self.int_of(v),
            Err(f) => Err(f),
        }
    }

    fn read_const(&self, k: usize) -> (r: Result<Value, Fault>)
        ensures
            r == read_const(self@, k as int),
    {
        if k < self.constants.len() {
            Ok(self.constants[k])
        } else {
            Err(Fault::IndexOutOfBounds)
        }
    }

    /// The text of string `si`, or the placeholder text when there is none.
    fn string_or_invalid(&self, si: u32) -> (r: &str)
        ensures
            r@ == string_or_invalid(self@, si),
    {
        if (si as usize) < self.strings.len() {
            self.strings[si as usize].as_str()
        } else {
            "<invalid string index>"
        }
    }

    fn is_truthy(&self, v: Value) -> (r: bool)
        ensures
            r == truthy(self@, v),
    {
        match v {
            Value::Nil => false,
            Value::Bool(b) => b,
            Value::Int(n) => n != 0,
            Value::Func(_) => true,
            Value::Array(_) => true,
            Value::Str(i) => {
                if (i as usize) < self.strings.len() {
                    !self.strings[i as usize].as_str().is_empty()
                } else {
                    false
                }
            },
        }
    }

    fn int_operands(&self, instr: Instruction, from_const: bool) -> (r: Result<(i32, i32), Fault>)
        requires
            self.wf(),
        ensures
            r == int_operands(self@, instr, from_const),
    {
        let x = match self.read_int(self.reg(instr.b())) {
            Ok(x) => x,
            Err(f) => return Err(f),
        };
        let rhs = if from_const {
            self.read_const(instr.c() as usize)
        } else {
            self.read(self.reg(instr.c()))
        };
        match rhs {
            Err(f) => Err(f),
            Ok(v) => match self.int_of(v) {
                Err(f) => Err(f),
                Ok(y) => Ok((x, y)),
            },
        }
    }

    fn binop(&mut self, instr: Instruction, op: IntOp, from_const: bool) -> (r: Outcome)
        requires
            old(self).wf(),
        ensures
            outcome_matches(old(self)@, exec_int_op(old(self)@, instr, op, from_const), r, final(self)@),
    {
        let (x, y) = match self.int_operands(instr, from_const) {
            Ok(p) => p,
            Err(f) => return Err(f),
        };
        match int_op_exec(op, x, y) {
            Err(f) => Err(f),
            Ok(v) => {
                let a = self.reg(instr.a());
                self.write_then_proceed(a, Value::Int(v))
            },
        }
    }

    fn binop_vv(&mut self, instr: Instruction, op: IntOp) -> (r: Outcome)
        requires
            old(self).wf(),
        ensures
            outcome_matches(old(self)@, exec_int_op(old(self)@, instr, op, false), r, final(self)@),
    {
        self.binop(instr, op, false)
    }

    fn binop_vk(&mut self, instr: Instruction, op: IntOp) -> (r: Outcome)
        requires
            old(self).wf(),
        ensures
            outcome_matches(old(self)@, exec_int_op(old(self)@, instr, op, true), r, final(self)@),
    {
        self.binop(instr, op, true)
    }

    fn compare_op(&mut self, instr: Instruction, op: Compare, from_const: bool) -> (r: Outcome)
        requires
            old(self).wf(),
        ensures
            outcome_matches(old(self)@, exec_compare(old(self)@, instr, op, from_const), r, final(self)@),
    {
        let (x, y) = match self.int_operands(instr, from_const) {
            Ok(p) => p,
            Err(f) => return Err(f),
        };
        let a = self.reg(instr.a());
        self.write_then_proceed(a, Value::Bool(compare_exec(op, x, y)))
    }

    fn compare_vv(&mut self, instr: Instruction, op: Compare) -> (r: Outcome)
        requires
            old(self).wf(),
        ensures
            outcome_matches(old(self)@, exec_compare(old(self)@, instr, op, false), r, final(self)@),
    {
        self.compare_op(instr, op, false)
    }

    fn compare_vk(&mut self, instr: Instruction, op: Compare) -> (r: Outcome)
        requires
            old(self).wf(),
        ensures
            outcome_matches(old(self)@, exec_compare(old(self)@, instr, op, true), r, final(self)@),
    {
        self.compare_op(instr, op, true)
    }
}

/// Calls `char::from_u32`, which gives the character with code `u` when `u` is
/// a Unicode scalar value, and `None` otherwise.
#[verifier::external_body]
fn char_from_u32(u: u32) -> (r: Option<char>)
    ensures
        is_scalar(u) ==> r == Some(u as char),
        !is_scalar(u) ==> r is None,
{
    char::from_u32(u)
}

/// Calls `String::from` on a `char`, which gives the string of that one
/// character.
#[verifier::external_body]
fn char_to_string(c: char) -> (r: String)
    ensures
        r@ == seq![c],
{
    String::from(c)
}

/// An integer operation with Rust's checked arithmetic: see `int_op`.
fn int_op_exec(op: IntOp, x: i32, y: i32) -> (r: Result<i32, Fault>)
    ensures
        r == int_op(op, x, y),
{
    match op {
        IntOp::Add => match x.checked_add(y) {
            Some(v) => Ok(v),
            None => Err(Fault::Arithmetic(ArithFault::AddOverflow)),
        },
        IntOp::Sub => match x.checked_sub(y) {
            Some(v) => Ok(v),
            None => Err(Fault::Arithmetic(ArithFault::SubOverflow)),
        },
        IntOp::Mul => match x.checked_mul(y) {
            Some(v) => Ok(v),
            None => Err(Fault::Arithmetic(ArithFault::MulOverflow)),
        },
        IntOp::Div => if y == 0 {
            Err(Fault::Arithmetic(ArithFault::DivByZero))
        } else {
            match x.checked_div(y) {
                Some(v) => Ok(v),
                None => Err(Fault::Arithmetic(ArithFault::DivOverflow)),
            }
        },
        IntOp::Rem => if y == 0 {
            Err(Fault::Arithmetic(ArithFault::RemByZero))
        } else {
            match x.checked_rem(y) {
                Some(v) => Ok(v),
                None => Err(Fault::Arithmetic(ArithFault::RemOverflow)),
            }
        },
        IntOp::And => Ok(x & y),
        IntOp::Or => Ok(x | y),
        IntOp::Xor => Ok(x ^ y),
        IntOp::Shl => if 0 <= y && y < 32 {
            Ok(x << y)
        } else {
            Err(Fault::Arithmetic(ArithFault::ShlOverflow))
        },
        IntOp::Shr => if 0 <= y && y < 32 {
            Ok(x >> y)
        } else {
            Err(Fault::Arithmetic(ArithFault::ShrOverflow))
        },
    }
}

fn compare_exec(op: Compare, x: i32, y: i32) -> (r: bool)
    ensures
        r == compare(op, x, y),
{
    match op {
        Compare::Eq => x == y,
        Compare::Lt => x < y,
        Compare::Le => x <= y,
        Compare::Gt => x > y,
        Compare::Ge => x >= y,
    }
}

} // verus!
