use vstd::prelude::*;

verus! {

/// A 32-bit encoded instruction.
///
/// Two encoding formats are supported:
///
/// ```text
/// ABC  — bits: [31..24 = C] [23..16 = B] [15..8 = A] [7..0 = opcode]
/// AD   — bits: [31..16 = D] [15..8 = A]  [7..0 = opcode]
/// ```
///
/// `D` is a 16-bit wide operand that spans the `B` and `C` fields and is
/// used for constant indices, jump targets, and other wide immediates.
#[derive(Clone, Copy, Debug)]
pub struct Instruction(u32);

/// The word of an ABC-format instruction.
pub open spec fn abc_word(op: u8, a: u8, b: u8, c: u8) -> u32 {
    (op as u32) | ((a as u32) << 8u32) | ((b as u32) << 16u32) | ((c as u32) << 24u32)
}

/// The word of an AD-format instruction.
pub open spec fn ad_word(op: u8, a: u8, d: u16) -> u32 {
    (op as u32) | ((a as u32) << 8u32) | ((d as u32) << 16u32)
}

impl Instruction {
    /// The raw 32-bit word.
    pub closed spec fn bits(self) -> u32 {
        self.0
    }

    /// The instruction whose raw word is `w`.
    pub closed spec fn from_word(w: u32) -> Instruction {
        Instruction(w)
    }

    pub broadcast proof fn lemma_word_of_from_word(w: u32)
        ensures
            #[trigger] Instruction::from_word(w).bits() == w,
    {
    }

    pub broadcast proof fn lemma_from_word_of_bits(i: Instruction)
        ensures
            Instruction::from_word(#[trigger] i.bits()) == i,
    {
    }

    pub open spec fn op_field(self) -> u8 {
        (self.bits() & 0xffu32) as u8
    }

    pub open spec fn a_field(self) -> u8 {
        ((self.bits() >> 8u32) & 0xffu32) as u8
    }

    pub open spec fn b_field(self) -> u8 {
        ((self.bits() >> 16u32) & 0xffu32) as u8
    }

    pub open spec fn c_field(self) -> u8 {
        ((self.bits() >> 24u32) & 0xffu32) as u8
    }

    pub open spec fn d_field(self) -> u16 {
        ((self.bits() >> 16u32) & 0xffffu32) as u16
    }

    /// Construct from a raw `u32` (e.g. when reading from a binary).
    pub fn new(raw: u32) -> (r: Self)
        ensures
            r == Instruction::from_word(raw),
    {
        Self(raw)
    }

    /// Encode an **ABC** format instruction.
    pub fn encode_abc(op: Opcode, a: u8, b: u8, c: u8) -> (r: Self)
        ensures
            r == Instruction::from_word(abc_word(op.code(), a, b, c)),
    {
        let code: u8 = op.to_u8();
        Self((code as u32) | ((a as u32) << 8u32) | ((b as u32) << 16u32) | ((c as u32) << 24u32))
    }

    /// Encode an **AD** format instruction.
    /// `d` occupies the upper 16 bits (spanning the B and C fields).
    pub fn encode_ad(op: Opcode, a: u8, d: u16) -> (r: Self)
        ensures
            r == Instruction::from_word(ad_word(op.code(), a, d)),
    {
        let code: u8 = op.to_u8();
        Self((code as u32) | ((a as u32) << 8u32) | ((d as u32) << 16u32))
    }

    pub fn opcode(self) -> (r: u8)
        ensures
            r == self.op_field(),
    {
        (self.0 & 0xFFu32) as u8
    }

    pub fn a(self) -> (r: u8)
        ensures
            r == self.a_field(),
    {
        ((self.0 >> 8u32) & 0xFFu32) as u8
    }

    pub fn b(self) -> (r: u8)
        ensures
            r == self.b_field(),
    {
        ((self.0 >> 16u32) & 0xFFu32) as u8
    }

    pub fn c(self) -> (r: u8)
        ensures
            r == self.c_field(),
    {
        ((self.0 >> 24u32) & 0xFFu32) as u8
    }

    /// The 16-bit wide `D` operand (spans the `B` and `C` fields).
    pub fn d(self) -> (r: u16)
        ensures
            r == self.d_field(),
    {
        ((self.0 >> 16u32) & 0xFFFFu32) as u16
    }
}

/// Opcodes for the virtual machine.
///
/// Operand conventions:
///   `V` — register (variable) index
///   `K` — constant-pool index
///   `D` — 16-bit wide immediate / address
///
/// Instruction formats:
///   `ABC` — `opcode | A<<8 | B<<16 | C<<24`
///   `AD`  — `opcode | A<<8 | D<<16`
#[derive(Clone, Copy, Debug, PartialEq, Eq, Structural)]
pub enum Opcode {
    /// Stop execution.
    Halt,
    /// AD: `ip = D`.
    Jump,
    /// AD: if `R[A]` is truthy, `ip = D`.
    JumpIf,
    /// AD: if `R[A]` is falsy, `ip = D`.
    JumpIfNot,
    /// AD: `R[A] -= R[A+2]`; `ip = D` (the address of the matching `ForLoop`).
    ForPrep,
    /// AD: `R[A] += R[A+2]`; jump to `D` while the counter has not passed the limit `R[A+1]`.
    ForLoop,
    /// ABC: like `Call`, but reuses the current frame instead of pushing a new one.
    TailCall,
    /// AD: `R[A] = constants[D]`.
    LoadK,
    /// AB: `R[A] = R[B]`.
    Move,
    /// AD: `R[A] = globals[D]` (`Nil` when unset).
    LoadGlobal,
    /// AD: `globals[D] = R[A]`, growing the table as needed.
    StoreGlobal,
    /// AD: `R[A] = Func(D)`.
    LoadFunc,
    /// AD: `R[A] = Int(D)`, `D` read as a signed 16-bit immediate.
    LoadInt,
    /// AD: `R[A] = Bool(D != 0)`.
    LoadBool,
    /// A: `R[A] = Nil`.
    LoadNil,
    /// ABC: `R[A] = R[B][R[C]]`.
    GetIndex,
    /// ABC: `R[A][R[B]] = R[C]`.
    SetIndex,
    /// AD: `R[A]` = a new array of `D` `Nil` slots.
    NewArray,
    /// ABC: copies `C` registers starting at `R[B]` to `R[A]..`.
    CopyRange,
    /// AB: `R[A] = len(R[B])`.
    LenV,
    /// AD: `R[A] = len(constants[D])`.
    LenK,
    /// ABC: `R[A] = R[B] .. R[C]`.
    ConcatVV,
    /// ABC: `R[A] = R[B] .. constants[C]`.
    ConcatVK,
    /// ABC: `R[A] = R[B] + R[C]`.
    AddVV,
    /// ABC: `R[A] = R[B] + constants[C]`.
    AddVK,
    /// ABC: `R[A] = R[B] - R[C]`.
    SubVV,
    /// ABC: `R[A] = R[B] - constants[C]`.
    SubVK,
    /// ABC: `R[A] = R[B] * R[C]`.
    MulVV,
    /// ABC: `R[A] = R[B] * constants[C]`.
    MulVK,
    /// ABC: `R[A] = R[B] / R[C]`.
    DivVV,
    /// ABC: `R[A] = R[B] / constants[C]`.
    DivVK,
    /// ABC: `R[A] = R[B] % R[C]`.
    ModVV,
    /// ABC: `R[A] = R[B] % constants[C]`.
    ModVK,
    /// ABC: `R[A] = R[B] == R[C]`.
    EqVV,
    /// ABC: `R[A] = R[B] == constants[C]`.
    EqVK,
    /// ABC: `R[A] = R[B] < R[C]`.
    LtVV,
    /// ABC: `R[A] = R[B] < constants[C]`.
    LtVK,
    /// ABC: `R[A] = R[B] <= R[C]`.
    LteVV,
    /// ABC: `R[A] = R[B] <= constants[C]`.
    LteVK,
    /// ABC: `R[A] = R[B] > R[C]`.
    GtVV,
    /// ABC: `R[A] = R[B] > constants[C]`.
    GtVK,
    /// ABC: `R[A] = R[B] >= R[C]`.
    GteVV,
    /// ABC: `R[A] = R[B] >= constants[C]`.
    GteVK,
    /// AB: `R[A] = !R[B]` (logical).
    NotV,
    /// AB: `R[A] = -R[B]`.
    NegV,
    /// AB: `R[A] = ~R[B]`.
    BitNotV,
    /// ABC: `R[A] = R[B] & R[C]`.
    AndVV,
    /// ABC: `R[A] = R[B] & constants[C]`.
    AndVK,
    /// ABC: `R[A] = R[B] | R[C]`.
    OrVV,
    /// ABC: `R[A] = R[B] | constants[C]`.
    OrVK,
    /// ABC: `R[A] = R[B] ^ R[C]`.
    XorVV,
    /// ABC: `R[A] = R[B] ^ constants[C]`.
    XorVK,
    /// ABC: `R[A] = R[B] << R[C]`.
    ShlVV,
    /// ABC: `R[A] = R[B] << constants[C]`.
    ShlVK,
    /// ABC: `R[A] = R[B] >> R[C]`.
    ShrVV,
    /// ABC: `R[A] = R[B] >> constants[C]`.
    ShrVK,
    /// ABC: arithmetic right shift by a register.
    SarVV,
    /// ABC: arithmetic right shift by a constant.
    SarVK,
    /// ABC: `A` = function register, `B` = argument count, `C` = result count.
    Call,
    /// AB: `A` = first result register, `B` = result count.
    Return,
    /// A: print `R[A]`.
    Printf,
    /// Do nothing.
    Nop,
}

/// The largest opcode number in use (that of `Nop`).
pub const MAX_OPCODE: u8 = 61u8;

/// The number that encodes an opcode: the variants are numbered from 0 in
/// declaration order.
pub open spec fn opcode_number(op: Opcode) -> u8 {
    match op {
            Opcode::Halt => 0u8,
            Opcode::Jump => 1u8,
            Opcode::JumpIf => 2u8,
            Opcode::JumpIfNot => 3u8,
            Opcode::ForPrep => 4u8,
            Opcode::ForLoop => 5u8,
            Opcode::TailCall => 6u8,
            Opcode::LoadK => 7u8,
            Opcode::Move => 8u8,
            Opcode::LoadGlobal => 9u8,
            Opcode::StoreGlobal => 10u8,
            Opcode::LoadFunc => 11u8,
            Opcode::LoadInt => 12u8,
            Opcode::LoadBool => 13u8,
            Opcode::LoadNil => 14u8,
            Opcode::GetIndex => 15u8,
            Opcode::SetIndex => 16u8,
            Opcode::NewArray => 17u8,
            Opcode::CopyRange => 18u8,
            Opcode::LenV => 19u8,
            Opcode::LenK => 20u8,
            Opcode::ConcatVV => 21u8,
            Opcode::ConcatVK => 22u8,
            Opcode::AddVV => 23u8,
            Opcode::AddVK => 24u8,
            Opcode::SubVV => 25u8,
            Opcode::SubVK => 26u8,
            Opcode::MulVV => 27u8,
            Opcode::MulVK => 28u8,
            Opcode::DivVV => 29u8,
            Opcode::DivVK => 30u8,
            Opcode::ModVV => 31u8,
            Opcode::ModVK => 32u8,
            Opcode::EqVV => 33u8,
            Opcode::EqVK => 34u8,
            Opcode::LtVV => 35u8,
            Opcode::LtVK => 36u8,
            Opcode::LteVV => 37u8,
            Opcode::LteVK => 38u8,
            Opcode::GtVV => 39u8,
            Opcode::GtVK => 40u8,
            Opcode::GteVV => 41u8,
            Opcode::GteVK => 42u8,
            Opcode::NotV => 43u8,
            Opcode::NegV => 44u8,
            Opcode::BitNotV => 45u8,
            Opcode::AndVV => 46u8,
            Opcode::AndVK => 47u8,
            Opcode::OrVV => 48u8,
            Opcode::OrVK => 49u8,
            Opcode::XorVV => 50u8,
            Opcode::XorVK => 51u8,
            Opcode::ShlVV => 52u8,
            Opcode::ShlVK => 53u8,
            Opcode::ShrVV => 54u8,
            Opcode::ShrVK => 55u8,
            Opcode::SarVV => 56u8,
            Opcode::SarVK => 57u8,
            Opcode::Call => 58u8,
            Opcode::Return => 59u8,
            Opcode::Printf => 60u8,
            Opcode::Nop => 61u8,
    }
}

/// The opcode encoded by a byte, or the byte itself when it encodes none.
pub open spec fn decode_opcode(v: u8) -> Result<Opcode, u8> {
    match v {
        0u8 => Ok(Opcode::Halt),
        1u8 => Ok(Opcode::Jump),
        2u8 => Ok(Opcode::JumpIf),
        3u8 => Ok(Opcode::JumpIfNot),
        4u8 => Ok(Opcode::ForPrep),
        5u8 => Ok(Opcode::ForLoop),
        6u8 => Ok(Opcode::TailCall),
        7u8 => Ok(Opcode::LoadK),
        8u8 => Ok(Opcode::Move),
        9u8 => Ok(Opcode::LoadGlobal),
        10u8 => Ok(Opcode::StoreGlobal),
        11u8 => Ok(Opcode::LoadFunc),
        12u8 => Ok(Opcode::LoadInt),
        13u8 => Ok(Opcode::LoadBool),
        14u8 => Ok(Opcode::LoadNil),
        15u8 => Ok(Opcode::GetIndex),
        16u8 => Ok(Opcode::SetIndex),
        17u8 => Ok(Opcode::NewArray),
        18u8 => Ok(Opcode::CopyRange),
        19u8 => Ok(Opcode::LenV),
        20u8 => Ok(Opcode::LenK),
        21u8 => Ok(Opcode::ConcatVV),
        22u8 => Ok(Opcode::ConcatVK),
        23u8 => Ok(Opcode::AddVV),
        24u8 => Ok(Opcode::AddVK),
        25u8 => Ok(Opcode::SubVV),
        26u8 => Ok(Opcode::SubVK),
        27u8 => Ok(Opcode::MulVV),
        28u8 => Ok(Opcode::MulVK),
        29u8 => Ok(Opcode::DivVV),
        30u8 => Ok(Opcode::DivVK),
        31u8 => Ok(Opcode::ModVV),
        32u8 => Ok(Opcode::ModVK),
        33u8 => Ok(Opcode::EqVV),
        34u8 => Ok(Opcode::EqVK),
        35u8 => Ok(Opcode::LtVV),
        36u8 => Ok(Opcode::LtVK),
        37u8 => Ok(Opcode::LteVV),
        38u8 => Ok(Opcode::LteVK),
        39u8 => Ok(Opcode::GtVV),
        40u8 => Ok(Opcode::GtVK),
        41u8 => Ok(Opcode::GteVV),
        42u8 => Ok(Opcode::GteVK),
        43u8 => Ok(Opcode::NotV),
        44u8 => Ok(Opcode::NegV),
        45u8 => Ok(Opcode::BitNotV),
        46u8 => Ok(Opcode::AndVV),
        47u8 => Ok(Opcode::AndVK),
        48u8 => Ok(Opcode::OrVV),
        49u8 => Ok(Opcode::OrVK),
        50u8 => Ok(Opcode::XorVV),
        51u8 => Ok(Opcode::XorVK),
        52u8 => Ok(Opcode::ShlVV),
        53u8 => Ok(Opcode::ShlVK),
        54u8 => Ok(Opcode::ShrVV),
        55u8 => Ok(Opcode::ShrVK),
        56u8 => Ok(Opcode::SarVV),
        57u8 => Ok(Opcode::SarVK),
        58u8 => Ok(Opcode::Call),
        59u8 => Ok(Opcode::Return),
        60u8 => Ok(Opcode::Printf),
        61u8 => Ok(Opcode::Nop),
        _ => Err(v),
    }
}

impl Opcode {
    pub open spec fn code(self) -> u8 {
        opcode_number(self)
    }

    /// The number that encodes this opcode.
    pub fn to_u8(self) -> (r: u8)
        ensures
            r == self.code(),
    {
        match self {
            Opcode::Halt => 0u8,
            Opcode::Jump => 1u8,
            Opcode::JumpIf => 2u8,
            Opcode::JumpIfNot => 3u8,
            Opcode::ForPrep => 4u8,
            Opcode::ForLoop => 5u8,
            Opcode::TailCall => 6u8,
            Opcode::LoadK => 7u8,
            Opcode::Move => 8u8,
            Opcode::LoadGlobal => 9u8,
            Opcode::StoreGlobal => 10u8,
            Opcode::LoadFunc => 11u8,
            Opcode::LoadInt => 12u8,
            Opcode::LoadBool => 13u8,
            Opcode::LoadNil => 14u8,
            Opcode::GetIndex => 15u8,
            Opcode::SetIndex => 16u8,
            Opcode::NewArray => 17u8,
            Opcode::CopyRange => 18u8,
            Opcode::LenV => 19u8,
            Opcode::LenK => 20u8,
            Opcode::ConcatVV => 21u8,
            Opcode::ConcatVK => 22u8,
            Opcode::AddVV => 23u8,
            Opcode::AddVK => 24u8,
            Opcode::SubVV => 25u8,
            Opcode::SubVK => 26u8,
            Opcode::MulVV => 27u8,
            Opcode::MulVK => 28u8,
            Opcode::DivVV => 29u8,
            Opcode::DivVK => 30u8,
            Opcode::ModVV => 31u8,
            Opcode::ModVK => 32u8,
            Opcode::EqVV => 33u8,
            Opcode::EqVK => 34u8,
            Opcode::LtVV => 35u8,
            Opcode::LtVK => 36u8,
            Opcode::LteVV => 37u8,
            Opcode::LteVK => 38u8,
            Opcode::GtVV => 39u8,
            Opcode::GtVK => 40u8,
            Opcode::GteVV => 41u8,
            Opcode::GteVK => 42u8,
            Opcode::NotV => 43u8,
            Opcode::NegV => 44u8,
            Opcode::BitNotV => 45u8,
            Opcode::AndVV => 46u8,
            Opcode::AndVK => 47u8,
            Opcode::OrVV => 48u8,
            Opcode::OrVK => 49u8,
            Opcode::XorVV => 50u8,
            Opcode::XorVK => 51u8,
            Opcode::ShlVV => 52u8,
            Opcode::ShlVK => 53u8,
            Opcode::ShrVV => 54u8,
            Opcode::ShrVK => 55u8,
            Opcode::SarVV => 56u8,
            Opcode::SarVK => 57u8,
            Opcode::Call => 58u8,
            Opcode::Return => 59u8,
            Opcode::Printf => 60u8,
            Opcode::Nop => 61u8,
        }
    }

    /// The opcode a byte encodes, or `Err` with the byte when it encodes none.
    pub fn from_u8(v: u8) -> (r: Result<Opcode, u8>)
        ensures
            r == decode_opcode(v),
    {
        match v {
        0u8 => Ok(Opcode::Halt),
        1u8 => Ok(Opcode::Jump),
        2u8 => Ok(Opcode::JumpIf),
        3u8 => Ok(Opcode::JumpIfNot),
        4u8 => Ok(Opcode::ForPrep),
        5u8 => Ok(Opcode::ForLoop),
        6u8 => Ok(Opcode::TailCall),
        7u8 => Ok(Opcode::LoadK),
        8u8 => Ok(Opcode::Move),
        9u8 => Ok(Opcode::LoadGlobal),
        10u8 => Ok(Opcode::StoreGlobal),
        11u8 => Ok(Opcode::LoadFunc),
        12u8 => Ok(Opcode::LoadInt),
        13u8 => Ok(Opcode::LoadBool),
        14u8 => Ok(Opcode::LoadNil),
        15u8 => Ok(Opcode::GetIndex),
        16u8 => Ok(Opcode::SetIndex),
        17u8 => Ok(Opcode::NewArray),
        18u8 => Ok(Opcode::CopyRange),
        19u8 => Ok(Opcode::LenV),
        20u8 => Ok(Opcode::LenK),
        21u8 => Ok(Opcode::ConcatVV),
        22u8 => Ok(Opcode::ConcatVK),
        23u8 => Ok(Opcode::AddVV),
        24u8 => Ok(Opcode::AddVK),
        25u8 => Ok(Opcode::SubVV),
        26u8 => Ok(Opcode::SubVK),
        27u8 => Ok(Opcode::MulVV),
        28u8 => Ok(Opcode::MulVK),
        29u8 => Ok(Opcode::DivVV),
        30u8 => Ok(Opcode::DivVK),
        31u8 => Ok(Opcode::ModVV),
        32u8 => Ok(Opcode::ModVK),
        33u8 => Ok(Opcode::EqVV),
        34u8 => Ok(Opcode::EqVK),
        35u8 => Ok(Opcode::LtVV),
        36u8 => Ok(Opcode::LtVK),
        37u8 => Ok(Opcode::LteVV),
        38u8 => Ok(Opcode::LteVK),
        39u8 => Ok(Opcode::GtVV),
        40u8 => Ok(Opcode::GtVK),
        41u8 => Ok(Opcode::GteVV),
        42u8 => Ok(Opcode::GteVK),
        43u8 => Ok(Opcode::NotV),
        44u8 => Ok(Opcode::NegV),
        45u8 => Ok(Opcode::BitNotV),
        46u8 => Ok(Opcode::AndVV),
        47u8 => Ok(Opcode::AndVK),
        48u8 => Ok(Opcode::OrVV),
        49u8 => Ok(Opcode::OrVK),
        50u8 => Ok(Opcode::XorVV),
        51u8 => Ok(Opcode::XorVK),
        52u8 => Ok(Opcode::ShlVV),
        53u8 => Ok(Opcode::ShlVK),
        54u8 => Ok(Opcode::ShrVV),
        55u8 => Ok(Opcode::ShrVK),
        56u8 => Ok(Opcode::SarVV),
        57u8 => Ok(Opcode::SarVK),
        58u8 => Ok(Opcode::Call),
        59u8 => Ok(Opcode::Return),
        60u8 => Ok(Opcode::Printf),
        61u8 => Ok(Opcode::Nop),
            _ => Err(v),
        }
    }
}

impl TryFrom<u8> for Opcode {
    type Error = u8;

    fn try_from(value: u8) -> (r: Result<Self, Self::Error>) {
        Opcode::from_u8(value)
    }
}

impl vstd::std_specs::convert::TryFromSpecImpl<u8> for Opcode {
    open spec fn obeys_try_from_spec() -> bool {
        true
    }

    open spec fn try_from_spec(v: u8) -> Result<Self, u8> {
        decode_opcode(v)
    }
}

/// Decoding an ABC-format instruction gives back the opcode and the three
/// operands it was encoded from.
pub proof fn law_abc_decodes(op: Opcode, a: u8, b: u8, c: u8)
    ensures
        ({
            let i = Instruction::from_word(abc_word(op.code(), a, b, c));
            &&& i.op_field() == op.code()
            &&& decode_opcode(i.op_field()) == Ok::<Opcode, u8>(op)
            &&& i.a_field() == a
            &&& i.b_field() == b
            &&& i.c_field() == c
        }),
{
    let x = op.code();
    let w = abc_word(x, a, b, c);
    Instruction::lemma_word_of_from_word(w);
    assert((w & 0xffu32) as u8 == x && ((w >> 8u32) & 0xffu32) as u8 == a && ((w >> 16u32)
        & 0xffu32) as u8 == b && ((w >> 24u32) & 0xffu32) as u8 == c) by (bit_vector)
        requires
            w == (x as u32) | ((a as u32) << 8u32) | ((b as u32) << 16u32) | ((c as u32) << 24u32),
    ;
    law_opcode_roundtrip(op);
}

/// Decoding an AD-format instruction gives back the opcode, `A` and the
/// wide operand `D` it was encoded from.
pub proof fn law_ad_decodes(op: Opcode, a: u8, d: u16)
    ensures
        ({
            let i = Instruction::from_word(ad_word(op.code(), a, d));
            &&& i.op_field() == op.code()
            &&& decode_opcode(i.op_field()) == Ok::<Opcode, u8>(op)
            &&& i.a_field() == a
            &&& i.d_field() == d
        }),
{
    let x = op.code();
    let w = ad_word(x, a, d);
    Instruction::lemma_word_of_from_word(w);
    assert((w & 0xffu32) as u8 == x && ((w >> 8u32) & 0xffu32) as u8 == a && ((w >> 16u32)
        & 0xffffu32) as u16 == d) by (bit_vector)
        requires
            w == (x as u32) | ((a as u32) << 8u32) | ((d as u32) << 16u32),
    ;
    law_opcode_roundtrip(op);
}

/// The wide operand `D` spans the `B` and `C` fields: `B` is its low byte and
/// `C` its high byte.
pub proof fn law_d_spans_b_and_c(i: Instruction)
    ensures
        i.d_field() == (i.b_field() as u16) | ((i.c_field() as u16) << 8u16),
{
    let w = i.bits();
    assert(((w >> 16u32) & 0xffffu32) as u16 == ((((w >> 16u32) & 0xffu32) as u8) as u16) | (((((
    w >> 24u32) & 0xffu32) as u8) as u16) << 8u16)) by (bit_vector);
}

/// Every instruction word is the encoding of its own fields, in both formats:
/// decoding and then encoding again gives back the same word.
pub proof fn law_fields_reencode(i: Instruction)
    ensures
        i.bits() == abc_word(i.op_field(), i.a_field(), i.b_field(), i.c_field()),
        i.bits() == ad_word(i.op_field(), i.a_field(), i.d_field()),
{
    let w = i.bits();
    assert(w == (((w & 0xffu32) as u8) as u32) | (((((w >> 8u32) & 0xffu32) as u8) as u32) << 8u32)
        | (((((w >> 16u32) & 0xffu32) as u8) as u32) << 16u32) | (((((w >> 24u32) & 0xffu32)
        as u8) as u32) << 24u32)) by (bit_vector);
    assert(w == (((w & 0xffu32) as u8) as u32) | (((((w >> 8u32) & 0xffu32) as u8) as u32) << 8u32)
        | (((((w >> 16u32) & 0xffffu32) as u16) as u32) << 16u32)) by (bit_vector);
}

/// Every opcode decodes from its own number.
pub proof fn law_opcode_roundtrip(op: Opcode)
    ensures
        decode_opcode(op.code()) == Ok::<Opcode, u8>(op),
{
}

/// A byte decodes to an opcode exactly when it is at most `MAX_OPCODE`, and
/// then to the opcode that this byte numbers.
pub proof fn law_decode_exact(v: u8)
    ensures
        decode_opcode(v) is Ok <==> v <= MAX_OPCODE,
        decode_opcode(v) matches Ok(op) ==> op.code() == v,
        decode_opcode(v) matches Err(e) ==> e == v,
{
}

/// A value that can live in a register or the constant pool.
#[derive(Clone, Copy, Debug, PartialEq, Eq, Structural)]
pub enum Value {
    Nil,
    Bool(bool),
    Int(i32),
    /// Index into the VM's string table.
    Str(u32),
    /// Index into the VM's function table.
    Func(u16),
    /// Index into the VM's array heap.
    Array(u32),
}

} // verus!
