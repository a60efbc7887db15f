use opengpc::codegen::bytecode::{Instruction, Opcode, Value};

#[test]
fn encode_abc_packs_fields() {
    let i = Instruction::encode_abc(Opcode::AddVV, 1, 2, 3);
    assert_eq!(i.opcode(), 23);
    assert_eq!(i.a(), 1);
    assert_eq!(i.b(), 2);
    assert_eq!(i.c(), 3);
    assert_eq!(i.d(), 0x0302);
}

#[test]
fn encode_ad_packs_wide_operand() {
    let i = Instruction::encode_ad(Opcode::LoadInt, 5, 0xBEEF);
    assert_eq!(i.opcode(), 12);
    assert_eq!(i.a(), 5);
    assert_eq!(i.d(), 0xBEEF);
    assert_eq!(i.b(), 0xEF);
    assert_eq!(i.c(), 0xBE);
}

#[test]
fn new_decodes_raw_word() {
    let i = Instruction::new(0x0403_0201);
    assert_eq!(i.opcode(), 0x01);
    assert_eq!(i.a(), 0x02);
    assert_eq!(i.b(), 0x03);
    assert_eq!(i.c(), 0x04);
    assert_eq!(i.d(), 0x0403);
}

#[test]
fn new_max_word() {
    let i = Instruction::new(u32::MAX);
    assert_eq!(i.opcode(), 0xFF);
    assert_eq!(i.a(), 0xFF);
    assert_eq!(i.d(), 0xFFFF);
}

#[test]
fn opcode_numbers_follow_declaration_order() {
    assert_eq!(Opcode::Halt.to_u8(), 0);
    assert_eq!(Opcode::LoadK.to_u8(), 7);
    assert_eq!(Opcode::AddVV.to_u8(), 23);
    assert_eq!(Opcode::EqVV.to_u8(), 33);
    assert_eq!(Opcode::Call.to_u8(), 58);
    assert_eq!(Opcode::Return.to_u8(), 59);
    assert_eq!(Opcode::Nop.to_u8(), 61);
}

#[test]
fn try_from_accepts_known_opcodes() {
    assert_eq!(Opcode::try_from(0u8), Ok(Opcode::Halt));
    assert_eq!(Opcode::try_from(29u8), Ok(Opcode::DivVV));
    assert_eq!(Opcode::try_from(61u8), Ok(Opcode::Nop));
}

#[test]
fn try_from_rejects_unknown_bytes() {
    assert_eq!(Opcode::try_from(62u8), Err(62u8));
    assert_eq!(Opcode::try_from(0xFFu8), Err(0xFFu8));
}

#[test]
fn every_opcode_round_trips() {
    for v in 0u8..=61 {
        let op = Opcode::from_u8(v).unwrap();
        assert_eq!(op.to_u8(), v);
        let i = Instruction::encode_abc(op, 9, 8, 7);
        assert_eq!(Opcode::try_from(i.opcode()), Ok(op));
    }
}

#[test]
fn d_spans_b_and_c() {
    let i = Instruction::encode_abc(Opcode::Move, 0, 0x34, 0x12);
    assert_eq!(i.d(), 0x1234);
    let j = Instruction::encode_ad(Opcode::Jump, 0, 0x1234);
    assert_eq!(j.b(), 0x34);
    assert_eq!(j.c(), 0x12);
}

#[test]
fn values_compare_by_contents() {
    assert_eq!(Value::Int(3), Value::Int(3));
    assert_ne!(Value::Int(3), Value::Bool(true));
    assert_ne!(Value::Str(0), Value::Array(0));
}
