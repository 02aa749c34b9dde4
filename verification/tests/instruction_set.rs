use rbvm::instruction::Instruction;
use rbvm::instruction::OpCode;

#[test]
fn test_create_hlt() {
    let oc = OpCode::HLT;
    assert_eq!(oc, OpCode::HLT);
}

#[test]
fn test_create_instruction() {
    let instruction = Instruction::new(OpCode::HLT);
    assert_eq!(instruction.opcode, OpCode::HLT);
}

#[test]
fn test_defined_bytes_round_trip() {
    let defined: Vec<u8> = vec![0, 10, 11, 12, 13, 14, 15, 16, 17, 18, 19, 20, 21, 22, 23, 24, 255];
    for byte in defined {
        let op = OpCode::from(byte);
        assert_ne!(op, OpCode::IGL);
        assert_eq!(u8::from(op), byte);
    }
}

#[test]
fn test_undefined_bytes_decode_illegal() {
    for value in 0u16..=255u16 {
        let byte = value as u8;
        let defined = byte == 0 || (10..=24).contains(&byte) || byte == 254 || byte == 255;
        if !defined {
            assert_eq!(OpCode::from(byte), OpCode::IGL);
        }
    }
}

#[test]
fn test_reserved_byte_decodes_stdo() {
    assert_eq!(OpCode::from(254), OpCode::STDO);
    assert_eq!(u8::from(OpCode::STDO), 254);
}
