use chip8::assembly::{check_source, compile, instruction_token, parse_u16, CompileError};

#[test]
fn jump_assembles_to_1nnn() {
    let image = compile(b"JUMP 600\n");
    assert_eq!(image.len(), 4096);
    assert_eq!(image[512], 0x12);
    assert_eq!(image[513], 0x58);
    assert!(image[..512].iter().all(|b| *b == 0));
    assert!(image[514..].iter().all(|b| *b == 0));
}

#[test]
fn lines_are_assembled_in_order_and_blank_lines_skipped() {
    let image = compile(b"JUMP 1\r\n\nJUMP\t 4095\nJUMP +2 extra\nJUMP 3\r");
    assert_eq!(&image[512..520], &[0x10, 0x01, 0x1F, 0xFF, 0x10, 0x02, 0x10, 0x03]);
    assert_eq!(image[520], 0);
}

#[test]
fn high_address_sets_bits_in_operation_nibble() {
    // 4096 = 0x1000: the high byte 0x10 is or-ed with 0x10
    assert_eq!(&compile(b"JUMP 4096")[512..514], &[0x10, 0x00]);
    assert_eq!(&compile(b"JUMP 65535")[512..514], &[0xFF, 0xFF]);
}

#[test]
fn empty_source_gives_blank_image() {
    let image = compile(b"");
    assert!(image.iter().all(|b| *b == 0));
    let image = compile(b"\n\n");
    assert!(image.iter().all(|b| *b == 0));
}

#[test]
fn compile_errors() {
    assert_eq!(check_source(b"JMP 1"), Some(CompileError::UnknownInstruction));
    // a line that starts with whitespace has an empty mnemonic
    assert_eq!(check_source(b" JUMP 1"), Some(CompileError::UnknownInstruction));
    assert_eq!(check_source(b"JUMP\\s+1"), Some(CompileError::UnknownInstruction));
    assert_eq!(check_source(b"JUMP"), Some(CompileError::MissingOperand));
    assert_eq!(check_source(b"JUMP abc"), Some(CompileError::InvalidNumber));
    assert_eq!(check_source(b"JUMP "), Some(CompileError::InvalidNumber));
    assert_eq!(check_source(b"JUMP 65536"), Some(CompileError::InvalidNumber));
    // the first error, line by line, wins
    assert_eq!(check_source(b"JUMP 1\nFOO\nJUMP"), Some(CompileError::UnknownInstruction));
}

#[test]
fn program_too_large() {
    let mut fits = Vec::new();
    for _ in 0..1792 {
        fits.extend_from_slice(b"JUMP 7\n");
    }
    let image = compile(&fits);
    assert_eq!(image[4094], 0x10);
    assert_eq!(image[4095], 0x07);
    let mut too_many = fits.clone();
    too_many.extend_from_slice(b"JUMP 7\n");
    assert_eq!(check_source(&too_many), Some(CompileError::ProgramTooLarge));
    let mut bad_last = fits.clone();
    bad_last.extend_from_slice(b"JUMP\n");
    assert_eq!(check_source(&bad_last), Some(CompileError::MissingOperand));
}

#[test]
fn parse_u16_cases() {
    assert_eq!(parse_u16(b"0"), Some(0));
    assert_eq!(parse_u16(b"0042"), Some(42));
    assert_eq!(parse_u16(b"+7"), Some(7));
    assert_eq!(parse_u16(b"65535"), Some(65535));
    assert_eq!(parse_u16(b"65536"), None);
    assert_eq!(parse_u16(b"999999999999"), None);
    assert_eq!(parse_u16(b""), None);
    assert_eq!(parse_u16(b"+"), None);
    assert_eq!(parse_u16(b"-1"), None);
    assert_eq!(parse_u16(b"++1"), None);
    assert_eq!(parse_u16(b"1 "), None);
    for n in [0u16, 1, 9, 10, 255, 256, 4095, 12345, 65535] {
        assert_eq!(parse_u16(n.to_string().as_bytes()), n.to_string().parse::<u16>().ok());
    }
}

#[test]
fn only_jump_is_known() {
    assert_eq!(instruction_token(b"JUMP").map(|t| t.follow_tokens), Some(1));
    assert!(instruction_token(b"jump").is_none());
    assert!(instruction_token(b"JUMPS").is_none());
}
