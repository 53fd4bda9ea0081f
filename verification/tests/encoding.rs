use hack_assembler::encoder::{computation_code, destination_code, jump_code, read_operand, Operand};
use hack_assembler::{assemble, ErrorKind};

fn chars(text: &str) -> Vec<char> {
    text.chars().collect()
}

fn word(line: &str) -> u16 {
    let words = assemble(line).unwrap();
    assert_eq!(words.len(), 1);
    words[0]
}
#[test]
fn every_computation_has_its_code() {
    assert_eq!(computation_code(&chars("0")), Some(0b0101010));
    assert_eq!(computation_code(&chars("1")), Some(0b0111111));
    assert_eq!(computation_code(&chars("-1")), Some(0b0111010));
    assert_eq!(computation_code(&chars("D")), Some(0b0001100));
    assert_eq!(computation_code(&chars("A")), Some(0b0110000));
    assert_eq!(computation_code(&chars("!D")), Some(0b0001101));
    assert_eq!(computation_code(&chars("!A")), Some(0b0110001));
    assert_eq!(computation_code(&chars("-D")), Some(0b0001111));
    assert_eq!(computation_code(&chars("-A")), Some(0b0110011));
    assert_eq!(computation_code(&chars("D+1")), Some(0b0011111));
    assert_eq!(computation_code(&chars("A+1")), Some(0b0110111));
    assert_eq!(computation_code(&chars("D-1")), Some(0b0001110));
    assert_eq!(computation_code(&chars("A-1")), Some(0b0110010));
    assert_eq!(computation_code(&chars("D+A")), Some(0b0000010));
    assert_eq!(computation_code(&chars("D-A")), Some(0b0010011));
    assert_eq!(computation_code(&chars("A-D")), Some(0b0000111));
    assert_eq!(computation_code(&chars("D&A")), Some(0b0000000));
    assert_eq!(computation_code(&chars("D|A")), Some(0b0010101));
    assert_eq!(computation_code(&chars("M")), Some(0b1110000));
    assert_eq!(computation_code(&chars("!M")), Some(0b1110001));
    assert_eq!(computation_code(&chars("-M")), Some(0b1110011));
    assert_eq!(computation_code(&chars("M+1")), Some(0b1110111));
    assert_eq!(computation_code(&chars("M-1")), Some(0b1110010));
    assert_eq!(computation_code(&chars("D+M")), Some(0b1000010));
    assert_eq!(computation_code(&chars("D-M")), Some(0b1010011));
    assert_eq!(computation_code(&chars("M-D")), Some(0b1000111));
    assert_eq!(computation_code(&chars("D&M")), Some(0b1000000));
    assert_eq!(computation_code(&chars("D|M")), Some(0b1010101));
}

#[test]
fn every_computation_fills_its_field() {
    assert_eq!(word("0"), 0b111_0101010_000_000);
    assert_eq!(word("1"), 0b111_0111111_000_000);
    assert_eq!(word("-1"), 0b111_0111010_000_000);
    assert_eq!(word("D"), 0b111_0001100_000_000);
    assert_eq!(word("A"), 0b111_0110000_000_000);
    assert_eq!(word("!D"), 0b111_0001101_000_000);
    assert_eq!(word("!A"), 0b111_0110001_000_000);
    assert_eq!(word("-D"), 0b111_0001111_000_000);
    assert_eq!(word("-A"), 0b111_0110011_000_000);
    assert_eq!(word("D+1"), 0b111_0011111_000_000);
    assert_eq!(word("A+1"), 0b111_0110111_000_000);
    assert_eq!(word("D-1"), 0b111_0001110_000_000);
    assert_eq!(word("A-1"), 0b111_0110010_000_000);
    assert_eq!(word("D+A"), 0b111_0000010_000_000);
    assert_eq!(word("D-A"), 0b111_0010011_000_000);
    assert_eq!(word("A-D"), 0b111_0000111_000_000);
    assert_eq!(word("D&A"), 0b111_0000000_000_000);
    assert_eq!(word("D|A"), 0b111_0010101_000_000);
    assert_eq!(word("M"), 0b111_1110000_000_000);
    assert_eq!(word("!M"), 0b111_1110001_000_000);
    assert_eq!(word("-M"), 0b111_1110011_000_000);
    assert_eq!(word("M+1"), 0b111_1110111_000_000);
    assert_eq!(word("M-1"), 0b111_1110010_000_000);
    assert_eq!(word("D+M"), 0b111_1000010_000_000);
    assert_eq!(word("D-M"), 0b111_1010011_000_000);
    assert_eq!(word("M-D"), 0b111_1000111_000_000);
    assert_eq!(word("D&M"), 0b111_1000000_000_000);
    assert_eq!(word("D|M"), 0b111_1010101_000_000);
}

#[test]
fn computations_that_read_memory_set_the_a_bit() {
    assert_eq!(word("0") & 0b1_0000_0000_0000 != 0, false);
    assert_eq!(word("1") & 0b1_0000_0000_0000 != 0, false);
    assert_eq!(word("-1") & 0b1_0000_0000_0000 != 0, false);
    assert_eq!(word("D") & 0b1_0000_0000_0000 != 0, false);
    assert_eq!(word("A") & 0b1_0000_0000_0000 != 0, false);
    assert_eq!(word("!D") & 0b1_0000_0000_0000 != 0, false);
    assert_eq!(word("!A") & 0b1_0000_0000_0000 != 0, false);
    assert_eq!(word("-D") & 0b1_0000_0000_0000 != 0, false);
    assert_eq!(word("-A") & 0b1_0000_0000_0000 != 0, false);
    assert_eq!(word("D+1") & 0b1_0000_0000_0000 != 0, false);
    assert_eq!(word("A+1") & 0b1_0000_0000_0000 != 0, false);
    assert_eq!(word("D-1") & 0b1_0000_0000_0000 != 0, false);
    assert_eq!(word("A-1") & 0b1_0000_0000_0000 != 0, false);
    assert_eq!(word("D+A") & 0b1_0000_0000_0000 != 0, false);
    assert_eq!(word("D-A") & 0b1_0000_0000_0000 != 0, false);
    assert_eq!(word("A-D") & 0b1_0000_0000_0000 != 0, false);
    assert_eq!(word("D&A") & 0b1_0000_0000_0000 != 0, false);
    assert_eq!(word("D|A") & 0b1_0000_0000_0000 != 0, false);
    assert_eq!(word("M") & 0b1_0000_0000_0000 != 0, true);
    assert_eq!(word("!M") & 0b1_0000_0000_0000 != 0, true);
    assert_eq!(word("-M") & 0b1_0000_0000_0000 != 0, true);
    assert_eq!(word("M+1") & 0b1_0000_0000_0000 != 0, true);
    assert_eq!(word("M-1") & 0b1_0000_0000_0000 != 0, true);
    assert_eq!(word("D+M") & 0b1_0000_0000_0000 != 0, true);
    assert_eq!(word("D-M") & 0b1_0000_0000_0000 != 0, true);
    assert_eq!(word("M-D") & 0b1_0000_0000_0000 != 0, true);
    assert_eq!(word("D&M") & 0b1_0000_0000_0000 != 0, true);
    assert_eq!(word("D|M") & 0b1_0000_0000_0000 != 0, true);
}

#[test]
fn every_jump_has_its_code() {
    assert_eq!(jump_code(&chars("null")), Some(0b000));
    assert_eq!(word("0;null"), 0b111_0101010_000_000);
    assert_eq!(jump_code(&chars("JGT")), Some(0b001));
    assert_eq!(word("0;JGT"), 0b111_0101010_000_001);
    assert_eq!(jump_code(&chars("JEQ")), Some(0b010));
    assert_eq!(word("0;JEQ"), 0b111_0101010_000_010);
    assert_eq!(jump_code(&chars("JGE")), Some(0b011));
    assert_eq!(word("0;JGE"), 0b111_0101010_000_011);
    assert_eq!(jump_code(&chars("JLT")), Some(0b100));
    assert_eq!(word("0;JLT"), 0b111_0101010_000_100);
    assert_eq!(jump_code(&chars("JNE")), Some(0b101));
    assert_eq!(word("0;JNE"), 0b111_0101010_000_101);
    assert_eq!(jump_code(&chars("JLE")), Some(0b110));
    assert_eq!(word("0;JLE"), 0b111_0101010_000_110);
    assert_eq!(jump_code(&chars("JMP")), Some(0b111));
    assert_eq!(word("0;JMP"), 0b111_0101010_000_111);
}

#[test]
fn every_set_of_destinations_has_its_bits() {
    assert_eq!(destination_code(&chars("")), 0);
    assert_eq!(destination_code(&chars("M")), 1);
    assert_eq!(destination_code(&chars("D")), 2);
    assert_eq!(destination_code(&chars("MD")), 3);
    assert_eq!(destination_code(&chars("A")), 4);
    assert_eq!(destination_code(&chars("AM")), 5);
    assert_eq!(destination_code(&chars("AD")), 6);
    assert_eq!(destination_code(&chars("AMD")), 7);
    assert_eq!(destination_code(&chars("DMA")), 7);
    assert_eq!(destination_code(&chars("MMM")), 1);
    assert_eq!(destination_code(&chars("xDy")), 2);
    assert_eq!(word("=D+1"), 0b111_0011111_000_000);
    assert_eq!(word("M=D+1"), 0b111_0011111_001_000);
    assert_eq!(word("D=D+1"), 0b111_0011111_010_000);
    assert_eq!(word("MD=D+1"), 0b111_0011111_011_000);
    assert_eq!(word("A=D+1"), 0b111_0011111_100_000);
    assert_eq!(word("AM=D+1"), 0b111_0011111_101_000);
    assert_eq!(word("AD=D+1"), 0b111_0011111_110_000);
    assert_eq!(word("AMD=D+1"), 0b111_0011111_111_000);
}

#[test]
fn c_type_with_destination_computation_and_jump() {
    assert_eq!(word("D=D+A;JGT"), 0b1110000010010001);
    assert_eq!(word("AMD=M-1;JMP"), 0b111_1110010_111_111);
    assert_eq!(word("0;JMP"), 0b111_0101010_000_111);
    assert_eq!(word("M=D"), 0b111_0001100_001_000);
}

#[test]
fn unknown_names_are_not_in_the_tables() {
    assert_eq!(computation_code(&chars("")), None);
    assert_eq!(computation_code(&chars("D+D")), None);
    assert_eq!(computation_code(&chars("A+D")), None);
    assert_eq!(computation_code(&chars("M+D")), None);
    assert_eq!(computation_code(&chars("1+D")), None);
    assert_eq!(computation_code(&chars("d")), None);
    assert_eq!(computation_code(&chars("D ")), None);
    assert_eq!(computation_code(&chars("D+1 ")), None);
    assert_eq!(jump_code(&chars("")), None);
    assert_eq!(jump_code(&chars("jmp")), None);
    assert_eq!(jump_code(&chars("JMPP")), None);
    assert_eq!(jump_code(&chars("NULL")), None);
}

#[test]
fn unknown_jump_is_an_error() {
    let error = assemble("D;JXX").unwrap_err();
    assert_eq!(error.kind, ErrorKind::InvalidJump);
    assert_eq!(error.token, "JXX");
    let error = assemble("D;").unwrap_err();
    assert_eq!(error.kind, ErrorKind::InvalidJump);
    assert_eq!(error.token, "");
    let error = assemble("D; JMP").unwrap_err();
    assert_eq!(error.kind, ErrorKind::InvalidJump);
    assert_eq!(error.token, " JMP");
}

#[test]
fn unknown_computation_is_an_error() {
    let error = assemble("D=D+D").unwrap_err();
    assert_eq!(error.kind, ErrorKind::InvalidComputation);
    assert_eq!(error.token, "D+D");
    let error = assemble("D = A").unwrap_err();
    assert_eq!(error.kind, ErrorKind::InvalidComputation);
    assert_eq!(error.token, " A");
    let error = assemble("M=").unwrap_err();
    assert_eq!(error.kind, ErrorKind::InvalidComputation);
    assert_eq!(error.token, "");
    let error = assemble("hello").unwrap_err();
    assert_eq!(error.kind, ErrorKind::InvalidComputation);
    assert_eq!(error.token, "hello");
}

#[test]
fn the_jump_is_looked_at_before_the_computation() {
    let error = assemble("D=bad;worse").unwrap_err();
    assert_eq!(error.kind, ErrorKind::InvalidJump);
    assert_eq!(error.token, "worse");
}

#[test]
fn the_first_equals_sign_and_the_first_semicolon_split_the_line() {
    // The destination is all that stands before the first `=`.
    let error = assemble("D=M=A").unwrap_err();
    assert_eq!(error.kind, ErrorKind::InvalidComputation);
    assert_eq!(error.token, "M=A");
    // A `;` before the `=` belongs to the destination.
    assert_eq!(word("D;JGT=A"), 0b111_0110000_010_000);
    // The jump is all that stands after the first `;`.
    let error = assemble("D;JGT;JMP").unwrap_err();
    assert_eq!(error.kind, ErrorKind::InvalidJump);
    assert_eq!(error.token, "JGT;JMP");
}

#[test]
fn a_destination_may_be_empty_or_hold_other_letters() {
    assert_eq!(word("=D"), 0b111_0001100_000_000);
    assert_eq!(word("XYZ=D"), 0b111_0001100_000_000);
    assert_eq!(word("MAD=D"), 0b111_0001100_111_000);
}

#[test]
fn operand_numerals_are_read_in_base_ten() {
    assert_eq!(read_operand(&chars("0")), Operand::Address(0));
    assert_eq!(read_operand(&chars("5")), Operand::Address(5));
    assert_eq!(read_operand(&chars("007")), Operand::Address(7));
    assert_eq!(read_operand(&chars("+12")), Operand::Address(12));
    assert_eq!(read_operand(&chars("12345")), Operand::Address(12345));
    assert_eq!(read_operand(&chars("32767")), Operand::Address(32767));
    assert_eq!(read_operand(&chars("0000032767")), Operand::Address(32767));
}

#[test]
fn operand_numerals_above_the_range_are_too_large() {
    assert_eq!(read_operand(&chars("32768")), Operand::TooLarge);
    assert_eq!(read_operand(&chars("+32768")), Operand::TooLarge);
    assert_eq!(read_operand(&chars("65536")), Operand::TooLarge);
    assert_eq!(read_operand(&chars("4294967296")), Operand::TooLarge);
    assert_eq!(read_operand(&chars("18446744073709551616")), Operand::TooLarge);
    assert_eq!(
        read_operand(&chars("99999999999999999999999999999999999999999999")),
        Operand::TooLarge
    );
}

#[test]
fn operands_that_are_no_numerals_are_names() {
    assert_eq!(read_operand(&chars("")), Operand::Symbol);
    assert_eq!(read_operand(&chars("+")), Operand::Symbol);
    assert_eq!(read_operand(&chars("-5")), Operand::Symbol);
    assert_eq!(read_operand(&chars("++5")), Operand::Symbol);
    assert_eq!(read_operand(&chars("5+")), Operand::Symbol);
    assert_eq!(read_operand(&chars("12a")), Operand::Symbol);
    assert_eq!(read_operand(&chars("a12")), Operand::Symbol);
    assert_eq!(read_operand(&chars("1 2")), Operand::Symbol);
    assert_eq!(read_operand(&chars("1_000")), Operand::Symbol);
    assert_eq!(read_operand(&chars("0x10")), Operand::Symbol);
    assert_eq!(read_operand(&chars("99999999999999999999x")), Operand::Symbol);
    assert_eq!(read_operand(&chars("\u{0663}")), Operand::Symbol);
    assert_eq!(read_operand(&chars("LOOP")), Operand::Symbol);
}
