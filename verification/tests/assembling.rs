use hack_assembler::{assemble, render_listing, ErrorKind};

fn words(source: &str) -> Vec<u16> {
    assemble(source).unwrap()
}

#[test]
fn assembling_twice_gives_the_same_output() {
    let source = "// sum\n@i\nM=1\n(LOOP)\n@i\nD=M\n@100\nD=D-A\n@END\nD;JGT\n@LOOP\n0;JMP\n(END)\n";
    let first = assemble(source).unwrap();
    let second = assemble(source).unwrap();
    assert_eq!(first, second);
    assert_eq!(render_listing(&first), render_listing(&second));
    assert_eq!(render_listing(&first).into_bytes(), render_listing(&second).into_bytes());
    let bad = "@1\nD=Q\n";
    assert_eq!(assemble(bad).unwrap_err(), assemble(bad).unwrap_err());
}

#[test]
fn predefined_pointers_resolve_to_their_addresses() {
    assert_eq!(words("@SP\n@LCL\n@ARG\n@THIS\n@THAT\n"), vec![0, 1, 2, 3, 4]);
    assert_eq!(words("@SCREEN"), vec![16384]);
    assert_eq!(words("@KBD"), vec![24576]);
}

#[test]
fn predefined_registers_resolve_to_their_numbers() {
    for r in 0..16u16 {
        assert_eq!(words(&format!("@R{}", r)), vec![r]);
    }
}

#[test]
fn predefined_symbols_do_not_depend_on_the_order_of_use() {
    assert_eq!(words("@THAT\n@R15\n@SP\n@KBD\n@R0\n@SCREEN\n@LCL\n"), vec![4, 15, 0, 24576, 0, 16384, 1]);
    assert_eq!(words("@foo\n@KBD\n@bar\n@R7\n@SP\n@foo\n"), vec![16, 24576, 17, 7, 0, 16]);
}

#[test]
fn symbols_are_case_sensitive() {
    assert_eq!(words("@sp\n@SP\n@Sp\n@r0\n"), vec![16, 0, 17, 18]);
}

#[test]
fn register_aliases_end_at_fifteen() {
    assert_eq!(words("@R16\n@R00\n@R\n"), vec![16, 17, 18]);
}

#[test]
fn a_label_used_before_its_definition_resolves_to_the_label() {
    assert_eq!(words("@END\n0;JMP\n(END)\n@END\n0;JMP\n"), vec![2, 0b1110101010000111, 2, 0b1110101010000111]);
}

#[test]
fn a_forward_label_is_not_taken_for_a_variable() {
    // `x` is a variable and gets 16, although `LATER` is met first.
    assert_eq!(words("@LATER\n@x\n(LATER)\n@y\n"), vec![2, 16, 17]);
}

#[test]
fn a_label_gets_the_index_of_the_next_instruction() {
    assert_eq!(words("(START)\n@START\n"), vec![0]);
    assert_eq!(words("D=A\n(A)\n(B)\nD=A\n(C)\n@A\n@B\n@C\n"), vec![0xEC10, 0xEC10, 1, 1, 2]);
    // A label at the very end points behind the last instruction.
    assert_eq!(words("@LAST\n(LAST)"), vec![1]);
}

#[test]
fn a_label_defined_twice_with_two_addresses_is_an_error() {
    let error = assemble("(X)\nD=A\n(X)\n@X\n").unwrap_err();
    assert_eq!(error.kind, ErrorKind::SymbolRedefined);
    assert_eq!(error.token, "X");
    let error = assemble("@X\n(X)\n@X\n(X)\n").unwrap_err();
    assert_eq!(error.kind, ErrorKind::SymbolRedefined);
    assert_eq!(error.token, "X");
}

#[test]
fn a_label_repeated_with_the_same_address_is_accepted() {
    assert_eq!(words("D=A\n(X)\n(X)\n  (X) // again\n@X\n"), vec![0xEC10, 1]);
}

#[test]
fn a_label_may_not_redefine_a_predefined_symbol() {
    let error = assemble("D=A\n(SP)\n@SP\n").unwrap_err();
    assert_eq!(error.kind, ErrorKind::SymbolRedefined);
    assert_eq!(error.token, "SP");
    let error = assemble("(KBD)\n").unwrap_err();
    assert_eq!(error.kind, ErrorKind::SymbolRedefined);
    assert_eq!(error.token, "KBD");
    let error = assemble("@0\n@1\n@2\n(R15)\n").unwrap_err();
    assert_eq!(error.kind, ErrorKind::SymbolRedefined);
    assert_eq!(error.token, "R15");
}

#[test]
fn a_label_that_gives_a_predefined_symbol_its_own_address_is_accepted() {
    assert_eq!(words("(SP)\n@SP\n"), vec![0]);
    assert_eq!(words("@0\n@1\n@2\n(R3)\n(THIS)\n@R3\n@THIS\n"), vec![0, 1, 2, 3, 3]);
}

#[test]
fn variables_get_addresses_in_the_order_of_first_use() {
    assert_eq!(words("@foo\n@bar\n@foo\n"), vec![16, 17, 16]);
    assert_eq!(words("@a\n@b\n@c\n@b\n@a\n@d\n"), vec![16, 17, 18, 17, 16, 19]);
}

#[test]
fn comments_and_white_space_do_not_matter() {
    assert_eq!(render_listing(&words("@5 // comment")), "0000000000000101\n");
    assert_eq!(render_listing(&words("@5")), "0000000000000101\n");
    assert_eq!(render_listing(&words("\n\n  @5  \n\n")), "0000000000000101\n");
    assert_eq!(words("\t@5\r\n"), vec![5]);
    assert_eq!(words("@5//x"), vec![5]);
    assert_eq!(words("@5 // one // two\n"), vec![5]);
    assert_eq!(words("   D=A   // load\n"), vec![0xEC10]);
    assert_eq!(words("\u{3000}D=A\u{a0}\n"), vec![0xEC10]);
}

#[test]
fn white_space_inside_a_line_is_kept() {
    let error = assemble("D= A").unwrap_err();
    assert_eq!(error.kind, ErrorKind::InvalidComputation);
    assert_eq!(error.token, " A");
    // White space in the destination is only more text without `M`, `D` or `A`.
    assert_eq!(words("D =A"), vec![0xEC10]);
    assert_eq!(words("@ 5"), vec![16]);
    assert_eq!(words("@a b\n@a b\n@a  b\n"), vec![16, 16, 17]);
}

#[test]
fn the_largest_address_is_accepted() {
    assert_eq!(words("@32767"), vec![0x7FFF]);
    assert_eq!(render_listing(&words("@32767")), "0111111111111111\n");
    assert_eq!(words("@0"), vec![0]);
    assert_eq!(words("@+17\n@017\n"), vec![17, 17]);
}

#[test]
fn an_address_above_the_range_stops_the_assembler() {
    let error = assemble("@32768").unwrap_err();
    assert_eq!(error.kind, ErrorKind::AddressOutOfRange);
    assert_eq!(error.token, "32768");
    let error = assemble("@1\n@65536\n@2\n").unwrap_err();
    assert_eq!(error.kind, ErrorKind::AddressOutOfRange);
    assert_eq!(error.token, "65536");
    let error = assemble("@340282366920938463463374607431768211456").unwrap_err();
    assert_eq!(error.kind, ErrorKind::AddressOutOfRange);
    assert_eq!(error.token, "340282366920938463463374607431768211456");
}

#[test]
fn the_first_failure_is_the_one_reported() {
    let error = assemble("@1\nD=Q\n@99999\nD;JXX\n").unwrap_err();
    assert_eq!(error.kind, ErrorKind::InvalidComputation);
    assert_eq!(error.token, "Q");
    // A failure in the last line, which no line break ends, is found too.
    let error = assemble("@1\nD=A\nD;JXX").unwrap_err();
    assert_eq!(error.kind, ErrorKind::InvalidJump);
    assert_eq!(error.token, "JXX");
}

#[test]
fn an_empty_source_gives_no_words() {
    assert_eq!(words(""), Vec::<u16>::new());
    assert_eq!(render_listing(&words("")), "");
}

#[test]
fn blank_lines_and_comments_give_no_words() {
    assert_eq!(words("\n\n\n"), Vec::<u16>::new());
    assert_eq!(words("// only a comment"), Vec::<u16>::new());
    assert_eq!(words("   \n\t\n// a\n   // b\n\n//\n"), Vec::<u16>::new());
    assert_eq!(words("\r\n  \r\n// c\r\n"), Vec::<u16>::new());
    assert_eq!(render_listing(&words("// x\n\n   \n// y")), "");
}

#[test]
fn labels_alone_give_no_words() {
    assert_eq!(words("(A)\n(B)\n  (C)  // c\n"), Vec::<u16>::new());
}

#[test]
fn a_program_that_adds_two_numbers() {
    let source = "// Computes R0 = 2 + 3\n\n@2\nD=A\n@3\nD=D+A\n@0\nM=D\n";
    let expected = "0000000000000010\n1110110000010000\n0000000000000011\n1110000010010000\n0000000000000000\n1110001100001000\n";
    assert_eq!(render_listing(&words(source)), expected);
}

#[test]
fn a_program_with_labels_and_variables() {
    let source = "\
// Computes R2 = max(R0, R1)
   @R0
   D=M              // D = first number
   @R1
   D=D-M            // D = first number - second number
   @OUTPUT_FIRST
   D;JGT            // if D>0 (first is greater) goto output_first
   @R1
   D=M              // D = second number
   @OUTPUT_D
   0;JMP            // goto output_d
(OUTPUT_FIRST)
   @R0
   D=M              // D = first number
(OUTPUT_D)
   @R2
   M=D              // M[2] = D (greatest number)
(INFINITE_LOOP)
   @INFINITE_LOOP
   0;JMP            // infinite loop
";
    let expected = "\
0000000000000000
1111110000010000
0000000000000001
1111010011010000
0000000000001010
1110001100000001
0000000000000001
1111110000010000
0000000000001100
1110101010000111
0000000000000000
1111110000010000
0000000000000010
1110001100001000
0000000000001110
1110101010000111
";
    assert_eq!(render_listing(&words(source)), expected);
}

#[test]
fn windows_line_ends_are_trimmed_away() {
    assert_eq!(words("@1\r\nD=A\r\n(L)\r\n@L\r\n"), vec![1, 0xEC10, 2]);
}

#[test]
fn the_name_of_a_label_is_what_stands_between_its_parentheses() {
    assert_eq!(words("D=A\n(LOOP)\n@LOOP\n"), vec![0xEC10, 1]);
    assert_eq!(words("D=A\n(A)B)\n@A)B\n"), vec![0xEC10, 1]);
    // White space inside the parentheses belongs to the name.
    assert_eq!(words("D=A\n( x)\n@ x\n@x\n"), vec![0xEC10, 1, 16]);
    assert_eq!(words("D=A\n(\u{e9}\u{20ac})\n@\u{e9}\u{20ac}\n"), vec![0xEC10, 1]);
    // `()` binds the empty name, which `@` alone refers to.
    assert_eq!(words("D=A\n()\n@\n"), vec![0xEC10, 1]);
}

#[test]
fn a_label_that_is_not_closed_is_an_error() {
    for line in ["(LOOP", "(LOOP]", "(LOOP)x", "(LOOP) x", "(\u{20ac}", "((", "(LOOP);JMP"] {
        let error = assemble(&format!("D=A\n{}\n@LOOP\n", line)).unwrap_err();
        assert_eq!(error.kind, ErrorKind::MalformedLabel);
        assert_eq!(error.token, line);
    }
}

#[test]
fn a_lone_opening_parenthesis_is_an_error() {
    let error = assemble("D=A\n  (  \n").unwrap_err();
    assert_eq!(error.kind, ErrorKind::MalformedLabel);
    assert_eq!(error.token, "(");
}

#[test]
fn an_at_sign_alone_names_the_empty_symbol() {
    assert_eq!(words("@\n@x\n@\n"), vec![16, 17, 16]);
}

#[test]
fn a_label_beyond_sixteen_bits_wraps_around() {
    let mut source = String::new();
    for _ in 0..65536 + 3 {
        source.push_str("0;JMP\n");
    }
    source.push_str("(FAR)\n@FAR\n");
    let words = words(&source);
    assert_eq!(words.len(), 65536 + 4);
    assert_eq!(words[65536 + 3], 3);
}

#[test]
fn a_label_at_the_last_sixteen_bit_index_is_kept() {
    let mut source = String::new();
    for _ in 0..65535 {
        source.push_str("0;JMP\n");
    }
    source.push_str("(FAR)\n@FAR\n");
    let words = words(&source);
    assert_eq!(words[65535], 65535);
}

#[test]
fn the_variables_run_out_before_the_last_address() {
    // Addresses 16 to 65534 can be given out: 65519 variables.
    let mut source = String::new();
    for i in 0..65519 {
        source.push_str(&format!("@v{}\n", i));
    }
    let words = words(&source);
    assert_eq!(words.len(), 65519);
    assert_eq!(words[0], 16);
    assert_eq!(words[65518], 65534);
    // Using them again allocates nothing.
    source.push_str("@v0\n@v65518\n");
    assert_eq!(assemble(&source).unwrap().len(), 65521);
    // One more variable is one too many.
    source.push_str("@straw\n");
    let error = assemble(&source).unwrap_err();
    assert_eq!(error.kind, ErrorKind::OutOfVariables);
    assert_eq!(error.token, "straw");
}
