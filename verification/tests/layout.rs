use hack_assembler::assemble;

const PROGRAM: [&str; 9] = [
    "@counter",
    "M=0",
    "(LOOP)",
    "@counter",
    "MD=M+1",
    "@10",
    "D=D-A",
    "@LOOP",
    "D;JLT",
];

fn plain() -> Vec<u16> {
    assemble(&PROGRAM.join("\n")).unwrap()
}

#[test]
fn the_sample_program_assembles() {
    assert_eq!(
        plain(),
        vec![16, 0xEA88, 16, 0xFDD8, 10, 0xE4D0, 2, 0xE304]
    );
}

#[test]
fn a_comment_after_any_line_changes_nothing() {
    for at in 0..PROGRAM.len() {
        let mut lines: Vec<String> = PROGRAM.iter().map(|line| line.to_string()).collect();
        lines[at].push_str("// (NOT_A_LABEL) @99 ; = /");
        assert_eq!(assemble(&lines.join("\n")).unwrap(), plain());
    }
}

#[test]
fn a_comment_line_anywhere_changes_nothing() {
    for at in 0..=PROGRAM.len() {
        let mut lines: Vec<String> = PROGRAM.iter().map(|line| line.to_string()).collect();
        lines.insert(at, String::from("// D=Q;JXX"));
        assert_eq!(assemble(&lines.join("\n")).unwrap(), plain());
    }
}

#[test]
fn white_space_around_any_line_changes_nothing() {
    for at in 0..PROGRAM.len() {
        for (left, right) in [("  ", ""), ("", "\t "), ("\t", "\r"), ("\u{2003}", "\u{a0} ")] {
            let mut lines: Vec<String> = PROGRAM.iter().map(|line| line.to_string()).collect();
            lines[at] = format!("{}{}{}", left, PROGRAM[at], right);
            assert_eq!(assemble(&lines.join("\n")).unwrap(), plain());
        }
    }
}

#[test]
fn white_space_before_a_comment_changes_nothing() {
    for at in 0..PROGRAM.len() {
        let mut lines: Vec<String> = PROGRAM.iter().map(|line| line.to_string()).collect();
        lines[at] = format!("{}   \t// note", PROGRAM[at]);
        assert_eq!(assemble(&lines.join("\n")).unwrap(), plain());
    }
}

#[test]
fn an_empty_or_blank_line_anywhere_changes_nothing() {
    for at in 0..=PROGRAM.len() {
        for blank in ["", "   ", "\t", "\r"] {
            let mut lines: Vec<String> = PROGRAM.iter().map(|line| line.to_string()).collect();
            lines.insert(at, String::from(blank));
            assert_eq!(assemble(&lines.join("\n")).unwrap(), plain());
        }
    }
}

#[test]
fn a_line_break_at_the_end_changes_nothing() {
    let source = PROGRAM.join("\n");
    assert_eq!(assemble(&format!("{}\n", source)).unwrap(), plain());
    assert_eq!(assemble(&format!("{}\n\n\n", source)).unwrap(), plain());
    assert_eq!(assemble(&format!("\n\n{}", source)).unwrap(), plain());
}

#[test]
fn white_space_inside_a_line_does_change_it() {
    assert!(assemble("M D=M+1").is_ok());
    assert!(assemble("MD=M +1").is_err());
    assert!(assemble("D;J LT").is_err());
    assert_ne!(assemble("@coun ter\n@counter").unwrap(), assemble("@counter\n@counter").unwrap());
}
