use vm_translator::parser::TranslateError;
use vm_translator::translate::parse;

#[test]
fn translates_a_single_command() {
    let out = parse("push constant 7", "Test").unwrap();
    assert_eq!(
        out,
        "// push constant 7\n@7\nD=A\n@SP\nA=M\nM=D\n@SP\nM=M+1\n"
    );
}

#[test]
fn skips_comments_and_blank_lines() {
    let out = parse("// a comment\n\n   \nadd", "Test").unwrap();
    assert!(out.starts_with("// add\n@SP\n"));
}

#[test]
fn scopes_branch_labels_by_function() {
    let out = parse(
        "function Foo 0\nlabel loop\ngoto loop\nif-goto loop",
        "Test",
    )
    .unwrap();
    assert!(out.contains("(Foo$loop)\n"));
    assert!(out.contains("// goto Foo$loop\n@Foo$loop\n0;JMP\n"));
    assert!(out.contains("@Foo$loop\nD;JNE\n"));
}

#[test]
fn identical_labels_in_two_functions_stay_distinct() {
    let out = parse(
        "function Foo 0\nlabel top\nfunction Bar 0\nlabel top",
        "Test",
    )
    .unwrap();
    assert!(out.contains("(Foo$top)\n"));
    assert!(out.contains("(Bar$top)\n"));
}

#[test]
fn labels_outside_functions_stay_bare() {
    let out = parse("label start\ngoto start", "Test").unwrap();
    assert!(out.contains("(start)\n"));
    assert!(out.contains("@start\n0;JMP\n"));
}

#[test]
fn counters_persist_across_commands() {
    let out = parse("eq\ngt\neq", "Test").unwrap();
    assert!(out.contains("@EQ.0\n"));
    assert!(out.contains("@GT.1\n"));
    assert!(out.contains("@EQ.2\n"));
    assert!(!out.contains("@EQ.1\n"));
}

#[test]
fn reports_invalid_command() {
    match parse("add\nwaffles 1 2", "Test") {
        Err(TranslateError::InvalidCommand(line)) => assert_eq!(line, "waffles 1 2"),
        _ => panic!("an unknown mnemonic must abort the run"),
    }
}

#[test]
fn reports_invalid_segment() {
    match parse("push banana 3", "Test") {
        Err(TranslateError::InvalidSegment(line)) => assert_eq!(line, "push banana 3"),
        _ => panic!("an unknown segment must abort the run"),
    }
}

#[test]
fn reports_invalid_operand() {
    match parse("push local", "Test") {
        Err(TranslateError::InvalidOperand(line)) => assert_eq!(line, "push local"),
        _ => panic!("a missing index must abort the run"),
    }
    match parse("push local seven", "Test") {
        Err(TranslateError::InvalidOperand(line)) => assert_eq!(line, "push local seven"),
        _ => panic!("a non-numeric index must abort the run"),
    }
    match parse("push constant 40000", "Test") {
        Err(TranslateError::InvalidOperand(line)) => assert_eq!(line, "push constant 40000"),
        _ => panic!("an index beyond the address range must abort the run"),
    }
}

#[test]
fn reports_invalid_target() {
    match parse("pop constant 2", "Test") {
        Err(TranslateError::InvalidTarget(line)) => assert_eq!(line, "pop constant 2"),
        _ => panic!("popping the constant segment must abort the run"),
    }
}

#[test]
fn a_failed_run_names_the_first_bad_line() {
    match parse("add\npop constant 1\nwaffles", "Test") {
        Err(TranslateError::InvalidTarget(line)) => assert_eq!(line, "pop constant 1"),
        _ => panic!("the first bad line decides the error"),
    }
}
