use vm_translator::asm_parser::{CommandType, Parser};
use vm_translator::code::{comp, contains_comp, dest, jump};
use vm_translator::symbol_table::SymbolTable;

#[test]
fn get_a_command() {
    match Parser::command_type("@255").unwrap() {
        CommandType::ACommand => assert!(true),
        _ => panic!(),
    }
}

#[test]
fn get_c_command() {
    match Parser::command_type("D=D+M;JGT").unwrap() {
        CommandType::CCommand => assert!(true),
        _ => panic!(),
    }
}

#[test]
fn get_l_command() {
    match Parser::command_type("(SYMBOL)").unwrap() {
        CommandType::LCommand => assert!(true),
        _ => panic!(),
    }
}

#[test]
fn resolve_labels() {
    let mut p = Parser::new();
    p.resolve_labels("(LOOP)").unwrap();

    assert!(p.symbol_table.contains("LOOP"));
    assert_eq!(p.symbol_table.get_addr("LOOP"), "0");
}

#[test]
fn resolve_multiple_labels() {
    let mut p = Parser::new();
    p.resolve_labels("(FIRST)\n@1234\nD=D+M;JGT\n(SECOND)\n@5678")
        .unwrap();

    assert!(p.symbol_table.contains("FIRST"));
    assert!(p.symbol_table.contains("SECOND"));
    assert_eq!(p.symbol_table.get_addr("FIRST"), "0");
    assert_eq!(p.symbol_table.get_addr("SECOND"), "2");
}

#[test]
fn creates_new_table() {
    let t = SymbolTable::new();
    let expected: &[(&str, &str)] = &[
        ("SP", "0"),
        ("LCL", "1"),
        ("ARG", "2"),
        ("THIS", "3"),
        ("THAT", "4"),
        ("R0", "0"),
        ("R1", "1"),
        ("R2", "2"),
        ("R3", "3"),
        ("R4", "4"),
        ("R5", "5"),
        ("R6", "6"),
        ("R7", "7"),
        ("R8", "8"),
        ("R9", "9"),
        ("R10", "10"),
        ("R11", "11"),
        ("R13", "13"),
        ("R14", "14"),
        ("R15", "15"),
        ("SCREEN", "16384"),
        ("KBD", "24567"),
    ];
    for (sym, val) in expected {
        assert!(t.contains(sym));
        assert_eq!(t.get_addr(sym), *val);
    }
    assert_eq!(t.entries.len(), expected.len());
}

#[test]
fn checks_if_val_exists() {
    let t = SymbolTable::new();
    assert_eq!(t.contains("R1"), true);
    assert_eq!(t.contains("Fooey"), false);
}

#[test]
fn adds_entry() {
    let mut t = SymbolTable::new();
    t.add_entry("test", "value");
    assert_eq!(t.contains("test"), true)
}

#[test]
fn gets_value_at_address() {
    let t = SymbolTable::new();
    assert_eq!(t.get_addr("SP"), "0");
}

#[test]
fn overwrites_an_existing_entry() {
    let mut t = SymbolTable::new();
    t.add_entry("x", "17");
    t.add_entry("x", "18");
    assert_eq!(t.get_addr("x"), "18");
}

#[test]
fn encodes_the_code_tables() {
    assert_eq!(dest("null"), Some("000"));
    assert_eq!(dest("MD"), Some("011"));
    assert_eq!(dest("XYZ"), None);
    assert_eq!(jump("JGT"), Some("001"));
    assert_eq!(jump("JMP"), Some("111"));
    assert_eq!(jump("JXX"), None);
    assert_eq!(comp("0"), Some("0101010"));
    assert_eq!(comp("D+M"), Some("1000010"));
    assert_eq!(comp("D?M"), None);
    assert!(contains_comp("D=D+M;JGT"));
    assert!(!contains_comp("xyz"));
}

#[test]
fn assembles_a_small_program() {
    let mut p = Parser::new();
    let out = p.parse("@2\nD=A\n@3\nD=D+A\n@0\nM=D").unwrap();
    assert_eq!(
        out,
        "0000000000000010\n1110110000010000\n0000000000000011\n1110000010010000\n0000000000000000\n1110001100001000\n"
    );
}

#[test]
fn assembles_labels_and_variables() {
    let mut p = Parser::new();
    let out = p
        .parse("@i\nM=M+1\n(LOOP)\n@LOOP\n0;JMP")
        .unwrap();
    // `i` is the first variable and gets address 16; LOOP resolves to
    // the address of the jump instruction.
    assert_eq!(
        out,
        "0000000000010000\n1111110111001000\n0000000000000010\n1110101010000111\n"
    );
}

#[test]
fn assembler_skips_comments_and_blank_lines() {
    let mut p = Parser::new();
    let out = p.parse("// a comment\n\n@1\n").unwrap();
    assert_eq!(out, "0000000000000001\n");
}

#[test]
fn assembler_rejects_nonsense() {
    let mut p = Parser::new();
    assert!(p.parse("qqq").is_err());
    let mut p2 = Parser::new();
    assert!(p2.parse("@99999").is_err());
}
