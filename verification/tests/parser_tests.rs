use vm_translator::parser::{
    BranchingCommand, CommandType, FunctionCommand, MathCommand, MemoryCommand, MemorySegment,
    Parser, TranslateError,
};

#[test]
fn creates_a_new_parser() {
    let mut p = Parser::new("First line\nthis is the second line\nfin");
    assert_eq!(p.advance(), "First line");
    assert_eq!(p.advance(), "this is the second line");
    assert_eq!(p.advance(), "fin");
}

#[test]
fn checks_for_more_lines() {
    let mut p = Parser::new("First line\nthis is the second line\nfin");
    assert_eq!(p.has_more_commands(), true);
    p.advance();
    p.advance();
    p.advance();
    assert_eq!(p.has_more_commands(), false);
}

#[test]
fn advances_to_next_command() {
    let mut p = Parser::new("push constant 1\npush constant 2\nadd");
    assert_eq!(p.advance(), "push constant 1");
    assert_eq!(p.advance(), "push constant 2");
    assert_eq!(p.advance(), "add");
}

#[test]
fn parses_correct_command_type() {
    assert_eq!(
        Parser::command_type("add").unwrap(),
        CommandType::Math(MathCommand::Add)
    );

    assert_eq!(
        Parser::command_type("sub").unwrap(),
        CommandType::Math(MathCommand::Subtract)
    );

    assert_eq!(
        Parser::command_type("push").unwrap(),
        CommandType::Memory(MemoryCommand::Push)
    );
}

#[test]
fn gets_first_command_arg() {
    let first = Parser::first_arg("push local 1").unwrap();
    assert_eq!(first, "local");
}

#[test]
fn gets_second_command_arg() {
    let second = Parser::second_arg("push local 1").unwrap();
    assert_eq!(second, 1);
}

#[test]
fn classifies_every_mnemonic() {
    assert_eq!(
        Parser::command_type("neg").unwrap(),
        CommandType::Math(MathCommand::Negate)
    );
    assert_eq!(
        Parser::command_type("eq").unwrap(),
        CommandType::Math(MathCommand::EqualTo)
    );
    assert_eq!(
        Parser::command_type("gt").unwrap(),
        CommandType::Math(MathCommand::GreaterThan)
    );
    assert_eq!(
        Parser::command_type("lt").unwrap(),
        CommandType::Math(MathCommand::LessThan)
    );
    assert_eq!(
        Parser::command_type("and").unwrap(),
        CommandType::Math(MathCommand::And)
    );
    assert_eq!(
        Parser::command_type("or").unwrap(),
        CommandType::Math(MathCommand::Or)
    );
    assert_eq!(
        Parser::command_type("not").unwrap(),
        CommandType::Math(MathCommand::Not)
    );
    assert_eq!(
        Parser::command_type("pop").unwrap(),
        CommandType::Memory(MemoryCommand::Pop)
    );
    assert_eq!(
        Parser::command_type("label x").unwrap(),
        CommandType::Branching(BranchingCommand::Label)
    );
    assert_eq!(
        Parser::command_type("goto x").unwrap(),
        CommandType::Branching(BranchingCommand::Goto)
    );
    assert_eq!(
        Parser::command_type("if-goto x").unwrap(),
        CommandType::Branching(BranchingCommand::If)
    );
    assert_eq!(
        Parser::command_type("function f 2").unwrap(),
        CommandType::Function(FunctionCommand::Declare)
    );
    assert_eq!(
        Parser::command_type("call f 2").unwrap(),
        CommandType::Function(FunctionCommand::Call)
    );
    assert_eq!(
        Parser::command_type("return").unwrap(),
        CommandType::Function(FunctionCommand::Return)
    );
}

#[test]
fn rejects_unknown_mnemonic() {
    match Parser::command_type("frobnicate the stack") {
        Err(TranslateError::InvalidCommand(line)) => {
            assert_eq!(line, "frobnicate the stack");
        }
        _ => panic!("an unknown mnemonic must be an invalid command"),
    }
}

#[test]
fn maps_every_segment_name() {
    assert_eq!(Parser::segment_type("argument").unwrap(), MemorySegment::Argument);
    assert_eq!(Parser::segment_type("local").unwrap(), MemorySegment::Local);
    assert_eq!(Parser::segment_type("static").unwrap(), MemorySegment::Static);
    assert_eq!(Parser::segment_type("constant").unwrap(), MemorySegment::Constant);
    assert_eq!(Parser::segment_type("this").unwrap(), MemorySegment::This);
    assert_eq!(Parser::segment_type("that").unwrap(), MemorySegment::That);
    assert_eq!(Parser::segment_type("pointer").unwrap(), MemorySegment::Pointer);
    assert_eq!(Parser::segment_type("temp").unwrap(), MemorySegment::Temp);
}

#[test]
fn rejects_unknown_segment() {
    match Parser::segment_type("banana") {
        Err(TranslateError::InvalidSegment(seg)) => assert_eq!(seg, "banana"),
        _ => panic!("an unknown segment name must be invalid"),
    }
}

#[test]
fn rejects_missing_and_malformed_arguments() {
    assert!(matches!(
        Parser::first_arg("push"),
        Err(TranslateError::InvalidOperand(_))
    ));
    assert!(matches!(
        Parser::second_arg("push local"),
        Err(TranslateError::InvalidOperand(_))
    ));
    assert!(matches!(
        Parser::second_arg("push local x7"),
        Err(TranslateError::InvalidOperand(_))
    ));
    assert!(matches!(
        Parser::second_arg("push local 99999999999999999999999999"),
        Err(TranslateError::InvalidOperand(_))
    ));
}
