use vm_translator::parser::{MathCommand, MemoryCommand, MemorySegment, TranslateError};
use vm_translator::writer::Writer;

#[test]
fn writes_output_with_newlines() {
    let mut writer = Writer::new("test_namespace");
    writer.writeln("@SP");
    writer.writeln("M=D");

    assert_eq!(writer.output, "@SP\nM=D\n");
}

#[test]
fn writer_writes_output_with_newlines() {
    let mut writer = Writer::new("");
    writer.writeln("@SP");
    writer.writeln("M=D");

    assert_eq!(writer.output, "@SP\nM=D\n");
}

#[test]
fn push_constant_block_text() {
    let mut w = Writer::new("Test");
    w.write_push_pop(MemoryCommand::Push, MemorySegment::Constant, 7)
        .unwrap();
    assert_eq!(
        w.output,
        "// push constant 7\n@7\nD=A\n@SP\nA=M\nM=D\n@SP\nM=M+1\n"
    );
}

#[test]
fn pop_local_block_text() {
    let mut w = Writer::new("Test");
    w.write_push_pop(MemoryCommand::Pop, MemorySegment::Local, 0)
        .unwrap();
    assert_eq!(
        w.output,
        "// pop local 0\n@0\nD=A\n@LCL\nD=D+M\n@R13\nM=D\n@SP\nA=M-1\nD=M\n@R13\nA=M\nM=D\n@SP\nM=M-1\n"
    );
}

#[test]
fn pop_to_constant_is_an_invalid_target() {
    let mut w = Writer::new("Test");
    let before = w.output.clone();
    match w.write_push_pop(MemoryCommand::Pop, MemorySegment::Constant, 3) {
        Err(TranslateError::InvalidTarget(_)) => {}
        _ => panic!("popping the constant segment must fail"),
    }
    assert_eq!(w.output, before);
}

#[test]
fn comparison_labels_carry_the_counter() {
    let mut w = Writer::new("Test");
    w.write_math(MathCommand::EqualTo);
    w.write_math(MathCommand::EqualTo);
    let out = w.output;
    assert!(out.contains("@EQ.0\n"));
    assert!(out.contains("(EQ.0)\n"));
    assert!(out.contains("@NEQ.0\n"));
    assert!(out.contains("(END.0)\n"));
    assert!(out.contains("@EQ.1\n"));
    assert!(out.contains("(EQ.1)\n"));
    assert!(out.contains("@NEQ.1\n"));
    assert!(out.contains("(END.1)\n"));
}

#[test]
fn comparison_kinds_use_their_own_prefixes() {
    let mut w = Writer::new("Test");
    w.write_math(MathCommand::GreaterThan);
    w.write_math(MathCommand::LessThan);
    assert!(w.output.contains("@GT.0\n"));
    assert!(w.output.contains("@NGT.0\n"));
    assert!(w.output.contains("D;JGT\n"));
    assert!(w.output.contains("@LT.1\n"));
    assert!(w.output.contains("@NLT.1\n"));
    assert!(w.output.contains("D;JLT\n"));
}

#[test]
fn call_labels_stay_unique_for_one_callee() {
    let mut w = Writer::new("Main");
    w.write_call("Foo", 2);
    w.write_call("Foo", 2);
    assert!(w.output.contains("@AFTER_Foo_Main.1\n"));
    assert!(w.output.contains("(AFTER_Foo_Main.1)\n"));
    assert!(w.output.contains("@AFTER_Foo_Main.2\n"));
    assert!(w.output.contains("(AFTER_Foo_Main.2)\n"));
}

#[test]
fn call_rebases_argument_and_local() {
    let mut w = Writer::new("Main");
    w.write_call("Foo", 2);
    // ARG = SP - numArgs - 5, then LCL = SP
    assert!(w.output.contains("@2\nD=D-A\n@5\nD=D-A\n@ARG\nM=D\n"));
    assert!(w.output.contains("@SP\nD=M\n@LCL\nM=D\n"));
    assert!(w.output.contains("// goto Foo\n@Foo\n0;JMP\n"));
}

#[test]
fn function_declares_label_and_initializes_locals() {
    let mut w = Writer::new("Main");
    w.write_function("Foo", 2);
    assert!(w.output.starts_with("// function Foo 2\n(Foo)\n"));
    assert_eq!(w.output.matches("// init local\n").count(), 2);
    assert_eq!(w.current_function, "Foo");
}

#[test]
fn return_restores_the_caller_frame_in_order() {
    let mut w = Writer::new("Main");
    w.write_return();
    let that = w.output.find("@THAT\nM=D").unwrap();
    let this = w.output.find("@THIS\nM=D").unwrap();
    let arg = w.output.find("@ARG\nM=D").unwrap();
    let lcl = w.output.find("@LCL\nM=D").unwrap();
    assert!(that < this && this < arg && arg < lcl);
    assert!(w.output.ends_with("@R14\nA=M\n0;JMP\n"));
}

#[test]
fn bootstrap_sets_the_stack_base_first() {
    let mut w = Writer::new("Sys");
    w.write_init();
    assert!(w.output.starts_with("@256\nD=A\n@SP\nM=D\n"));
    assert!(w.output.contains("@AFTER_Sys.init_Sys.1\n"));
}

#[test]
fn static_symbols_carry_the_namespace() {
    let mut wa = Writer::new("A");
    wa.write_push_pop(MemoryCommand::Push, MemorySegment::Static, 3)
        .unwrap();
    let mut wb = Writer::new("B");
    wb.write_push_pop(MemoryCommand::Push, MemorySegment::Static, 3)
        .unwrap();
    assert!(wa.output.contains("@A.3\n"));
    assert!(wb.output.contains("@B.3\n"));
    assert!(!wa.output.contains("@B.3\n"));
}

#[test]
fn unary_operators_leave_two_instructions_per_cell() {
    let mut w = Writer::new("Test");
    w.write_math(MathCommand::Negate);
    assert_eq!(w.output, "// negate\n@SP\nA=M-1\nD=-M\n@SP\nA=M-1\nM=D\n");
    let mut w2 = Writer::new("Test");
    w2.write_math(MathCommand::Not);
    assert_eq!(w2.output, "// logical not\n@SP\nA=M-1\nD=!M\n@SP\nA=M-1\nM=D\n");
}

#[test]
fn branch_blocks_pop_before_testing() {
    let mut w = Writer::new("Test");
    w.write_if("Foo$loop");
    assert_eq!(
        w.output,
        "// if-goto Foo$loop\n@SP\nA=M-1\nD=M\n@SP\nM=M-1\n@Foo$loop\nD;JNE\n"
    );
    let mut w2 = Writer::new("Test");
    w2.write_goto("Foo$loop");
    assert_eq!(w2.output, "// goto Foo$loop\n@Foo$loop\n0;JMP\n");
    let mut w3 = Writer::new("Test");
    w3.write_label("Foo$loop");
    assert_eq!(w3.output, "// label Foo$loop\n(Foo$loop)\n");
}
