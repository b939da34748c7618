use fucker::ast::AstNode;
use fucker::fucker::Fucker;
use fucker::interpreter::Interpreter;
use fucker::runnable::Runnable;

/// The standard 106-character hello-world program.
const HELLO_WORLD: &str = "++++++++[>++++[>++>+++>+++>+<<<<-]>+>+>->>+[<]<-]>>.>---.+++++++..+++.>>.<-.<.+++.------.--------.>>+.>++.";

/// A ROT13 transformer that stops after exactly sixteen characters.
const ROT13_16CHAR: &str = "++++++++++++++++[>,+-[>>++++[>++++++++<-]<+<-[>+>+>-[>>>]<[[>+<-]>>+>]<<<<<-]]>>>[-]+>--[-[<->+++[-]]]<[++++++++++++<[>-[>+>>]>[+[<+>-]>+>>]<<<<<-]>>[<+>-]>[-[-<<[-]>>]<<[<<->>-]>>]<<[<<+>>-]]<[-]<.[-]<<-]";

#[test]
fn interpreter_run_hello_world() {
    let ast = AstNode::parse(HELLO_WORLD).unwrap();
    let mut fucker = Interpreter::new(&ast);

    fucker.run().unwrap();

    let output_string = String::from_utf8(fucker.output.clone()).unwrap();
    assert_eq!(output_string, "Hello World!\n");
}

#[test]
fn interpreter_run_rot13() {
    // This rot13 program terminates after 16 characters so we can test it.
    // Otherwise it would wait on input forever.
    let ast = AstNode::parse(ROT13_16CHAR).unwrap();
    let mut fucker = Interpreter::new(&ast);
    fucker.input = "Hello World! 123".as_bytes().to_vec();

    fucker.run().unwrap();

    let output_string = String::from_utf8(fucker.output.clone()).unwrap();
    assert_eq!(output_string, "Uryyb Jbeyq! 123");
}

#[test]
fn interpreter_test_multiply_add_to() {
    // Create a simple program that tests MultiplyAddTo
    // Set cell 0 to 5, then multiply by 3 and add to cell 2
    let mut nodes = Vec::new();
    nodes.push(AstNode::SetTo(5));
    nodes.push(AstNode::MultiplyAddTo(2, 3));

    let mut interpreter = Interpreter::new(&nodes);
    // Step through the program without resetting
    while interpreter.step().unwrap_or(false) {}

    // Cell 0 should be 0 (cleared after operation)
    assert_eq!(interpreter.memory[0], 0);
    // Cell 2 should be 15 (5 * 3)
    assert_eq!(interpreter.memory[2], 15);
}

#[test]
fn fucker_run_hello_world() {
    let ast = AstNode::parse(HELLO_WORLD).unwrap();
    let mut fucker = Fucker::new(&ast);

    fucker.run().unwrap();

    let output_string = String::from_utf8(fucker.output.clone()).unwrap();
    assert_eq!(output_string, "Hello World!\n");
}

#[test]
fn fucker_run_rot13() {
    // This rot13 program terminates after 16 characters so we can test it.
    // Otherwise it would wait on input forever.
    let ast = AstNode::parse(ROT13_16CHAR).unwrap();
    let mut fucker = Fucker::new(&ast);
    fucker.input = "Hello World! 123".as_bytes().to_vec();

    fucker.run().unwrap();

    let output_string = String::from_utf8(fucker.output.clone()).unwrap();
    assert_eq!(output_string, "Uryyb Jbeyq! 123");
}

#[test]
fn echo_copies_one_byte() {
    let ast = AstNode::parse(",.").unwrap();
    let mut vm = Interpreter::new(&ast);
    vm.input = vec![b'X'];

    vm.run().unwrap();

    assert_eq!(vm.output, vec![b'X']);
}

#[test]
fn cell_wraps_modulo_256() {
    // 256 increments reach zero again; the program prints the NUL byte.
    let mut source = String::new();
    for _ in 0..256 {
        source.push('+');
    }
    source.push('.');
    let ast = AstNode::parse(&source).unwrap();
    let mut vm = Interpreter::new(&ast);

    vm.run().unwrap();

    assert_eq!(vm.output, vec![0u8]);
}

#[test]
fn empty_input_reads_newlines_forever() {
    // Three reads past the end of input all deliver the newline byte.
    let ast = AstNode::parse(",.>,.>,.").unwrap();
    let mut vm = Interpreter::new(&ast);

    vm.run().unwrap();

    assert_eq!(vm.output, vec![10u8, 10, 10]);
}

#[test]
fn input_then_newlines_after_exhaustion() {
    let ast = AstNode::parse(",.>,.>,.").unwrap();
    let mut vm = Interpreter::new(&ast);
    vm.input = vec![b'A'];

    vm.run().unwrap();

    assert_eq!(vm.output, vec![b'A', 10, 10]);
}

#[test]
fn prev_below_zero_is_fatal() {
    let ast = AstNode::parse("<").unwrap();
    let mut vm = Interpreter::new(&ast);

    let result = vm.run();

    assert_eq!(result, Err(fucker::interpreter::VmError::PointerUnderflow));
}

#[test]
fn bulk_add_target_below_zero_is_fatal() {
    let mut nodes = Vec::new();
    nodes.push(AstNode::SetTo(1));
    nodes.push(AstNode::AddTo(vec![-1]));
    let mut vm = Interpreter::new(&nodes);

    let result = vm.run();

    assert_eq!(result, Err(fucker::interpreter::VmError::TargetBelowZero));
}

#[test]
fn tape_grows_past_initial_size() {
    // Move 30005 cells right, bump the cell, and bring the value back as
    // output to show growth happened transparently.
    let mut source = String::new();
    for _ in 0..30005 {
        source.push('>');
    }
    source.push('+');
    source.push('.');
    let ast = AstNode::parse(&source).unwrap();
    let mut vm = Interpreter::new(&ast);

    vm.run().unwrap();

    assert_eq!(vm.output, vec![1u8]);
}

#[test]
fn fucker_swallows_fatal_conditions() {
    let ast = AstNode::parse(".<.").unwrap();
    let mut vm = Fucker::new(&ast);

    // The underflow stops the machine; the run itself reports no error.
    vm.run().unwrap();

    assert_eq!(vm.output, vec![0u8]);
}

#[test]
fn program_parse_and_interpreter() {
    let program = fucker::program::Program::parse(HELLO_WORLD).unwrap();
    assert!(program.len() > 0);
    let mut vm = program.interpreter();

    vm.run().unwrap();

    let output_string = String::from_utf8(vm.output.clone()).unwrap();
    assert_eq!(output_string, "Hello World!\n");
}

#[test]
fn program_parse_rejects_unmatched_open() {
    let program = fucker::program::Program::parse("++[+");
    assert!(program.is_err());
}

#[test]
fn interpreter_and_fucker_agree() {
    // Two verified engines over the same dispatch semantics produce the
    // same output stream.
    let ast = AstNode::parse(HELLO_WORLD).unwrap();
    let mut a = Interpreter::new(&ast);
    let mut b = Fucker::new(&ast);

    a.run().unwrap();
    b.run().unwrap();

    assert_eq!(a.output, b.output);
}
