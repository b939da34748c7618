use fucker::ast::AstNode;

/// The standard 106-character hello-world program.
pub const HELLO_WORLD: &str = "++++++++[>++++[>++>+++>+++>+<<<<-]>+>+>->>+[<]<-]>>.>---.+++++++..+++.>>.<-.<.+++.------.--------.>>+.>++.";

/// A ROT13 transformer that stops after exactly sixteen characters, so it
/// can be tested without waiting on input forever.
pub const ROT13_16CHAR: &str = "++++++++++++++++[>,+-[>>++++[>++++++++<-]<+<-[>+>+>-[>>>]<[[>+<-]>>+>]<<<<<-]]>>>[-]+>--[-[<->+++[-]]]<[++++++++++++<[>-[>+>>]>[+[<+>-]>+>>]<<<<<-]>>[<+>-]>[-[-<<[-]>>]<<[<<->>-]>>]<<[<<+>>-]]<[-]<.[-]<<-]";

#[test]
fn too_many_loop_begins() {
    let ast = AstNode::parse("[[]");
    assert!(ast.is_err());
}

#[test]
fn too_many_loop_ends() {
    let ast = AstNode::parse("[]]");
    assert!(ast.is_err());
}

#[test]
fn run_length_encode() {
    let ast = AstNode::parse("+++++").unwrap();
    assert_eq!(ast.len(), 1);
    assert_eq!(ast[0], AstNode::Incr(5));
}

#[test]
fn simplify_to_set() {
    let ast = AstNode::parse("+[-]+++").unwrap();
    assert_eq!(ast.len(), 2);
    assert_eq!(ast[0], AstNode::Incr(1));
    assert_eq!(ast[1], AstNode::SetTo(3));
}

#[test]
fn simplify_to_add() {
    let ast = AstNode::parse("+[->+<]").unwrap();
    assert_eq!(ast.len(), 2);
    assert_eq!(ast[0], AstNode::Incr(1));
    assert_eq!(ast[1], AstNode::AddTo(vec![1]));
}

#[test]
fn simplify_to_sub() {
    let ast = AstNode::parse("+[->-<]").unwrap();
    assert_eq!(ast.len(), 2);
    assert_eq!(ast[0], AstNode::Incr(1));
    assert_eq!(ast[1], AstNode::SubFrom(vec![1]));
}

#[test]
fn removes_leading_loops() {
    let ast = AstNode::parse("[-]").unwrap();
    assert_eq!(ast.len(), 0);
}

#[test]
fn simplify_to_multiply() {
    let ast = AstNode::parse("+[->>+++<<]").unwrap();
    assert_eq!(ast.len(), 2);
    assert_eq!(ast[0], AstNode::Incr(1));
    assert_eq!(ast[1], AstNode::MultiplyAddTo(2, 3));
}

#[test]
fn simplify_to_copy() {
    let ast = AstNode::parse("+[->>+>+<<<]").unwrap();
    assert_eq!(ast.len(), 2);
    assert_eq!(ast[0], AstNode::Incr(1));
    assert_eq!(ast[1], AstNode::AddTo(vec![2, 3]));
}

#[test]
fn dead_code_elimination() {
    // Complete cancellation
    let ast = AstNode::parse("+-").unwrap();
    assert_eq!(ast.len(), 0);

    let ast = AstNode::parse("><").unwrap();
    assert_eq!(ast.len(), 0);

    // Partial cancellation
    let ast = AstNode::parse("+++--").unwrap();
    assert_eq!(ast.len(), 1);
    assert_eq!(ast[0], AstNode::Incr(1));

    let ast = AstNode::parse("++---").unwrap();
    assert_eq!(ast.len(), 1);
    assert_eq!(ast[0], AstNode::Decr(1));
}

#[test]
fn parses_rot13() {
    let ast = AstNode::parse(ROT13_16CHAR);
    assert!(ast.is_ok());
}

#[test]
fn parses_hello_world() {
    let ast = AstNode::parse(HELLO_WORLD);
    assert!(ast.is_ok());
}

#[test]
fn unmatched_close_reports_position() {
    let err = AstNode::parse("[]]").unwrap_err();
    assert!(matches!(err, fucker::ast::ParseError::UnmatchedClose { line: 1, col: 3 }));
}

#[test]
fn unmatched_open_reports_position() {
    let err = AstNode::parse("++[+").unwrap_err();
    assert!(matches!(err, fucker::ast::ParseError::UnmatchedOpen { .. }));
}

#[test]
fn dead_loop_after_bulk_operation_is_dropped() {
    // The cell is provably zero after a move loop; the next loop can never
    // run.
    let ast = AstNode::parse("+[->+<][.]").unwrap();
    assert_eq!(ast.len(), 2);
    assert_eq!(ast[1], AstNode::AddTo(vec![1]));
}

#[test]
fn set_folds_increments() {
    let ast = AstNode::parse("+[-]-").unwrap();
    assert_eq!(ast.len(), 2);
    assert_eq!(ast[1], AstNode::SetTo(255));
}

#[test]
fn comments_are_ignored() {
    let ast = AstNode::parse("a plus b equals two ++ and nothing else").unwrap();
    assert_eq!(ast.len(), 1);
    assert_eq!(ast[0], AstNode::Incr(2));
}
