use rustystack::assembler::AssemblerError;
use rustystack::ast::{ASTArg, ASTNode};
use rustystack::parser::ASTParser;
use rustystack::register::Register;

#[test]
fn numbers_in_each_base() {
    assert_eq!(ASTParser::parse_number("1234", 10).unwrap(), 1234);
    assert_eq!(ASTParser::parse_number("BEef", 16).unwrap(), 0xBEEF);
    assert_eq!(ASTParser::parse_number("777", 8).unwrap(), 0o777);
    assert_eq!(ASTParser::parse_number("1011", 2).unwrap(), 11);
    assert_eq!(ASTParser::parse_number("65535", 10).unwrap(), 65535);
}

#[test]
fn bad_numbers_are_parser_errors() {
    assert!(matches!(ASTParser::parse_number("65536", 10), Err(AssemblerError::Parser(_))));
    assert!(matches!(ASTParser::parse_number("12a", 10), Err(AssemblerError::Parser(_))));
    assert!(matches!(ASTParser::parse_number("8", 8), Err(AssemblerError::Parser(_))));
    assert!(matches!(ASTParser::parse_number("", 16), Err(AssemblerError::Parser(_))));
    assert!(matches!(ASTParser::parse_number("10000", 16), Err(AssemblerError::Parser(_))));
}

#[test]
fn label_definition_drops_colon() {
    assert_eq!(ASTParser::label("loop:"), ASTNode::Label("loop".to_string()));
    assert_eq!(ASTParser::label("end"), ASTNode::Label("end".to_string()));
}

#[test]
fn mnemonics_ignore_case() {
    let node = ASTParser::binary("MoV", ASTArg::Lit(1), ASTArg::Reg(Register::R1)).unwrap();
    assert_eq!(node, ASTNode::Mov(ASTArg::Lit(1), ASTArg::Reg(Register::R1)));
    let node = ASTParser::binary("jge", ASTArg::Label("x".to_string()), ASTArg::Lit(2)).unwrap();
    assert_eq!(node, ASTNode::Jge(ASTArg::Label("x".to_string()), ASTArg::Lit(2)));
    assert_eq!(ASTParser::unary("PSH", ASTArg::Lit(3)).unwrap(), ASTNode::Psh(ASTArg::Lit(3)));
    assert_eq!(ASTParser::unary("sys", ASTArg::Lit(0)).unwrap(), ASTNode::Sys(ASTArg::Lit(0)));
    assert_eq!(ASTParser::nullary("Hlt").unwrap(), ASTNode::Hlt);
    assert_eq!(ASTParser::nullary("ret").unwrap(), ASTNode::Ret);
}

#[test]
fn unknown_mnemonics_are_parser_errors() {
    assert!(matches!(ASTParser::binary("mov2", ASTArg::Lit(1), ASTArg::Lit(2)), Err(AssemblerError::Parser(_))));
    assert!(matches!(ASTParser::unary("mov", ASTArg::Lit(1)), Err(AssemblerError::Parser(_))));
    match ASTParser::nullary("halt") {
        Err(AssemblerError::Parser(msg)) => assert!(msg.ends_with("halt")),
        other => panic!("unexpected result: {:?}", other.err()),
    }
}
