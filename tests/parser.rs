use seax::ast::ExprNode::{Name, NumConst, SExpr};
use seax::ast::{BoolNode, CharNode, FloatNode, IntNode, NameNode, NumNode, SExprNode, UIntNode};
use seax::ast::ExprNode::{BoolConst, CharConst};
use seax::parser::{bool_const, character, chars_of, expr, name, number, parse};

fn at(src: &str) -> Vec<char> {
    chars_of(src)
}

#[test]
fn test_parse_ident() {
    assert_eq!(expr(&at("ident"), 0).unwrap(), (Name(NameNode { name: "ident".to_string() }), 5));
    assert_eq!(expr(&at("a"), 0).unwrap(), (Name(NameNode { name: "a".to_string() }), 1));
    assert_eq!(
        expr(&at("ident=With\\special!Chars"), 0).unwrap(),
        (Name(NameNode { name: "ident=With\\special!Chars".to_string() }), 24)
    );
}

#[test]
fn parser_test_basic_sexpr() {
    assert_eq!(
        expr(&at("(ident arg1 arg2)"), 0).unwrap(),
        (
            SExpr(SExprNode {
                operator: NameNode { name: "ident".to_string() },
                operands: vec![
                    Name(NameNode { name: "arg1".to_string() }),
                    Name(NameNode { name: "arg2".to_string() })
                ]
            }),
            17
        )
    );
}

#[test]
fn test_basic_ident() {
    assert_eq!(expr(&at("ident"), 0), Ok((Name(NameNode { name: "ident".to_string() }), 5)));
}

#[test]
fn tests_test_basic_sexpr() {
    assert_eq!(
        expr(&at("(ident arg1 arg2)"), 0),
        Ok((
            SExpr(SExprNode {
                operator: NameNode { name: "ident".to_string() },
                operands: vec![
                    Name(NameNode { name: "arg1".to_string() }),
                    Name(NameNode { name: "arg2".to_string() })
                ]
            }),
            17
        ))
    );
}

#[test]
fn test_parse_sint_pos() {
    assert_eq!(number(&at("1234"), 0), Ok((NumNode::IntConst(IntNode { value: 1234 }), 4)));
    assert_eq!(number(&at("#d1234"), 0), Ok((NumNode::IntConst(IntNode { value: 1234 }), 6)));
    assert_eq!(number(&at("#D1234"), 0), Ok((NumNode::IntConst(IntNode { value: 1234 }), 6)));
}

#[test]
fn test_parse_sint_neg() {
    assert_eq!(number(&at("-1234"), 0), Ok((NumNode::IntConst(IntNode { value: -1234 }), 5)));
}

#[test]
fn test_parse_sint_hex() {
    assert_eq!(number(&at("#x0ff"), 0), Ok((NumNode::IntConst(IntNode { value: 0x0ff }), 5)));
    assert_eq!(number(&at("#X0FF"), 0), Ok((NumNode::IntConst(IntNode { value: 0x0ff }), 5)));
}

#[test]
fn test_parse_uint() {
    assert_eq!(number(&at("1234u"), 0), Ok((NumNode::UIntConst(UIntNode { value: 1234 }), 5)));
    assert_eq!(number(&at("4321U"), 0), Ok((NumNode::UIntConst(UIntNode { value: 4321 }), 5)));
}

#[test]
fn test_parse_uint_hex() {
    assert_eq!(number(&at("#x0ffu"), 0), Ok((NumNode::UIntConst(UIntNode { value: 0x0ff }), 6)));
    assert_eq!(number(&at("#X0FFu"), 0), Ok((NumNode::UIntConst(UIntNode { value: 0x0ff }), 6)));
}

#[test]
fn test_parse_float() {
    assert_eq!(
        number(&at("1.0"), 0),
        Ok((NumNode::FloatConst(FloatNode { negative: false, whole: vec!['1'], fraction: vec!['0'] }), 3))
    );
}

#[test]
fn test_parse_bool() {
    assert_eq!(bool_const(&at("#t"), 0), Ok((BoolNode { value: true }, 2)));
    assert_eq!(bool_const(&at("#T"), 0), Ok((BoolNode { value: true }, 2)));
    assert_eq!(bool_const(&at("true"), 0), Ok((BoolNode { value: true }, 4)));
    assert_eq!(bool_const(&at("#f"), 0), Ok((BoolNode { value: false }, 2)));
    assert_eq!(bool_const(&at("#F"), 0), Ok((BoolNode { value: false }, 2)));
    assert_eq!(bool_const(&at("false"), 0), Ok((BoolNode { value: false }, 5)));
}

#[test]
fn parse_characters() {
    assert_eq!(character(&at("#\\a"), 0), Ok((CharNode { value: 'a' }, 3)));
    assert_eq!(character(&at("#\\tab"), 0), Ok((CharNode { value: '\t' }, 5)));
    assert_eq!(character(&at("#\\space"), 0), Ok((CharNode { value: ' ' }, 7)));
    assert_eq!(character(&at("#\\x1B"), 0), Ok((CharNode { value: '\u{1B}' }, 5)));
    assert_eq!(character(&at("#\\xyz"), 0), Ok((CharNode { value: 'x' }, 3)));
    assert!(character(&at("#\\xD800"), 0).is_err());
    assert!(character(&at("#a"), 0).is_err());
}

#[test]
fn parse_names() {
    assert_eq!(name(&at("nil? x"), 0), Ok((NameNode { name: "nil?".to_string() }, 4)));
    assert_eq!(name(&at("éte"), 0), Ok((NameNode { name: "éte".to_string() }, 3)));
    assert_eq!(name(&at("+ 1"), 0), Ok((NameNode { name: "+".to_string() }, 1)));
    assert!(name(&at("12abc"), 0).is_err());
    assert!(name(&at("+1"), 0).is_err());
}

#[test]
fn parse_number_edges() {
    assert_eq!(
        number(&at("-9223372036854775808"), 0),
        Ok((NumNode::IntConst(IntNode { value: i64::MIN }), 20))
    );
    assert!(number(&at("9223372036854775808"), 0).is_err());
    assert_eq!(
        number(&at("18446744073709551615u"), 0),
        Ok((NumNode::UIntConst(UIntNode { value: u64::MAX }), 21))
    );
    assert!(number(&at("12f"), 0).is_err());
}

#[test]
fn parse_number_expr() {
    assert_eq!(expr(&at("  42"), 0), Ok((NumConst(NumNode::IntConst(IntNode { value: 42 })), 4)));
}

#[test]
fn printed_atoms_read_back() {
    assert_eq!(parse("-42"), Ok(NumConst(NumNode::IntConst(IntNode { value: -42 }))));
    assert_eq!(parse("0"), Ok(NumConst(NumNode::IntConst(IntNode { value: 0 }))));
    assert_eq!(parse("7u"), Ok(NumConst(NumNode::UIntConst(UIntNode { value: 7 }))));
    assert_eq!(parse("#t"), Ok(BoolConst(BoolNode { value: true })));
    assert_eq!(parse("#f"), Ok(BoolConst(BoolNode { value: false })));
    assert_eq!(parse("#\\q"), Ok(CharConst(CharNode { value: 'q' })));
    assert_eq!(parse("foo"), Ok(Name(NameNode { name: "foo".to_string() })));
}

#[test]
fn signed_numbers() {
    assert_eq!(
        number(&at("-1.5"), 0),
        Ok((NumNode::FloatConst(FloatNode { negative: true, whole: vec!['1'], fraction: vec!['5'] }), 4))
    );
    assert_eq!(
        number(&at("+1.5f"), 0),
        Ok((NumNode::FloatConst(FloatNode { negative: false, whole: vec!['1'], fraction: vec!['5'] }), 5))
    );
    assert_eq!(number(&at("+12"), 0), Ok((NumNode::IntConst(IntNode { value: 12 }), 3)));
    assert_eq!(number(&at("+#x10"), 0), Ok((NumNode::IntConst(IntNode { value: 16 }), 5)));
    assert_eq!(number(&at("+7u"), 0), Ok((NumNode::UIntConst(UIntNode { value: 7 }), 3)));
    assert!(number(&at("-7u"), 0).is_err());
    assert_eq!(parse("+5"), Ok(NumConst(NumNode::IntConst(IntNode { value: 5 }))));
    assert_eq!(parse("+"), Ok(Name(NameNode { name: "+".to_string() })));
}

#[test]
fn printed_codes_and_floats_read_back() {
    assert_eq!(parse("#\\x1F600"), Ok(CharConst(CharNode { value: '\u{1F600}' })));
    assert_eq!(parse("#\\x41"), Ok(CharConst(CharNode { value: 'A' })));
    assert_eq!(
        parse("-0.25"),
        Ok(NumConst(NumNode::FloatConst(FloatNode { negative: true, whole: vec!['0'], fraction: vec!['2', '5'] })))
    );
}
