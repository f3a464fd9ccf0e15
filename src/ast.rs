use vstd::prelude::*;

verus! {

/// An identifier.
#[derive(Debug, PartialEq, Eq)]
pub struct NameNode {
    pub name: String,
}

/// A signed integer constant.
#[derive(Clone, Copy, Debug, PartialEq, Eq, Structural)]
pub struct IntNode {
    pub value: i64,
}

/// An unsigned integer constant.
#[derive(Clone, Copy, Debug, PartialEq, Eq, Structural)]
pub struct UIntNode {
    pub value: u64,
}

/// A floating-point constant, kept as its sign and the digits before and
/// after its point.
#[derive(Debug, PartialEq, Eq)]
pub struct FloatNode {
    pub negative: bool,
    pub whole: Vec<char>,
    pub fraction: Vec<char>,
}

/// A numeric constant.
#[derive(Debug, PartialEq, Eq)]
pub enum NumNode {
    IntConst(IntNode),
    UIntConst(UIntNode),
    FloatConst(FloatNode),
}

/// A boolean constant.
#[derive(Clone, Copy, Debug, PartialEq, Eq, Structural)]
pub struct BoolNode {
    pub value: bool,
}

/// A character constant.
#[derive(Clone, Copy, Debug, PartialEq, Eq, Structural)]
pub struct CharNode {
    pub value: char,
}

/// An application of a named operator to operand expressions.
#[derive(Debug, PartialEq, Eq)]
pub struct SExprNode {
    pub operator: NameNode,
    pub operands: Vec<ExprNode>,
}

/// A parenthesised list of expressions that does not start with a name.
#[derive(Debug, PartialEq, Eq)]
pub struct ListNode {
    pub elements: Vec<ExprNode>,
}

/// A Scheme expression.
#[derive(Debug, PartialEq, Eq)]
pub enum ExprNode {
    SExpr(SExprNode),
    Name(NameNode),
    ListConst(ListNode),
    NumConst(NumNode),
    BoolConst(BoolNode),
    CharConst(CharNode),
}

/// The value of a numeric constant.
pub enum NumVal {
    Int(i64),
    UInt(u64),
    Float(bool, Seq<char>, Seq<char>),
}

/// The mathematical form of an expression.
pub enum Form {
    Name(Seq<char>),
    Num(NumVal),
    Bool(bool),
    Char(u32),
    List(Seq<Form>),
    Apply(Seq<char>, Seq<Form>),
}

/// The value of a numeric constant node.
pub open spec fn num_val(n: NumNode) -> NumVal {
    match n {
        NumNode::IntConst(i) => NumVal::Int(i.value),
        NumNode::UIntConst(u) => NumVal::UInt(u.value),
        NumNode::FloatConst(f) => NumVal::Float(f.negative, f.whole@, f.fraction@),
    }
}

/// The form of an expression.
pub open spec fn form(e: ExprNode) -> Form
    decreases e,
{
    match e {
        ExprNode::SExpr(s) => Form::Apply(
            s.operator.name@,
            Seq::new(
                s.operands@.len(),
                |i: int|
                    if 0 <= i < s.operands@.len() {
                        form(s.operands@[i])
                    } else {
                        Form::Bool(false)
                    },
            ),
        ),
        ExprNode::Name(n) => Form::Name(n.name@),
        ExprNode::ListConst(l) => Form::List(
            Seq::new(
                l.elements@.len(),
                |i: int|
                    if 0 <= i < l.elements@.len() {
                        form(l.elements@[i])
                    } else {
                        Form::Bool(false)
                    },
            ),
        ),
        ExprNode::NumConst(n) => Form::Num(num_val(n)),
        ExprNode::BoolConst(b) => Form::Bool(b.value),
        ExprNode::CharConst(c) => Form::Char(c.value as u32),
    }
}

/// The forms of a sequence of expressions.
pub open spec fn forms(v: Seq<ExprNode>) -> Seq<Form> {
    Seq::new(v.len(), |i: int| form(v[i]))
}

} // verus!
