use seax::cell::Atom::{Bool, Char, SInt, UInt};
use seax::cell::Cell::{self, AtomCell, InstCell, ListCell};
use seax::cell::Inst::{ADD, AP, ATOM, CAR, CDR, CONS, DIV, DUM, EQ, GT, JOIN, LD, LDC, LDF, MOD, MUL, NIL, RAP, RET, SEL, SUB};
use seax::cell::List;
use seax::driver::run_program;
use seax::error::{Error, Register};
use seax::svm::{eval_program, State};

fn list(cells: Vec<Cell>) -> List {
    List::from_vec(cells)
}

fn lc(cells: Vec<Cell>) -> Cell {
    ListCell(Box::new(list(cells)))
}

fn nil() -> Cell {
    ListCell(Box::new(List::Nil))
}

fn truth() -> Cell {
    lc(vec![AtomCell(SInt(1))])
}

fn state(stack: Vec<Cell>, env: Vec<Cell>, control: Vec<Cell>, dump: Vec<Cell>) -> State {
    State { stack: list(stack), env: list(env), control: list(control), dump: list(dump) }
}

#[test]
fn nil_program_leaves_empty_list() {
    assert_eq!(eval_program(list(vec![InstCell(NIL)]), true), Ok(list(vec![nil()])));
}

#[test]
fn ldc_program_leaves_constant() {
    assert_eq!(
        eval_program(list(vec![InstCell(LDC), AtomCell(SInt(7))]), true),
        Ok(list(vec![AtomCell(SInt(7))]))
    );
}

#[test]
fn add_program_leaves_sum() {
    let p = list(vec![
        InstCell(LDC),
        AtomCell(SInt(3)),
        InstCell(LDC),
        AtomCell(SInt(4)),
        InstCell(ADD),
    ]);
    assert_eq!(eval_program(p, true), Ok(list(vec![AtomCell(SInt(7))])));
}

#[test]
fn div_by_zero_is_arithmetic_error() {
    let p = list(vec![
        InstCell(LDC),
        AtomCell(SInt(0)),
        InstCell(LDC),
        AtomCell(SInt(5)),
        InstCell(DIV),
    ]);
    assert_eq!(eval_program(p, true), Err(Error::ArithmeticError));
    let m = list(vec![
        InstCell(LDC),
        AtomCell(UInt(0)),
        InstCell(LDC),
        AtomCell(UInt(5)),
        InstCell(MOD),
    ]);
    assert_eq!(run_program(m), Err(Error::ArithmeticError));
}

#[test]
fn ld_beyond_env_is_index_out_of_range() {
    let p = list(vec![InstCell(LD), lc(vec![AtomCell(SInt(3)), AtomCell(SInt(0))])]);
    assert_eq!(eval_program(p, true), Err(Error::IndexOutOfRange { level: 3, pos: 0 }));
    let s = state(vec![], vec![lc(vec![AtomCell(SInt(9))])], vec![
        InstCell(LD),
        lc(vec![AtomCell(SInt(0)), AtomCell(SInt(1))]),
    ], vec![]);
    assert_eq!(s.eval(), Err(Error::IndexOutOfRange { level: 0, pos: 1 }));
}

#[test]
fn ld_reads_env() {
    let s = state(vec![], vec![lc(vec![AtomCell(SInt(9))]), lc(vec![AtomCell(SInt(4)), AtomCell(SInt(5))])], vec![
        InstCell(LD),
        lc(vec![AtomCell(SInt(1)), AtomCell(SInt(1))]),
    ], vec![]);
    let t = s.eval().unwrap();
    assert_eq!(t.stack, list(vec![AtomCell(SInt(5))]));
}

#[test]
fn arithmetic_order_and_wrapping() {
    let sub = state(vec![AtomCell(SInt(10)), AtomCell(SInt(3))], vec![], vec![InstCell(SUB)], vec![]);
    assert_eq!(sub.eval().unwrap().stack, list(vec![AtomCell(SInt(7))]));
    let wrap = state(vec![AtomCell(SInt(i64::MAX)), AtomCell(SInt(1))], vec![], vec![InstCell(ADD)], vec![]);
    assert_eq!(wrap.eval().unwrap().stack, list(vec![AtomCell(SInt(i64::MIN))]));
    let uwrap = state(vec![AtomCell(UInt(0)), AtomCell(UInt(1))], vec![], vec![InstCell(SUB)], vec![]);
    assert_eq!(uwrap.eval().unwrap().stack, list(vec![AtomCell(UInt(u64::MAX))]));
    let ch = state(vec![AtomCell(Char('a')), AtomCell(SInt(1))], vec![], vec![InstCell(ADD)], vec![]);
    assert_eq!(ch.eval().unwrap().stack, list(vec![AtomCell(SInt(98))]));
    let m = state(vec![AtomCell(SInt(-7)), AtomCell(SInt(3))], vec![], vec![InstCell(MOD)], vec![]);
    assert_eq!(m.eval().unwrap().stack, list(vec![AtomCell(SInt(-1))]));
    let d = state(vec![AtomCell(SInt(i64::MIN)), AtomCell(SInt(-1))], vec![], vec![InstCell(DIV)], vec![]);
    assert_eq!(d.eval().unwrap().stack, list(vec![AtomCell(SInt(i64::MIN))]));
}

#[test]
fn type_errors() {
    let mixed = state(vec![AtomCell(SInt(1)), AtomCell(UInt(1))], vec![], vec![InstCell(ADD)], vec![]);
    assert_eq!(mixed.eval(), Err(Error::TypeError { op: ADD }));
    let not_atom = state(vec![nil(), AtomCell(SInt(1))], vec![], vec![InstCell(MUL)], vec![]);
    assert_eq!(not_atom.eval(), Err(Error::TypeError { op: MUL }));
    let boolean = state(vec![AtomCell(Bool(true)), AtomCell(Bool(false))], vec![], vec![InstCell(GT)], vec![]);
    assert_eq!(boolean.eval(), Err(Error::TypeError { op: GT }));
    let car_nil = state(vec![nil()], vec![], vec![InstCell(CAR)], vec![]);
    assert_eq!(car_nil.eval(), Err(Error::TypeError { op: CAR }));
    let cons_atom = state(vec![AtomCell(SInt(1)), AtomCell(SInt(2))], vec![], vec![InstCell(CONS)], vec![]);
    assert_eq!(cons_atom.eval(), Err(Error::TypeError { op: CONS }));
}

#[test]
fn underflow_errors() {
    let add = state(vec![AtomCell(SInt(1))], vec![], vec![InstCell(ADD)], vec![]);
    assert_eq!(add.eval(), Err(Error::UnderflowError { op: Some(ADD), register: Register::Stack }));
    let ldc = state(vec![], vec![], vec![InstCell(LDC)], vec![]);
    assert_eq!(ldc.eval(), Err(Error::UnderflowError { op: Some(LDC), register: Register::Control }));
    let join = state(vec![], vec![], vec![InstCell(JOIN)], vec![]);
    assert_eq!(join.eval(), Err(Error::UnderflowError { op: Some(JOIN), register: Register::Dump }));
    assert_eq!(State::new().eval(), Err(Error::UnderflowError { op: None, register: Register::Control }));
}

#[test]
fn malformed_operands() {
    let ld = state(vec![], vec![], vec![InstCell(LD), lc(vec![AtomCell(UInt(0)), AtomCell(SInt(0))])], vec![]);
    assert_eq!(ld.eval(), Err(Error::MalformedInstruction { op: Some(LD) }));
    let ldc = state(vec![], vec![], vec![InstCell(LDC), InstCell(NIL)], vec![]);
    assert_eq!(ldc.eval(), Err(Error::MalformedInstruction { op: Some(LDC) }));
    let not_op = state(vec![], vec![], vec![AtomCell(SInt(1))], vec![]);
    assert_eq!(not_op.eval(), Err(Error::MalformedInstruction { op: None }));
    let rap = state(vec![], vec![], vec![InstCell(RAP)], vec![]);
    assert_eq!(rap.eval(), Err(Error::MalformedInstruction { op: Some(RAP) }));
}

#[test]
fn eq_pushes_canonical_truth() {
    let same = state(vec![lc(vec![AtomCell(SInt(2))]), lc(vec![AtomCell(SInt(2))])], vec![], vec![InstCell(EQ)], vec![]);
    assert_eq!(same.eval().unwrap().stack, list(vec![truth()]));
    let diff = state(vec![AtomCell(SInt(2)), AtomCell(UInt(2))], vec![], vec![InstCell(EQ)], vec![]);
    assert_eq!(diff.eval().unwrap().stack, list(vec![nil()]));
    let atom = state(vec![AtomCell(Char('c'))], vec![], vec![InstCell(ATOM)], vec![]);
    assert_eq!(atom.eval().unwrap().stack, list(vec![truth()]));
}

#[test]
fn sel_branches_on_non_nil() {
    let then_b = || vec![InstCell(LDC), AtomCell(SInt(1)), InstCell(JOIN)];
    let else_b = || vec![InstCell(LDC), AtomCell(SInt(2)), InstCell(JOIN)];
    let taken = state(vec![AtomCell(SInt(0))], vec![], vec![InstCell(SEL), lc(then_b()), lc(else_b()), InstCell(NIL)], vec![]);
    let t = taken.eval().unwrap();
    assert_eq!(t.control, list(then_b()));
    assert_eq!(t.dump, list(vec![lc(vec![InstCell(NIL)])]));
    let not_taken = state(vec![nil()], vec![], vec![InstCell(SEL), lc(then_b()), lc(else_b())], vec![]);
    assert_eq!(not_taken.eval().unwrap().control, list(else_b()));
}

#[test]
fn stack_balance_of_opcodes() {
    let s = state(vec![], vec![], vec![
        InstCell(DUM),
        InstCell(NIL),
        InstCell(LDC),
        AtomCell(SInt(1)),
        InstCell(CONS),
        InstCell(CDR),
    ], vec![]);
    let a = s.eval().unwrap();
    assert_eq!(a.stack.length(), 0);
    assert_eq!(a.env, list(vec![nil()]));
    let b = a.eval().unwrap();
    assert_eq!(b.stack.length(), 1);
    let c = b.eval().unwrap();
    assert_eq!(c.stack.length(), 2);
    let d = c.eval().unwrap();
    assert_eq!(d.stack, list(vec![lc(vec![AtomCell(SInt(1))])]));
    let e = d.eval().unwrap();
    assert_eq!(e.stack, list(vec![nil()]));
}

#[test]
fn ret_restores_caller_frame() {
    let body = vec![InstCell(LD), lc(vec![AtomCell(SInt(0)), AtomCell(SInt(0))]), InstCell(RET)];
    let caller_env = || vec![lc(vec![AtomCell(SInt(8))])];
    let s = state(
        vec![AtomCell(SInt(99))],
        caller_env(),
        vec![
            InstCell(NIL),
            InstCell(LDC),
            AtomCell(SInt(5)),
            InstCell(CONS),
            InstCell(LDF),
            lc(body),
            InstCell(AP),
            InstCell(NIL),
        ],
        vec![AtomCell(Bool(true))],
    );
    let mut m = s;
    for _ in 0..4 {
        m = m.eval().unwrap();
    }
    assert_eq!(m.control, list(vec![InstCell(AP), InstCell(NIL)]));
    let called = m.eval().unwrap();
    assert_eq!(called.stack, List::Nil);
    assert_eq!(called.env.length(), 2);
    let loaded = called.eval().unwrap();
    let back = loaded.eval().unwrap();
    assert_eq!(back.stack, list(vec![AtomCell(SInt(5)), AtomCell(SInt(99))]));
    assert_eq!(back.env, list(caller_env()));
    assert_eq!(back.control, list(vec![InstCell(NIL)]));
    assert_eq!(back.dump, list(vec![AtomCell(Bool(true))]));
}

#[test]
fn list_operations() {
    let l = List::new().push(AtomCell(SInt(2))).push(AtomCell(SInt(1)));
    assert_eq!(l.length(), 2);
    assert_eq!(l.peek(), Some(&AtomCell(SInt(1))));
    assert_eq!(l.index(1), Some(&AtomCell(SInt(2))));
    assert_eq!(l.index(2), None);
    assert_eq!(List::empty().pop(), None);
    let (h, t) = l.pop().unwrap();
    assert_eq!(h, AtomCell(SInt(1)));
    assert_eq!(t, list(vec![AtomCell(SInt(2))]));
}

#[test]
fn step_limit_is_enforced() {
    let program = || {
        let mut cells = vec![InstCell(NIL)];
        for _ in 0..1_000_000 {
            cells.push(InstCell(ATOM));
        }
        list(cells)
    };
    assert_eq!(eval_program(program(), true), Err(Error::StepLimitExceeded));
    assert_eq!(eval_program(program(), false), Ok(list(vec![nil()])));
}
