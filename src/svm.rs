use vstd::prelude::*;
use crate::cell::{Atom, Cell, Inst, List, list_cell, truth, truth_cell};
use crate::error::{Error, Register};

verus! {

/// The four registers of the machine.
#[derive(Debug, PartialEq, Eq)]
pub struct State {
    pub stack: List,
    pub env: List,
    pub control: List,
    pub dump: List,
}

/// Two numeric operands brought to a common integer tag.
#[derive(Clone, Copy, Debug, PartialEq, Eq, Structural)]
pub enum Num {
    Signed(i64, i64),
    Unsigned(u64, u64),
}

/// The step bound that `eval_program` applies when asked to limit itself.
pub const STEP_LIMIT: u64 = 1000000;

/// The list `c` followed by `l`.
pub open spec fn cons(c: Cell, l: List) -> List {
    List::Cons(c, Box::new(l))
}

/// The state with the four given registers.
pub open spec fn regs(stack: List, env: List, control: List, dump: List) -> State {
    State { stack, env, control, dump }
}

/// Pops the head of register `reg` for opcode `op`.
pub open spec fn pop_reg(l: List, op: Inst, reg: Register) -> Result<(Cell, List), Error> {
    match l {
        List::Nil => Err(Error::UnderflowError { op: Some(op), register: reg }),
        List::Cons(h, t) => Ok((h, *t)),
    }
}

/// Pops an atom off the stack for opcode `op`.
pub open spec fn pop_atom(l: List, op: Inst) -> Result<(Atom, List), Error> {
    match pop_reg(l, op, Register::Stack) {
        Err(e) => Err(e),
        Ok((Cell::AtomCell(a), t)) => Ok((a, t)),
        Ok(_) => Err(Error::TypeError { op }),
    }
}

/// Pops a list cell off `l` for opcode `op`; a cell of another kind is a
/// malformed operand on the control and dump registers.
pub open spec fn pop_list_operand(l: List, op: Inst, reg: Register) -> Result<(List, List), Error> {
    match pop_reg(l, op, reg) {
        Err(e) => Err(e),
        Ok((Cell::ListCell(b), t)) => Ok((*b, t)),
        Ok(_) => Err(Error::MalformedInstruction { op: Some(op) }),
    }
}

/// The common integer form of two atoms: same tags keep their tag, and a
/// character stands for its code point beside an integer or a character.
/// Other pairs (booleans, signed with unsigned) have no integer form.
pub open spec fn numeric(a: Atom, b: Atom) -> Option<Num> {
    match (a, b) {
        (Atom::SInt(x), Atom::SInt(y)) => Some(Num::Signed(x, y)),
        (Atom::UInt(x), Atom::UInt(y)) => Some(Num::Unsigned(x, y)),
        (Atom::Char(x), Atom::SInt(y)) => Some(Num::Signed(x as u32 as i64, y)),
        (Atom::SInt(x), Atom::Char(y)) => Some(Num::Signed(x, y as u32 as i64)),
        (Atom::Char(x), Atom::UInt(y)) => Some(Num::Unsigned(x as u32 as u64, y)),
        (Atom::UInt(x), Atom::Char(y)) => Some(Num::Unsigned(x, y as u32 as u64)),
        (Atom::Char(x), Atom::Char(y)) => Some(Num::Signed(x as u32 as i64, y as u32 as i64)),
        _ => None,
    }
}

/// The five arithmetic opcodes.
pub open spec fn is_arith(op: Inst) -> bool {
    op is ADD || op is SUB || op is MUL || op is DIV || op is MOD
}

/// Signed quotient truncated toward zero, wrapping on overflow.
pub open spec fn sint_quot(x: i64, y: i64) -> i64 {
    match x.checked_div(y) {
        Some(q) => q,
        None => x,
    }
}

/// Signed remainder with the sign of the dividend, wrapping on overflow.
pub open spec fn sint_rem(x: i64, y: i64) -> i64 {
    match x.checked_rem(y) {
        Some(r) => r,
        None => 0,
    }
}

/// `left op right` for an arithmetic opcode.
pub open spec fn arith(op: Inst, left: Atom, right: Atom) -> Result<Atom, Error> {
    match numeric(left, right) {
        None => Err(Error::TypeError { op }),
        Some(Num::Signed(x, y)) => match op {
            Inst::ADD => Ok(Atom::SInt(x.wrapping_add(y))),
            Inst::SUB => Ok(Atom::SInt(x.wrapping_sub(y))),
            Inst::MUL => Ok(Atom::SInt(x.wrapping_mul(y))),
            Inst::DIV => if y == 0 { Err(Error::ArithmeticError) } else { Ok(Atom::SInt(sint_quot(x, y))) },
            _ => if y == 0 { Err(Error::ArithmeticError) } else { Ok(Atom::SInt(sint_rem(x, y))) },
        },
        Some(Num::Unsigned(x, y)) => match op {
            Inst::ADD => Ok(Atom::UInt(x.wrapping_add(y))),
            Inst::SUB => Ok(Atom::UInt(x.wrapping_sub(y))),
            Inst::MUL => Ok(Atom::UInt(x.wrapping_mul(y))),
            Inst::DIV => if y == 0 { Err(Error::ArithmeticError) } else { Ok(Atom::UInt(x / y)) },
            _ => if y == 0 { Err(Error::ArithmeticError) } else { Ok(Atom::UInt(x % y)) },
        },
    }
}

/// Whether `x op y` holds for an ordering opcode.
pub open spec fn holds(op: Inst, x: int, y: int) -> bool {
    match op {
        Inst::GT => x > y,
        Inst::GTE => x >= y,
        Inst::LT => x < y,
        _ => x <= y,
    }
}

/// `left op right` for an ordering opcode.
pub open spec fn compare(op: Inst, left: Atom, right: Atom) -> Result<bool, Error> {
    match numeric(left, right) {
        None => Err(Error::TypeError { op }),
        Some(Num::Signed(x, y)) => Ok(holds(op, x as int, y as int)),
        Some(Num::Unsigned(x, y)) => Ok(holds(op, x as int, y as int)),
    }
}

/// `E[level][pos]`.
pub open spec fn lookup(env: List, level: i64, pos: i64) -> Result<Cell, Error> {
    if level < 0 || pos < 0 || level >= env@.len() {
        Err(Error::IndexOutOfRange { level, pos })
    } else {
        match env@[level as int] {
            Cell::ListCell(frame) => if pos >= frame@.len() {
                Err(Error::IndexOutOfRange { level, pos })
            } else {
                Ok(frame@[pos as int])
            },
            _ => Err(Error::TypeError { op: Inst::LD }),
        }
    }
}

/// A closure cell `(body env)`, as `LDF` builds it. The closure captures
/// the whole environment, not only its innermost frame: a lambda nested in
/// another reads the outer one's variables at level 1 and beyond, which
/// needs every frame of the environment it was made in.
pub open spec fn closure(body: List, env: List) -> Cell {
    list_cell(cons(list_cell(body), cons(list_cell(env), List::Nil)))
}

/// The body and captured environment of a closure cell.
pub open spec fn closure_parts(c: Cell) -> Option<(List, List)> {
    match c {
        Cell::ListCell(l) => match *l {
            List::Cons(Cell::ListCell(body), rest) => match *rest {
                List::Cons(Cell::ListCell(cenv), last) => if *last is Nil {
                    Some((*body, *cenv))
                } else {
                    None
                },
                _ => None,
            },
            _ => None,
        },
        _ => None,
    }
}

/// The `(level pos)` pair of an `LD` operand.
pub open spec fn address(c: Cell) -> Option<(i64, i64)> {
    match c {
        Cell::ListCell(l) => match *l {
            List::Cons(Cell::AtomCell(Atom::SInt(level)), rest) => match *rest {
                List::Cons(Cell::AtomCell(Atom::SInt(pos)), last) => if *last is Nil {
                    Some((level, pos))
                } else {
                    None
                },
                _ => None,
            },
            _ => None,
        },
        _ => None,
    }
}

/// Calls a closure for `AP` or `RAP`: the stack holds the closure
/// `(body env)` on top and the argument list below it. The caller's stack
/// (without those two), `saved_env` and the residual control are pushed on
/// the dump, so that `RET` pops them in that order. The callee runs `body`
/// on an empty stack, in the captured environment with the arguments as its
/// innermost frame; for `RAP` the arguments take the place of the captured
/// environment's innermost (dummy) frame.
pub open spec fn apply(op: Inst, s: State, saved_env: List) -> Result<State, Error> {
    match pop_reg(s.stack, op, Register::Stack) {
        Err(e) => Err(e),
        Ok((f, st)) => match closure_parts(f) {
            None => Err(Error::TypeError { op }),
            Some((body, cenv)) => match pop_reg(st, op, Register::Stack) {
                Err(e) => Err(e),
                Ok((Cell::ListCell(args), st2)) => {
                    let new_env = if op is RAP {
                        match cenv {
                            List::Cons(_, rest) => cons(Cell::ListCell(args), *rest),
                            List::Nil => List::Nil,
                        }
                    } else {
                        cons(Cell::ListCell(args), cenv)
                    };
                    if op is RAP && cenv is Nil {
                        Err(Error::MalformedInstruction { op: Some(op) })
                    } else {
                        Ok(regs(
                            List::Nil,
                            new_env,
                            body,
                            cons(
                                list_cell(st2),
                                cons(list_cell(saved_env), cons(list_cell(s.control), s.dump)),
                            ),
                        ))
                    }
                },
                Ok(_) => Err(Error::TypeError { op }),
            },
        },
    }
}

/// One opcode's effect; `s.control` is what follows the opcode.
pub open spec fn step_op(op: Inst, s: State) -> Result<State, Error> {
    match op {
        Inst::NIL => Ok(regs(cons(list_cell(List::Nil), s.stack), s.env, s.control, s.dump)),
        Inst::LDC => match pop_reg(s.control, op, Register::Control) {
            Err(e) => Err(e),
            Ok((Cell::AtomCell(a), c)) => Ok(regs(cons(Cell::AtomCell(a), s.stack), s.env, c, s.dump)),
            Ok(_) => Err(Error::MalformedInstruction { op: Some(op) }),
        },
        Inst::LD => match pop_reg(s.control, op, Register::Control) {
            Err(e) => Err(e),
            Ok((x, c)) => match address(x) {
                None => Err(Error::MalformedInstruction { op: Some(op) }),
                Some((level, pos)) => match lookup(s.env, level, pos) {
                    Err(e) => Err(e),
                    Ok(v) => Ok(regs(cons(v, s.stack), s.env, c, s.dump)),
                },
            },
        },
        Inst::LDF => match pop_list_operand(s.control, op, Register::Control) {
            Err(e) => Err(e),
            Ok((body, c)) => Ok(regs(cons(closure(body, s.env), s.stack), s.env, c, s.dump)),
        },
        Inst::AP => apply(op, s, s.env),
        Inst::RAP => match s.env {
            List::Cons(Cell::ListCell(d), rest) => if *d is Nil {
                apply(op, s, *rest)
            } else {
                Err(Error::MalformedInstruction { op: Some(op) })
            },
            _ => Err(Error::MalformedInstruction { op: Some(op) }),
        },
        Inst::RET => match pop_reg(s.stack, op, Register::Stack) {
            Err(e) => Err(e),
            Ok((v, _)) => match pop_list_operand(s.dump, op, Register::Dump) {
                Err(e) => Err(e),
                Ok((st, d1)) => match pop_list_operand(d1, op, Register::Dump) {
                    Err(e) => Err(e),
                    Ok((e, d2)) => match pop_list_operand(d2, op, Register::Dump) {
                        Err(err) => Err(err),
                        Ok((c, d3)) => Ok(regs(cons(v, st), e, c, d3)),
                    },
                },
            },
        },
        Inst::DUM => Ok(regs(s.stack, cons(list_cell(List::Nil), s.env), s.control, s.dump)),
        Inst::JOIN => match pop_list_operand(s.dump, op, Register::Dump) {
            Err(e) => Err(e),
            Ok((c, d)) => Ok(regs(s.stack, s.env, c, d)),
        },
        Inst::SEL => match pop_list_operand(s.control, op, Register::Control) {
            Err(e) => Err(e),
            Ok((then_b, c1)) => match pop_list_operand(c1, op, Register::Control) {
                Err(e) => Err(e),
                Ok((else_b, c2)) => match pop_reg(s.stack, op, Register::Stack) {
                    Err(e) => Err(e),
                    Ok((p, st)) => Ok(
                        regs(
                            st,
                            s.env,
                            if p == list_cell(List::Nil) { else_b } else { then_b },
                            cons(list_cell(c2), s.dump),
                        ),
                    ),
                },
            },
        },
        Inst::EQ => match pop_reg(s.stack, op, Register::Stack) {
            Err(e) => Err(e),
            Ok((a, st)) => match pop_reg(st, op, Register::Stack) {
                Err(e) => Err(e),
                Ok((b, st2)) => Ok(regs(cons(truth(a == b), st2), s.env, s.control, s.dump)),
            },
        },
        Inst::ATOM => match pop_reg(s.stack, op, Register::Stack) {
            Err(e) => Err(e),
            Ok((x, st)) => Ok(regs(cons(truth(x is AtomCell), st), s.env, s.control, s.dump)),
        },
        Inst::CAR => match pop_reg(s.stack, op, Register::Stack) {
            Err(e) => Err(e),
            Ok((Cell::ListCell(l), st)) => match *l {
                List::Cons(h, _) => Ok(regs(cons(h, st), s.env, s.control, s.dump)),
                List::Nil => Err(Error::TypeError { op }),
            },
            Ok(_) => Err(Error::TypeError { op }),
        },
        Inst::CDR => match pop_reg(s.stack, op, Register::Stack) {
            Err(e) => Err(e),
            Ok((Cell::ListCell(l), st)) => match *l {
                List::Cons(_, t) => Ok(regs(cons(list_cell(*t), st), s.env, s.control, s.dump)),
                List::Nil => Err(Error::TypeError { op }),
            },
            Ok(_) => Err(Error::TypeError { op }),
        },
        Inst::CONS => match pop_reg(s.stack, op, Register::Stack) {
            Err(e) => Err(e),
            Ok((x, st)) => match pop_reg(st, op, Register::Stack) {
                Err(e) => Err(e),
                Ok((Cell::ListCell(l), st2)) => Ok(
                    regs(cons(list_cell(cons(x, *l)), st2), s.env, s.control, s.dump),
                ),
                Ok(_) => Err(Error::TypeError { op }),
            },
        },
        _ => match pop_atom(s.stack, op) {
            Err(e) => Err(e),
            Ok((a, st)) => match pop_atom(st, op) {
                Err(e) => Err(e),
                Ok((b, st2)) => if is_arith(op) {
                    match arith(op, a, b) {
                        Err(e) => Err(e),
                        Ok(r) => Ok(regs(cons(Cell::AtomCell(r), st2), s.env, s.control, s.dump)),
                    }
                } else {
                    match compare(op, a, b) {
                        Err(e) => Err(e),
                        Ok(r) => Ok(regs(cons(truth(r), st2), s.env, s.control, s.dump)),
                    }
                },
            },
        },
    }
}

/// One step of the machine: reads the opcode at the head of the control
/// register and applies it.
pub open spec fn step(s: State) -> Result<State, Error> {
    match s.control {
        List::Nil => Err(Error::UnderflowError { op: None, register: Register::Control }),
        List::Cons(Cell::InstCell(op), rest) => step_op(op, regs(s.stack, s.env, *rest, s.dump)),
        List::Cons(_, _) => Err(Error::MalformedInstruction { op: None }),
    }
}

/// Steps until the control register is empty, at most `fuel` times.
pub open spec fn run(s: State, fuel: nat) -> Result<State, Error>
    decreases fuel,
{
    if s.control is Nil {
        Ok(s)
    } else if fuel == 0 {
        Err(Error::StepLimitExceeded)
    } else {
        match step(s) {
            Err(e) => Err(e),
            Ok(t) => run(t, (fuel - 1) as nat),
        }
    }
}

/// The state in which a program starts: empty stack, environment and dump.
pub open spec fn initial(program: List) -> State {
    regs(List::Nil, List::Nil, program, List::Nil)
}

/// The step bound of `eval_program`.
pub open spec fn limit_of(limited: bool) -> nat {
    if limited { STEP_LIMIT as nat } else { u64::MAX as nat }
}

/// The final stack of a run of `program`.
pub open spec fn program_result(program: List, limited: bool) -> Result<List, Error> {
    match run(initial(program), limit_of(limited)) {
        Ok(s) => Ok(s.stack),
        Err(e) => Err(e),
    }
}

} // verus!

verus! {

fn take(l: List, op: Inst, reg: Register) -> (r: Result<(Cell, List), Error>)
    ensures
        r == pop_reg(l, op, reg),
{
    match l {
        List::Nil => Err(Error::UnderflowError { op: Some(op), register: reg }),
        List::Cons(h, t) => Ok((h, *t)),
    }
}

fn take_atom(l: List, op: Inst) -> (r: Result<(Atom, List), Error>)
    ensures
        r == pop_atom(l, op),
{
    match take(l, op, Register::Stack) {
        Err(e) => Err(e),
        Ok((Cell::AtomCell(a), t)) => Ok((a, t)),
        Ok(_) => Err(Error::TypeError { op }),
    }
}

fn take_list(l: List, op: Inst, reg: Register) -> (r: Result<(List, List), Error>)
    ensures
        r == pop_list_operand(l, op, reg),
{
    match take(l, op, reg) {
        Err(e) => Err(e),
        Ok((Cell::ListCell(b), t)) => Ok((*b, t)),
        Ok(_) => Err(Error::MalformedInstruction { op: Some(op) }),
    }
}

fn numeric_of(a: Atom, b: Atom) -> (r: Option<Num>)
    ensures
        r == numeric(a, b),
{
    match (a, b) {
        (Atom::SInt(x), Atom::SInt(y)) => Some(Num::Signed(x, y)),
        (Atom::UInt(x), Atom::UInt(y)) => Some(Num::Unsigned(x, y)),
        (Atom::Char(x), Atom::SInt(y)) => Some(Num::Signed(x as u32 as i64, y)),
        (Atom::SInt(x), Atom::Char(y)) => Some(Num::Signed(x, y as u32 as i64)),
        (Atom::Char(x), Atom::UInt(y)) => Some(Num::Unsigned(x as u32 as u64, y)),
        (Atom::UInt(x), Atom::Char(y)) => Some(Num::Unsigned(x, y as u32 as u64)),
        (Atom::Char(x), Atom::Char(y)) => Some(Num::Signed(x as u32 as i64, y as u32 as i64)),
        _ => None,
    }
}

fn arith_of(op: Inst, left: Atom, right: Atom) -> (r: Result<Atom, Error>)
    requires
        is_arith(op),
    ensures
        r == arith(op, left, right),
{
    match numeric_of(left, right) {
        None => Err(Error::TypeError { op }),
        Some(Num::Signed(x, y)) => match op {
            Inst::ADD => Ok(Atom::SInt(x.wrapping_add(y))),
            Inst::SUB => Ok(Atom::SInt(x.wrapping_sub(y))),
            Inst::MUL => Ok(Atom::SInt(x.wrapping_mul(y))),
            Inst::DIV => if y == 0 {
                Err(Error::ArithmeticError)
            } else {
                match x.checked_div(y) {
                    Some(q) => Ok(Atom::SInt(q)),
                    None => Ok(Atom::SInt(x)),
                }
            },
            _ => if y == 0 {
                Err(Error::ArithmeticError)
            } else {
                match x.checked_rem(y) {
                    Some(m) => Ok(Atom::SInt(m)),
                    None => Ok(Atom::SInt(0)),
                }
            },
        },
        Some(Num::Unsigned(x, y)) => match op {
            Inst::ADD => Ok(Atom::UInt(x.wrapping_add(y))),
            Inst::SUB => Ok(Atom::UInt(x.wrapping_sub(y))),
            Inst::MUL => Ok(Atom::UInt(x.wrapping_mul(y))),
            Inst::DIV => if y == 0 {
                Err(Error::ArithmeticError)
            } else {
                Ok(Atom::UInt(x / y))
            },
            _ => if y == 0 {
                Err(Error::ArithmeticError)
            } else {
                Ok(Atom::UInt(x % y))
            },
        },
    }
}

fn compare_of(op: Inst, left: Atom, right: Atom) -> (r: Result<bool, Error>)
    ensures
        r == compare(op, left, right),
{
    match numeric_of(left, right) {
        None => Err(Error::TypeError { op }),
        Some(Num::Signed(x, y)) => Ok(
            match op {
                Inst::GT => x > y,
                Inst::GTE => x >= y,
                Inst::LT => x < y,
                _ => x <= y,
            },
        ),
        Some(Num::Unsigned(x, y)) => Ok(
            match op {
                Inst::GT => x > y,
                Inst::GTE => x >= y,
                Inst::LT => x < y,
                _ => x <= y,
            },
        ),
    }
}

fn nth(l: &List, i: i64) -> (r: Option<&Cell>)
    requires
        i >= 0,
    ensures
        i < l@.len() ==> r == Some(&l@[i as int]),
        i >= l@.len() ==> r is None,
    decreases l,
{
    match l {
        List::Nil => None,
        List::Cons(h, t) => {
            if i == 0 {
                Some(h)
            } else {
                let r = nth(t, i - 1);
                assert(l@.subrange(1, l@.len() as int) =~= t@);
                r
            }
        },
    }
}

fn lookup_in(env: &List, level: i64, pos: i64) -> (r: Result<Cell, Error>)
    ensures
        r == lookup(*env, level, pos),
{
    if level < 0 || pos < 0 {
        return Err(Error::IndexOutOfRange { level, pos });
    }
    match nth(env, level) {
        None => Err(Error::IndexOutOfRange { level, pos }),
        Some(Cell::ListCell(frame)) => match nth(frame, pos) {
            None => Err(Error::IndexOutOfRange { level, pos }),
            Some(v) => Ok(v.copy()),
        },
        Some(_) => Err(Error::TypeError { op: Inst::LD }),
    }
}

fn address_of(c: &Cell) -> (r: Option<(i64, i64)>)
    ensures
        r == address(*c),
{
    match c {
        Cell::ListCell(l) => match &**l {
            List::Cons(Cell::AtomCell(Atom::SInt(level)), rest) => match &**rest {
                List::Cons(Cell::AtomCell(Atom::SInt(pos)), last) => match &**last {
                    List::Nil => Some((*level, *pos)),
                    _ => None,
                },
                _ => None,
            },
            _ => None,
        },
        _ => None,
    }
}

fn split_closure(c: Cell) -> (r: Option<(List, List)>)
    ensures
        r == closure_parts(c),
{
    match c {
        Cell::ListCell(l) => match *l {
            List::Cons(Cell::ListCell(body), rest) => match *rest {
                List::Cons(Cell::ListCell(cenv), last) => match *last {
                    List::Nil => Some((*body, *cenv)),
                    _ => None,
                },
                _ => None,
            },
            _ => None,
        },
        _ => None,
    }
}

fn apply_closure(op: Inst, s: State, saved_env: List) -> (r: Result<State, Error>)
    requires
        op is AP || op is RAP,
    ensures
        r == apply(op, s, saved_env),
{
    let State { stack, env: _, control, dump } = s;
    let (f, st) = match take(stack, op, Register::Stack) {
        Err(e) => return Err(e),
        Ok(p) => p,
    };
    let (body, cenv) = match split_closure(f) {
        None => return Err(Error::TypeError { op }),
        Some(p) => p,
    };
    let (args, st2) = match take(st, op, Register::Stack) {
        Err(e) => return Err(e),
        Ok((Cell::ListCell(a), st2)) => (a, st2),
        Ok(_) => return Err(Error::TypeError { op }),
    };
    let new_env = match op {
        Inst::RAP => match cenv {
            List::Cons(_, rest) => List::Cons(Cell::ListCell(args), rest),
            List::Nil => return Err(Error::MalformedInstruction { op: Some(op) }),
        },
        _ => List::Cons(Cell::ListCell(args), Box::new(cenv)),
    };
    let new_dump = dump.push(Cell::ListCell(Box::new(control))).push(
        Cell::ListCell(Box::new(saved_env)),
    ).push(Cell::ListCell(Box::new(st2)));
    Ok(State { stack: List::Nil, env: new_env, control: body, dump: new_dump })
}

} // verus!

verus! {

impl State {
    /// A state with all four registers empty.
    pub fn new() -> (r: State)
        ensures
            r == regs(List::Nil, List::Nil, List::Nil, List::Nil),
    {
        State { stack: List::Nil, env: List::Nil, control: List::Nil, dump: List::Nil }
    }

    /// Runs one opcode, with its inline operands, from the head of the
    /// control register, giving the next state or the fault it raised.
    pub fn eval(self) -> (r: Result<State, Error>)
        ensures
            r == step(self),
    {
        let State { stack, env, control, dump } = self;
        let (op, control) = match control {
            List::Nil => {
                return Err(Error::UnderflowError { op: None, register: Register::Control });
            },
            List::Cons(Cell::InstCell(op), rest) => (op, *rest),
            List::Cons(_, _) => return Err(Error::MalformedInstruction { op: None }),
        };
        match op {
            Inst::NIL => Ok(
                State { stack: stack.push(Cell::ListCell(Box::new(List::Nil))), env, control, dump },
            ),
            Inst::LDC => match take(control, op, Register::Control) {
                Err(e) => Err(e),
                Ok((Cell::AtomCell(a), c)) => Ok(
                    State { stack: stack.push(Cell::AtomCell(a)), env, control: c, dump },
                ),
                Ok(_) => Err(Error::MalformedInstruction { op: Some(op) }),
            },
            Inst::LD => match take(control, op, Register::Control) {
                Err(e) => Err(e),
                Ok((x, c)) => match address_of(&x) {
                    None => Err(Error::MalformedInstruction { op: Some(op) }),
                    Some((level, pos)) => match lookup_in(&env, level, pos) {
                        Err(e) => Err(e),
                        Ok(v) => Ok(State { stack: stack.push(v), env, control: c, dump }),
                    },
                },
            },
            Inst::LDF => match take_list(control, op, Register::Control) {
                Err(e) => Err(e),
                Ok((body, c)) => {
                    let captured = env.copy();
                    let f = List::Nil.push(Cell::ListCell(Box::new(captured))).push(
                        Cell::ListCell(Box::new(body)),
                    );
                    Ok(State { stack: stack.push(Cell::ListCell(Box::new(f))), env, control: c, dump })
                },
            },
            Inst::AP => {
                let saved = env.copy();
                apply_closure(op, State { stack, env, control, dump }, saved)
            },
            Inst::RAP => match env {
                List::Cons(Cell::ListCell(d), rest) => match *d {
                    List::Nil => apply_closure(
                        op,
                        State { stack, env: List::Nil, control, dump },
                        *rest,
                    ),
                    _ => Err(Error::MalformedInstruction { op: Some(op) }),
                },
                _ => Err(Error::MalformedInstruction { op: Some(op) }),
            },
            Inst::RET => match take(stack, op, Register::Stack) {
                Err(e) => Err(e),
                Ok((v, _)) => match take_list(dump, op, Register::Dump) {
                    Err(e) => Err(e),
                    Ok((st, d1)) => match take_list(d1, op, Register::Dump) {
                        Err(e) => Err(e),
                        Ok((e, d2)) => match take_list(d2, op, Register::Dump) {
                            Err(err) => Err(err),
                            Ok((c, d3)) => Ok(State { stack: st.push(v), env: e, control: c, dump: d3 }),
                        },
                    },
                },
            },
            Inst::DUM => Ok(
                State { stack, env: env.push(Cell::ListCell(Box::new(List::Nil))), control, dump },
            ),
            Inst::JOIN => match take_list(dump, op, Register::Dump) {
                Err(e) => Err(e),
                Ok((c, d)) => Ok(State { stack, env, control: c, dump: d }),
            },
            Inst::SEL => match take_list(control, op, Register::Control) {
                Err(e) => Err(e),
                Ok((then_b, c1)) => match take_list(c1, op, Register::Control) {
                    Err(e) => Err(e),
                    Ok((else_b, c2)) => match take(stack, op, Register::Stack) {
                        Err(e) => Err(e),
                        Ok((p, st)) => {
                            let is_false = p.same(&Cell::ListCell(Box::new(List::Nil)));
                            let next = if is_false {
                                else_b
                            } else {
                                then_b
                            };
                            Ok(
                                State {
                                    stack: st,
                                    env,
                                    control: next,
                                    dump: dump.push(Cell::ListCell(Box::new(c2))),
                                },
                            )
                        },
                    },
                },
            },
            Inst::EQ => match take(stack, op, Register::Stack) {
                Err(e) => Err(e),
                Ok((a, st)) => match take(st, op, Register::Stack) {
                    Err(e) => Err(e),
                    Ok((b, st2)) => {
                        let t = truth_cell(a.same(&b));
                        Ok(State { stack: st2.push(t), env, control, dump })
                    },
                },
            },
            Inst::ATOM => match take(stack, op, Register::Stack) {
                Err(e) => Err(e),
                Ok((x, st)) => {
                    let is_atom = match x {
                        Cell::AtomCell(_) => true,
                        _ => false,
                    };
                    Ok(State { stack: st.push(truth_cell(is_atom)), env, control, dump })
                },
            },
            Inst::CAR => match take(stack, op, Register::Stack) {
                Err(e) => Err(e),
                Ok((Cell::ListCell(l), st)) => match *l {
                    List::Cons(h, _) => Ok(State { stack: st.push(h), env, control, dump }),
                    List::Nil => Err(Error::TypeError { op }),
                },
                Ok(_) => Err(Error::TypeError { op }),
            },
            Inst::CDR => match take(stack, op, Register::Stack) {
                Err(e) => Err(e),
                Ok((Cell::ListCell(l), st)) => match *l {
                    List::Cons(_, t) => Ok(
                        State { stack: st.push(Cell::ListCell(t)), env, control, dump },
                    ),
                    List::Nil => Err(Error::TypeError { op }),
                },
                Ok(_) => Err(Error::TypeError { op }),
            },
            Inst::CONS => match take(stack, op, Register::Stack) {
                Err(e) => Err(e),
                Ok((x, st)) => match take(st, op, Register::Stack) {
                    Err(e) => Err(e),
                    Ok((Cell::ListCell(l), st2)) => Ok(
                        State {
                            stack: st2.push(Cell::ListCell(Box::new(List::Cons(x, l)))),
                            env,
                            control,
                            dump,
                        },
                    ),
                    Ok(_) => Err(Error::TypeError { op }),
                },
            },
            _ => match take_atom(stack, op) {
                Err(e) => Err(e),
                Ok((a, st)) => match take_atom(st, op) {
                    Err(e) => Err(e),
                    Ok((b, st2)) => match op {
                        Inst::ADD | Inst::SUB | Inst::MUL | Inst::DIV | Inst::MOD => match arith_of(
                            op,
                            a,
                            b,
                        ) {
                            Err(e) => Err(e),
                            Ok(r) => Ok(State { stack: st2.push(Cell::AtomCell(r)), env, control, dump }),
                        },
                        _ => match compare_of(op, a, b) {
                            Err(e) => Err(e),
                            Ok(r) => Ok(State { stack: st2.push(truth_cell(r)), env, control, dump }),
                        },
                    },
                },
            },
        }
    }
}

/// Runs `program` from an empty stack, environment and dump until the
/// control register is empty, and returns the final stack. With `limited`
/// the run stops after `STEP_LIMIT` steps; otherwise after `u64::MAX`.
pub fn eval_program(program: List, limited: bool) -> (r: Result<List, Error>)
    ensures
        r == program_result(program, limited),
{
    let limit: u64 = if limited {
        STEP_LIMIT
    } else {
        u64::MAX
    };
    let mut machine = State { stack: List::Nil, env: List::Nil, control: program, dump: List::Nil };
    let mut fuel: u64 = limit;
    while machine.control.peek().is_some()
        invariant
            run(machine, fuel as nat) == run(initial(program), limit_of(limited)),
        decreases fuel,
    {
        if fuel == 0 {
            return Err(Error::StepLimitExceeded);
        }
        machine = match machine.eval() {
            Err(e) => return Err(e),
            Ok(next) => next,
        };
        fuel = fuel - 1;
    }
    Ok(machine.stack)
}

} // verus!
