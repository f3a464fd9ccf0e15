use vstd::prelude::*;
use crate::cell::{Cell, Inst, List, list_cell, truth};
use crate::svm::{State, closure, cons, regs, step};

verus! {

/// How many cells a successful step of `op` adds to (or, when negative,
/// removes from) the stack, for the opcodes that keep the caller's stack.
pub open spec fn stack_delta(op: Inst) -> int {
    match op {
        Inst::NIL | Inst::LDC | Inst::LD | Inst::LDF => 1,
        Inst::DUM | Inst::JOIN | Inst::ATOM | Inst::CAR | Inst::CDR => 0,
        _ => -1,
    }
}

/// How many cells a successful step of `op` pops off the dump.
pub open spec fn dump_popped(op: Inst) -> int {
    match op {
        Inst::RET => 3,
        Inst::JOIN => 1,
        _ => 0,
    }
}

/// How many cells a successful step of `op` pushes on the dump.
pub open spec fn dump_pushed(op: Inst) -> int {
    match op {
        Inst::AP | Inst::RAP => 3,
        Inst::SEL => 1,
        _ => 0,
    }
}

/// Stack balance: every opcode changes the depth of the stack as its
/// table entry says. `AP` and `RAP` leave the callee an empty stack and
/// save the caller's stack without its two operands; `RET` pushes the
/// result on the saved stack.
pub proof fn lemma_stack_balance(s: State, op: Inst)
    requires
        s.control matches List::Cons(Cell::InstCell(o), _) && o == op,
        step(s) is Ok,
    ensures
        !(op is AP || op is RAP || op is RET) ==> step(s)->Ok_0.stack@.len() == s.stack@.len()
            + stack_delta(op),
        (op is AP || op is RAP) ==> step(s)->Ok_0.stack@.len() == 0,
        (op is AP || op is RAP) ==> (step(s)->Ok_0.dump@[0] matches Cell::ListCell(saved)
            && saved@.len() + 2 == s.stack@.len()),
        op is RET ==> (s.dump@[0] matches Cell::ListCell(saved) && step(s)->Ok_0.stack@.len()
            == saved@.len() + 1),
{
    reveal_with_fuel(List::cells, 3);
}

/// Immutability of the dump: a step pops at most the top cells that its
/// opcode consumes and pushes fresh ones; every cell below stays as it was.
pub proof fn lemma_dump_kept(s: State, op: Inst)
    requires
        s.control matches List::Cons(Cell::InstCell(o), _) && o == op,
        step(s) is Ok,
    ensures
        dump_popped(op) <= s.dump@.len(),
        step(s)->Ok_0.dump@.len() == s.dump@.len() - dump_popped(op) + dump_pushed(op),
        step(s)->Ok_0.dump@.subrange(dump_pushed(op), step(s)->Ok_0.dump@.len() as int)
            == s.dump@.subrange(dump_popped(op), s.dump@.len() as int),
{
    reveal_with_fuel(List::cells, 4);
    let t = step(s)->Ok_0;
    assert(t.dump@.subrange(dump_pushed(op), t.dump@.len() as int) =~= s.dump@.subrange(
        dump_popped(op),
        s.dump@.len() as int,
    ));
}

/// `SEL` runs the then-branch exactly when the predicate is not the empty
/// list, and saves what follows its two operands on the dump.
pub proof fn lemma_sel_branch(s: State, then_b: List, else_b: List, rest: List, p: List, st: List)
    requires
        s.control == cons(Cell::InstCell(Inst::SEL), cons(list_cell(then_b), cons(list_cell(else_b), rest))),
        s.stack == cons(Cell::ListCell(Box::new(p)), st),
    ensures
        step(s) == Ok::<State, crate::error::Error>(
            regs(st, s.env, if !(p is Nil) { then_b } else { else_b }, cons(list_cell(rest), s.dump)),
        ),
{
}

/// `EQ` pushes the canonical true on equal cells and the empty list on
/// different ones.
pub proof fn lemma_eq_truth(s: State, x: Cell, y: Cell, st: List, rest: List)
    requires
        s.control == cons(Cell::InstCell(Inst::EQ), rest),
        s.stack == cons(x, cons(y, st)),
    ensures
        step(s) == Ok::<State, crate::error::Error>(regs(cons(truth(x == y), st), s.env, rest, s.dump)),
        x == y ==> step(s)->Ok_0.stack@[0] == truth(true),
        x != y ==> step(s)->Ok_0.stack@[0] == list_cell(List::Nil),
{
}

/// Frame restoration: after `AP` calls a closure, a `RET` run by the
/// callee on the dump that `AP` left restores the caller's environment and
/// control exactly, and its stack with the callee's result on top.
pub proof fn lemma_frame_restoration(
    s: State,
    body: List,
    cenv: List,
    args: List,
    st: List,
    rest: List,
    callee: State,
    v: Cell,
    callee_stack: List,
    callee_rest: List,
)
    requires
        s.control == cons(Cell::InstCell(Inst::AP), rest),
        s.stack == cons(closure(body, cenv), cons(list_cell(args), st)),
        step(s) is Ok ==> callee.dump == step(s)->Ok_0.dump,
        callee.control == cons(Cell::InstCell(Inst::RET), callee_rest),
        callee.stack == cons(v, callee_stack),
    ensures
        step(s) == Ok::<State, crate::error::Error>(
            regs(
                List::Nil,
                cons(list_cell(args), cenv),
                body,
                cons(list_cell(st), cons(list_cell(s.env), cons(list_cell(rest), s.dump))),
            ),
        ),
        step(callee) == Ok::<State, crate::error::Error>(regs(cons(v, st), s.env, rest, s.dump)),
{
}

} // verus!
