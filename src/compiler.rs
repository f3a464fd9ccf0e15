use vstd::prelude::*;
use crate::ast::{Form, NumVal};
use crate::cell::{Atom, Cell, Inst, List, list_cell};

verus! {

/// The list holding the cells of `s`, `s[0]` at its head.
pub open spec fn list_of(s: Seq<Cell>) -> List
    decreases s.len(),
{
    if s.len() == 0 {
        List::Nil
    } else {
        List::Cons(s[0], Box::new(list_of(s.drop_first())))
    }
}

/// A list is the cons chain of its own cells.
pub proof fn lemma_list_of(l: List)
    ensures
        list_of(l@) == l,
    decreases l,
{
    match l {
        List::Nil => {},
        List::Cons(h, t) => {
            lemma_list_of(*t);
            assert(l@.drop_first() =~= t@);
        },
    }
}

/// The cell of an opcode.
pub open spec fn op(i: Inst) -> Cell {
    Cell::InstCell(i)
}

/// The code point of a character.
pub open spec fn code_of(c: char) -> u32 {
    c as u32
}

/// The character with code point `code`.
pub open spec fn char_of(code: u32) -> char {
    choose|c: char| #[trigger] code_of(c) == code
}

/// The sign written before a negative number.
pub open spec fn sign_text(negative: bool) -> Seq<char> {
    if negative {
        seq!['-']
    } else {
        Seq::empty()
    }
}

/// Code that loads the constant `a`.
pub open spec fn load(a: Atom) -> Seq<Cell> {
    seq![op(Inst::LDC), Cell::AtomCell(a)]
}

/// A nested block of code, as `SEL` and `LDF` take it.
pub open spec fn block(code: Seq<Cell>) -> Cell {
    list_cell(list_of(code))
}

/// The `(level pos)` operand of `LD`.
pub open spec fn address_cell(level: i64, pos: i64) -> Cell {
    block(seq![Cell::AtomCell(Atom::SInt(level)), Cell::AtomCell(Atom::SInt(pos))])
}

/// Concatenates the code of two compilations, keeping the first failure.
pub open spec fn join(a: Result<Seq<Cell>, Seq<char>>, b: Result<Seq<Cell>, Seq<char>>) -> Result<
    Seq<Cell>,
    Seq<char>,
> {
    match a {
        Err(x) => Err(x),
        Ok(x) => match b {
            Err(y) => Err(y),
            Ok(y) => Ok(x.add(y)),
        },
    }
}

/// The first position of `n` in `frame` at or after `j`.
pub open spec fn position_in(frame: Seq<Seq<char>>, n: Seq<char>, j: int) -> Option<int>
    decreases frame.len() - j,
{
    if j < 0 || j >= frame.len() {
        None
    } else if frame[j] == n {
        Some(j)
    } else {
        position_in(frame, n, j + 1)
    }
}

/// The innermost binding of `n` at or below `level`: its level and position.
pub open spec fn locate(env: Seq<Seq<Seq<char>>>, n: Seq<char>, level: int) -> Option<(int, int)>
    decreases env.len() - level,
{
    if level < 0 || level >= env.len() {
        None
    } else {
        match position_in(env[level], n, 0) {
            Some(p) => Some((level, p)),
            None => locate(env, n, level + 1),
        }
    }
}

/// The opcode of a two-operand primitive.
pub open spec fn binary_op(n: Seq<char>) -> Option<Inst> {
    if n == "+"@ {
        Some(Inst::ADD)
    } else if n == "-"@ {
        Some(Inst::SUB)
    } else if n == "*"@ {
        Some(Inst::MUL)
    } else if n == "/"@ {
        Some(Inst::DIV)
    } else if n == "%"@ {
        Some(Inst::MOD)
    } else if n == "="@ {
        Some(Inst::EQ)
    } else if n == ">"@ {
        Some(Inst::GT)
    } else if n == ">="@ {
        Some(Inst::GTE)
    } else if n == "<"@ {
        Some(Inst::LT)
    } else if n == "<="@ {
        Some(Inst::LTE)
    } else {
        None
    }
}

/// The code that follows the operand of a one-operand primitive.
pub open spec fn unary_op(n: Seq<char>) -> Option<Seq<Cell>> {
    if n == "car"@ {
        Some(seq![op(Inst::CAR)])
    } else if n == "cdr"@ {
        Some(seq![op(Inst::CDR)])
    } else if n == "atom?"@ {
        Some(seq![op(Inst::ATOM)])
    } else if n == "nil?"@ {
        Some(seq![op(Inst::NIL), op(Inst::EQ)])
    } else {
        None
    }
}

/// The parameter names of a lambda: a parenthesised list of names.
pub open spec fn params_of(f: Form) -> Option<Seq<Seq<char>>> {
    match f {
        Form::Apply(x, xs) => if forall|i: int| 0 <= i < xs.len() ==> xs[i] is Name {
            Some(seq![x].add(Seq::new(xs.len(), |i: int| xs[i]->Name_0)))
        } else {
            None
        },
        Form::List(xs) => if forall|i: int| 0 <= i < xs.len() ==> xs[i] is Name {
            Some(Seq::new(xs.len(), |i: int| xs[i]->Name_0))
        } else {
            None
        },
        _ => None,
    }
}

/// Code for a variable or `nil`.
pub open spec fn lower_name(n: Seq<char>, env: Seq<Seq<Seq<char>>>) -> Result<Seq<Cell>, Seq<char>> {
    if n == "nil"@ {
        Ok(seq![op(Inst::NIL)])
    } else {
        match locate(env, n, 0) {
            Some((l, p)) => if l <= i64::MAX && p <= i64::MAX {
                Ok(seq![op(Inst::LD), address_cell(l as i64, p as i64)])
            } else {
                Err(n)
            },
            None => Err(n),
        }
    }
}

/// Code that pushes the list of the values of `xs[i..]`.
pub open spec fn lower_args(xs: Seq<Form>, i: int, env: Seq<Seq<Seq<char>>>) -> Result<
    Seq<Cell>,
    Seq<char>,
>
    decreases xs, xs.len() - i,
{
    if i < 0 || i >= xs.len() {
        Ok(seq![op(Inst::NIL)])
    } else {
        join(join(lower_args(xs, i + 1, env), lower(xs[i], env)), Ok(seq![op(Inst::CONS)]))
    }
}

/// Whether `bs` are `let` bindings: each is `(x e)`, a name and one value.
pub open spec fn is_bindings(bs: Seq<Form>) -> bool {
    forall|i: int| 0 <= i < bs.len() ==> (#[trigger] bs[i]) is Apply && bs[i]->Apply_1.len() == 1
}

/// The names that `let` bindings bind.
pub open spec fn binding_names(bs: Seq<Form>) -> Seq<Seq<char>> {
    Seq::new(bs.len(), |i: int| bs[i]->Apply_0)
}

/// Code that pushes the list of the values of the bindings `bs[i..]`.
pub open spec fn lower_bindings(bs: Seq<Form>, i: int, env: Seq<Seq<Seq<char>>>) -> Result<
    Seq<Cell>,
    Seq<char>,
>
    decreases bs, bs.len() - i,
{
    if i < 0 || i >= bs.len() {
        Ok(seq![op(Inst::NIL)])
    } else {
        match bs[i] {
            Form::Apply(_, vs) => if vs.len() == 1 {
                join(join(lower_bindings(bs, i + 1, env), lower(vs[0], env)), Ok(seq![op(Inst::CONS)]))
            } else {
                Err(Seq::empty())
            },
            _ => Err(Seq::empty()),
        }
    }
}

/// The code of an expression under the names bound in `env` (innermost
/// frame first), or the text of the first form that cannot be lowered.
/// `(let ((x e) ...) body)` is lowered as `((lambda (x ...) body) e ...)`.
pub open spec fn lower(f: Form, env: Seq<Seq<Seq<char>>>) -> Result<Seq<Cell>, Seq<char>>
    decreases f, 0int,
{
    match f {
        Form::Num(NumVal::Int(v)) => Ok(load(Atom::SInt(v))),
        Form::Num(NumVal::UInt(v)) => Ok(load(Atom::UInt(v))),
        Form::Num(NumVal::Float(neg, w, x)) => Err(sign_text(neg).add(w).add(seq!['.']).add(x)),
        Form::Bool(b) => Ok(if b { load(Atom::SInt(1)) } else { seq![op(Inst::NIL)] }),
        Form::Char(code) => Ok(load(Atom::Char(char_of(code)))),
        Form::Name(n) => lower_name(n, env),
        Form::List(xs) => if xs.len() == 0 {
            Ok(seq![op(Inst::NIL)])
        } else {
            join(join(lower_args(xs, 1, env), lower(xs[0], env)), Ok(seq![op(Inst::AP)]))
        },
        Form::Apply(n, xs) => if binary_op(n) is Some {
            if xs.len() == 2 {
                join(join(lower(xs[1], env), lower(xs[0], env)), Ok(seq![op(binary_op(n)->0)]))
            } else {
                Err(n)
            }
        } else if unary_op(n) is Some {
            if xs.len() == 1 {
                join(lower(xs[0], env), Ok(unary_op(n)->0))
            } else {
                Err(n)
            }
        } else if n == "cons"@ {
            if xs.len() == 2 {
                join(join(lower(xs[1], env), lower(xs[0], env)), Ok(seq![op(Inst::CONS)]))
            } else {
                Err(n)
            }
        } else if n == "if"@ {
            if xs.len() == 3 {
                match (
                    lower(xs[0], env),
                    join(lower(xs[1], env), Ok(seq![op(Inst::JOIN)])),
                    join(lower(xs[2], env), Ok(seq![op(Inst::JOIN)])),
                ) {
                    (Err(x), _, _) => Err(x),
                    (Ok(_), Err(x), _) => Err(x),
                    (Ok(_), Ok(_), Err(x)) => Err(x),
                    (Ok(c), Ok(t), Ok(e)) => Ok(c.add(seq![op(Inst::SEL), block(t), block(e)])),
                }
            } else {
                Err(n)
            }
        } else if n == "lambda"@ {
            if xs.len() == 2 && params_of(xs[0]) is Some {
                match join(lower(xs[1], seq![params_of(xs[0])->0].add(env)), Ok(seq![op(Inst::RET)])) {
                    Err(x) => Err(x),
                    Ok(body) => Ok(seq![op(Inst::LDF), block(body)]),
                }
            } else {
                Err(n)
            }
        } else if n == "let"@ {
            if xs.len() == 2 {
                match xs[0] {
                    Form::List(bs) => if is_bindings(bs) {
                        join(
                            join(
                                lower_bindings(bs, 0, env),
                                match join(
                                    lower(xs[1], seq![binding_names(bs)].add(env)),
                                    Ok(seq![op(Inst::RET)]),
                                ) {
                                    Err(x) => Err(x),
                                    Ok(body) => Ok(seq![op(Inst::LDF), block(body)]),
                                },
                            ),
                            Ok(seq![op(Inst::AP)]),
                        )
                    } else {
                        Err(n)
                    },
                    _ => Err(n),
                }
            } else {
                Err(n)
            }
        } else {
            join(join(lower_args(xs, 0, env), lower_name(n, env)), Ok(seq![op(Inst::AP)]))
        },
    }
}

} // verus!

verus! {

use crate::ast::{ExprNode, NumNode, form, forms};
use crate::error::Error;
use crate::parser::same_text;

/// The names of an environment, innermost frame first.
pub open spec fn env_view(env: Seq<Vec<String>>) -> Seq<Seq<Seq<char>>> {
    Seq::new(env.len(), |i: int| Seq::new(env[i]@.len(), |j: int| env[i]@[j]@))
}

/// The code, or the failing form's text, of an executable compilation.
pub open spec fn code_view(r: Result<Vec<Cell>, String>) -> Result<Seq<Cell>, Seq<char>> {
    match r {
        Ok(v) => Ok(v@),
        Err(s) => Err(s@),
    }
}

fn inst(i: Inst) -> (r: Cell)
    ensures
        r == op(i),
{
    Cell::InstCell(i)
}

/// The list holding the cells of `v`.
fn block_of(v: Vec<Cell>) -> (r: Cell)
    ensures
        r == block(v@),
{
    let l = List::from_vec(v);
    proof {
        lemma_list_of(l);
    }
    Cell::ListCell(Box::new(l))
}

fn load_code(a: Atom) -> (r: Vec<Cell>)
    ensures
        r@ == load(a),
{
    let mut v: Vec<Cell> = Vec::new();
    v.push(inst(Inst::LDC));
    v.push(Cell::AtomCell(a));
    assert(v@ =~= load(a));
    v
}

fn single_code(i: Inst) -> (r: Vec<Cell>)
    ensures
        r@ == seq![op(i)],
{
    let mut v: Vec<Cell> = Vec::new();
    v.push(inst(i));
    assert(v@ =~= seq![op(i)]);
    v
}

/// Appends `b` to `a`.
fn concat(a: Vec<Cell>, b: Vec<Cell>) -> (r: Vec<Cell>)
    ensures
        r@ == a@.add(b@),
{
    let mut a = a;
    let mut b = b;
    a.append(&mut b);
    a
}

fn copy_chars(v: &Vec<char>) -> (r: Vec<char>)
    ensures
        r@ == v@,
{
    let mut r: Vec<char> = Vec::new();
    let mut i: usize = 0;
    while i < v.len()
        invariant
            i <= v@.len(),
            r@ == v@.subrange(0, i as int),
        decreases v@.len() - i,
    {
        r.push(v[i]);
        i = i + 1;
        assert(r@ =~= v@.subrange(0, i as int));
    }
    assert(r@ =~= v@);
    r
}

/// The innermost binding of `n` in `env`.
fn locate_in(env: &Vec<Vec<String>>, n: &String) -> (r: Option<(usize, usize)>)
    ensures
        r matches Some((l, p)) ==> locate(env_view(env@), n@, 0) == Some((l as int, p as int)),
        r is None ==> locate(env_view(env@), n@, 0) is None,
{
    let ghost ev = env_view(env@);
    let mut l: usize = 0;
    while l < env.len()
        invariant
            l <= env@.len(),
            ev == env_view(env@),
            locate(ev, n@, 0) == locate(ev, n@, l as int),
        decreases env@.len() - l,
    {
        let frame = &env[l];
        let ghost fv = ev[l as int];
        let mut p: usize = 0;
        while p < frame.len()
            invariant
                p <= frame@.len(),
                l < env@.len(),
                ev == env_view(env@),
                frame == &env@[l as int],
                locate(ev, n@, 0) == locate(ev, n@, l as int),
                fv == ev[l as int],
                fv.len() == frame@.len(),
                forall|j: int| 0 <= j < frame@.len() ==> fv[j] == frame@[j]@,
                position_in(fv, n@, 0) == position_in(fv, n@, p as int),
            decreases frame@.len() - p,
        {
            if same_text(frame[p].as_str(), n.as_str()) {
                return Some((l, p));
            }
            p = p + 1;
        }
        l = l + 1;
    }
    None
}

fn name_code(n: &String, env: &Vec<Vec<String>>) -> (r: Result<Vec<Cell>, String>)
    ensures
        code_view(r) == lower_name(n@, env_view(env@)),
{
    if same_text(n.as_str(), "nil") {
        return Ok(single_code(Inst::NIL));
    }
    match locate_in(env, n) {
        Some((l, p)) => if l as u64 <= 9223372036854775807u64 && p as u64 <= 9223372036854775807u64 {
            let mut a: Vec<Cell> = Vec::new();
            a.push(Cell::AtomCell(Atom::SInt(l as i64)));
            a.push(Cell::AtomCell(Atom::SInt(p as i64)));
            assert(a@ =~= seq![
                Cell::AtomCell(Atom::SInt(l as i64)),
                Cell::AtomCell(Atom::SInt(p as i64)),
            ]);
            let mut v: Vec<Cell> = Vec::new();
            v.push(inst(Inst::LD));
            v.push(block_of(a));
            assert(v@ =~= seq![op(Inst::LD), address_cell(l as i64, p as i64)]);
            Ok(v)
        } else {
            Err(n.clone())
        },
        None => Err(n.clone()),
    }
}

fn binary_of(n: &String) -> (r: Option<Inst>)
    ensures
        r == binary_op(n@),
{
    let s = n.as_str();
    if same_text(s, "+") {
        Some(Inst::ADD)
    } else if same_text(s, "-") {
        Some(Inst::SUB)
    } else if same_text(s, "*") {
        Some(Inst::MUL)
    } else if same_text(s, "/") {
        Some(Inst::DIV)
    } else if same_text(s, "%") {
        Some(Inst::MOD)
    } else if same_text(s, "=") {
        Some(Inst::EQ)
    } else if same_text(s, ">") {
        Some(Inst::GT)
    } else if same_text(s, ">=") {
        Some(Inst::GTE)
    } else if same_text(s, "<") {
        Some(Inst::LT)
    } else if same_text(s, "<=") {
        Some(Inst::LTE)
    } else {
        None
    }
}

fn unary_of(n: &String) -> (r: Option<Vec<Cell>>)
    ensures
        r matches Some(v) ==> unary_op(n@) == Some(v@),
        r is None ==> unary_op(n@) is None,
{
    let s = n.as_str();
    if same_text(s, "car") {
        Some(single_code(Inst::CAR))
    } else if same_text(s, "cdr") {
        Some(single_code(Inst::CDR))
    } else if same_text(s, "atom?") {
        Some(single_code(Inst::ATOM))
    } else if same_text(s, "nil?") {
        let mut v = single_code(Inst::NIL);
        v.push(inst(Inst::EQ));
        assert(v@ =~= seq![op(Inst::NIL), op(Inst::EQ)]);
        Some(v)
    } else {
        None
    }
}

/// The names of `xs`, when each of them is a name.
fn names_of(xs: &Vec<ExprNode>) -> (r: Option<Vec<String>>)
    ensures
        (forall|i: int| 0 <= i < xs@.len() ==> form(xs@[i]) is Name) <==> r is Some,
        r matches Some(v) ==> v@.len() == xs@.len() && forall|i: int|
            0 <= i < xs@.len() ==> v@[i]@ == form(xs@[i])->Name_0,
{
    let mut v: Vec<String> = Vec::new();
    let mut i: usize = 0;
    while i < xs.len()
        invariant
            i <= xs@.len(),
            v@.len() == i,
            forall|j: int|
                0 <= j < i ==> #[trigger] form(xs@[j]) is Name && v@[j]@ == form(xs@[j])->Name_0,
        decreases xs@.len() - i,
    {
        match &xs[i] {
            ExprNode::Name(n) => {
                assert(form(xs@[i as int]) == Form::Name(n.name@));
                let c = n.name.clone();
                let ghost prev = v@;
                v.push(c);
                assert forall|j: int| 0 <= j < i + 1 implies #[trigger] form(xs@[j]) is Name
                    && v@[j]@ == form(xs@[j])->Name_0 by {
                    if j < i {
                        assert(v@[j] == prev[j]);
                    }
                }
            },
            _ => {
                assert(!(form(xs@[i as int]) is Name));
                return None;
            },
        }
        i = i + 1;
    }
    Some(v)
}

/// The parameters of a lambda (see `params_of`).
fn params(e: &ExprNode) -> (r: Option<Vec<String>>)
    ensures
        r matches Some(v) ==> params_of(form(*e)) == Some(Seq::new(v@.len(), |j: int| v@[j]@)),
        r is None ==> params_of(form(*e)) is None,
{
    match e {
        ExprNode::SExpr(s) => {
            let ghost xs = forms(s.operands@);
            assert(form(*e) == Form::Apply(s.operator.name@, xs)) by {
                assert(xs =~= form(*e)->Apply_1);
            }
            match names_of(&s.operands) {
                None => {
                    proof {
                        let i = choose|i: int|
                            0 <= i < s.operands@.len() && !(#[trigger] form(s.operands@[i]) is Name);
                        assert(xs[i] == form(s.operands@[i]));
                    }
                    None
                },
                Some(names) => {
                    let mut v: Vec<String> = Vec::new();
                    v.push(s.operator.name.clone());
                    let mut rest = names;
                    v.append(&mut rest);
                    assert(Seq::new(v@.len(), |j: int| v@[j]@) =~= seq![s.operator.name@].add(
                        Seq::new(xs.len(), |i: int| xs[i]->Name_0),
                    ));
                    Some(v)
                },
            }
        },
        ExprNode::ListConst(l) => {
            let ghost xs = forms(l.elements@);
            assert(form(*e) == Form::List(xs)) by {
                assert(xs =~= form(*e)->List_0);
            }
            match names_of(&l.elements) {
                None => {
                    proof {
                        let i = choose|i: int|
                            0 <= i < l.elements@.len() && !(#[trigger] form(l.elements@[i]) is Name);
                        assert(xs[i] == form(l.elements@[i]));
                    }
                    None
                },
                Some(names) => {
                    assert(Seq::new(names@.len(), |j: int| names@[j]@) =~= Seq::new(
                        xs.len(),
                        |i: int| xs[i]->Name_0,
                    ));
                    Some(names)
                },
            }
        },
        _ => None,
    }
}

} // verus!

verus! {

/// Code that pushes the list of the values of `xs[i..]`.
fn args_code(xs: &Vec<ExprNode>, i: usize, env: &mut Vec<Vec<String>>) -> (r: Result<
    Vec<Cell>,
    String,
>)
    ensures
        code_view(r) == lower_args(forms(xs@), i as int, env_view(old(env)@)),
        final(env)@ == old(env)@,
    decreases xs@, xs@.len() - i,
{
    if i >= xs.len() {
        return Ok(single_code(Inst::NIL));
    }
    let rest = match args_code(xs, i + 1, env) {
        Err(x) => return Err(x),
        Ok(c) => c,
    };
    let item = match compile_expr(&xs[i], env) {
        Err(x) => return Err(x),
        Ok(c) => c,
    };
    Ok(concat(concat(rest, item), single_code(Inst::CONS)))
}

/// The names of `let` bindings `((x e) ...)`, when each binding is a name
/// with one value.
fn binding_names_of(bs: &Vec<ExprNode>) -> (r: Option<Vec<String>>)
    ensures
        is_bindings(forms(bs@)) <==> r is Some,
        r matches Some(v) ==> Seq::new(v@.len(), |j: int| v@[j]@) == binding_names(forms(bs@)),
{
    let ghost fs = forms(bs@);
    let mut v: Vec<String> = Vec::new();
    let mut i: usize = 0;
    while i < bs.len()
        invariant
            i <= bs@.len(),
            fs == forms(bs@),
            v@.len() == i,
            forall|j: int|
                0 <= j < i ==> (#[trigger] fs[j]) is Apply && fs[j]->Apply_1.len() == 1 && v@[j]@
                    == fs[j]->Apply_0,
        decreases bs@.len() - i,
    {
        match &bs[i] {
            ExprNode::SExpr(b) => {
                if b.operands.len() != 1 {
                    assert(!(fs[i as int] is Apply && fs[i as int]->Apply_1.len() == 1));
                    return None;
                }
                let ghost prev = v@;
                v.push(b.operator.name.clone());
                assert forall|j: int| 0 <= j < i + 1 implies (#[trigger] fs[j]) is Apply
                    && fs[j]->Apply_1.len() == 1 && v@[j]@ == fs[j]->Apply_0 by {
                    if j < i {
                        assert(v@[j] == prev[j]);
                    }
                }
            },
            _ => {
                assert(!(fs[i as int] is Apply));
                return None;
            },
        }
        i = i + 1;
    }
    assert(Seq::new(v@.len(), |j: int| v@[j]@) =~= binding_names(fs));
    Some(v)
}

/// Code that pushes the list of the values of the bindings `bs[i..]`.
fn bindings_code(bs: &Vec<ExprNode>, i: usize, env: &mut Vec<Vec<String>>) -> (r: Result<
    Vec<Cell>,
    String,
>)
    requires
        is_bindings(forms(bs@)),
    ensures
        code_view(r) == lower_bindings(forms(bs@), i as int, env_view(old(env)@)),
        final(env)@ == old(env)@,
    decreases bs@, bs@.len() - i,
{
    if i >= bs.len() {
        return Ok(single_code(Inst::NIL));
    }
    let ghost fs = forms(bs@);
    assert(fs[i as int] is Apply);
    let rest = match bindings_code(bs, i + 1, env) {
        Err(x) => return Err(x),
        Ok(c) => c,
    };
    match &bs[i] {
        ExprNode::SExpr(b) => {
            assert(forms(b.operands@) =~= fs[i as int]->Apply_1);
            let value = match compile_expr(&b.operands[0], env) {
                Err(x) => return Err(x),
                Ok(c) => c,
            };
            Ok(concat(concat(rest, value), single_code(Inst::CONS)))
        },
        _ => Ok(rest),
    }
}

/// Lowers `(let ((x e) ...) body)` as `((lambda (x ...) body) e ...)`.
fn compile_let(e: &ExprNode, env: &mut Vec<Vec<String>>) -> (r: Result<Vec<Cell>, String>)
    requires
        e is SExpr,
        e->SExpr_0.operator.name@ == "let"@,
    ensures
        code_view(r) == lower(form(*e), env_view(old(env)@)),
        final(env)@ == old(env)@,
    decreases *e, 0int,
{
    let s = match e {
        ExprNode::SExpr(s) => s,
        _ => return Err(String::new()),
    };
    let ghost xs = forms(s.operands@);
    assert(form(*e) == Form::Apply(s.operator.name@, xs)) by {
        assert(xs =~= form(*e)->Apply_1);
    }
    proof {
        reveal_strlit("let");
        reveal_strlit("+");
        reveal_strlit("-");
        reveal_strlit("*");
        reveal_strlit("/");
        reveal_strlit("%");
        reveal_strlit("=");
        reveal_strlit(">");
        reveal_strlit(">=");
        reveal_strlit("<");
        reveal_strlit("<=");
        reveal_strlit("car");
        reveal_strlit("cdr");
        reveal_strlit("atom?");
        reveal_strlit("nil?");
        reveal_strlit("cons");
        reveal_strlit("if");
        reveal_strlit("lambda");
    }
    let ops = &s.operands;
    let ghost n = s.operator.name@;
    assert(n =~= seq!['l', 'e', 't']);
    assert(binary_op(n) is None);
    assert(unary_op(n) is None);
    assert(n != "cons"@ && n != "if"@ && n != "lambda"@);
    assert(xs.len() == ops@.len());
    if ops.len() != 2 {
        return Err(s.operator.name.clone());
    }
    assert(xs[0] == form(ops@[0]));
    assert(xs[1] == form(ops@[1]));
    let bs = match &ops[0] {
        ExprNode::ListConst(l) => &l.elements,
        _ => return Err(s.operator.name.clone()),
    };
    assert(forms(bs@) =~= xs[0]->List_0);
    let names = match binding_names_of(bs) {
        None => return Err(s.operator.name.clone()),
        Some(v) => v,
    };
    let args = match bindings_code(bs, 0, env) {
        Err(x) => return Err(x),
        Ok(c) => c,
    };
    let ghost before = env@;
    env.insert(0, names);
    assert(env_view(env@) =~= seq![binding_names(forms(bs@))].add(env_view(before)));
    let body = compile_expr(&ops[1], env);
    let _ = env.remove(0);
    assert(env@ =~= before);
    let body = match body {
        Err(x) => return Err(x),
        Ok(c) => concat(c, single_code(Inst::RET)),
    };
    let mut f: Vec<Cell> = Vec::new();
    f.push(inst(Inst::LDF));
    f.push(block_of(body));
    assert(f@ =~= seq![op(Inst::LDF), block(body@)]);
    Ok(concat(concat(args, f), single_code(Inst::AP)))
}

/// The error text of a float constant, which has no lowering.
fn float_text(negative: bool, whole: &Vec<char>, fraction: &Vec<char>) -> (r: String)
    ensures
        r@ == sign_text(negative).add(whole@).add(seq!['.']).add(fraction@),
{
    let mut v: Vec<char> = Vec::new();
    if negative {
        v.push('-');
    }
    let mut w = copy_chars(whole);
    v.append(&mut w);
    assert(v@ =~= sign_text(negative).add(whole@));
    v.push('.');
    let mut f = copy_chars(fraction);
    v.append(&mut f);
    crate::parser::text_of(&v)
}

/// Lowers an expression to machine code under the names bound in `env`,
/// innermost frame first.
fn compile_expr(e: &ExprNode, env: &mut Vec<Vec<String>>) -> (r: Result<Vec<Cell>, String>)
    ensures
        code_view(r) == lower(form(*e), env_view(old(env)@)),
        final(env)@ == old(env)@,
    decreases *e, 1int,
{
    match e {
        ExprNode::NumConst(NumNode::IntConst(i)) => Ok(load_code(Atom::SInt(i.value))),
        ExprNode::NumConst(NumNode::UIntConst(u)) => Ok(load_code(Atom::UInt(u.value))),
        ExprNode::NumConst(NumNode::FloatConst(f)) => Err(float_text(f.negative, &f.whole, &f.fraction)),
        ExprNode::BoolConst(b) => if b.value {
            Ok(load_code(Atom::SInt(1)))
        } else {
            Ok(single_code(Inst::NIL))
        },
        ExprNode::CharConst(c) => {
            proof {
                let x = char_of(c.value as u32);
                assert(code_of(c.value) == c.value as u32);
                assert(code_of(x) == c.value as u32);
                assert(x == c.value);
                assert(form(*e) == Form::Char(c.value as u32));
            }
            Ok(load_code(Atom::Char(c.value)))
        },
        ExprNode::Name(n) => name_code(&n.name, env),
        ExprNode::ListConst(l) => {
            let ghost xs = forms(l.elements@);
            assert(form(*e) == Form::List(xs)) by {
                assert(xs =~= form(*e)->List_0);
            }
            if l.elements.len() == 0 {
                return Ok(single_code(Inst::NIL));
            }
            let a = match args_code(&l.elements, 1, env) {
                Err(x) => return Err(x),
                Ok(c) => c,
            };
            let f = match compile_expr(&l.elements[0], env) {
                Err(x) => return Err(x),
                Ok(c) => c,
            };
            Ok(concat(concat(a, f), single_code(Inst::AP)))
        },
        ExprNode::SExpr(s) => {
            let ghost xs = forms(s.operands@);
            assert(form(*e) == Form::Apply(s.operator.name@, xs)) by {
                assert(xs =~= form(*e)->Apply_1);
            }
            let n = &s.operator.name;
            let ops = &s.operands;
            if let Some(b) = binary_of(n) {
                if ops.len() != 2 {
                    return Err(n.clone());
                }
                let right = match compile_expr(&ops[1], env) {
                    Err(x) => return Err(x),
                    Ok(c) => c,
                };
                let left = match compile_expr(&ops[0], env) {
                    Err(x) => return Err(x),
                    Ok(c) => c,
                };
                let r = concat(concat(right, left), single_code(b));
                assert(binary_op(n@) == Some(b));
                assert(r@ == lower(form(*e), env_view(old(env)@))->Ok_0);
                Ok(r)
            } else if let Some(u) = unary_of(n) {
                if ops.len() != 1 {
                    return Err(n.clone());
                }
                let arg = match compile_expr(&ops[0], env) {
                    Err(x) => return Err(x),
                    Ok(c) => c,
                };
                Ok(concat(arg, u))
            } else if same_text(n.as_str(), "cons") {
                if ops.len() != 2 {
                    return Err(n.clone());
                }
                let tail = match compile_expr(&ops[1], env) {
                    Err(x) => return Err(x),
                    Ok(c) => c,
                };
                let head = match compile_expr(&ops[0], env) {
                    Err(x) => return Err(x),
                    Ok(c) => c,
                };
                Ok(concat(concat(tail, head), single_code(Inst::CONS)))
            } else if same_text(n.as_str(), "if") {
                if ops.len() != 3 {
                    return Err(n.clone());
                }
                let test = match compile_expr(&ops[0], env) {
                    Err(x) => return Err(x),
                    Ok(c) => c,
                };
                let then_b = match compile_expr(&ops[1], env) {
                    Err(x) => return Err(x),
                    Ok(c) => concat(c, single_code(Inst::JOIN)),
                };
                let else_b = match compile_expr(&ops[2], env) {
                    Err(x) => return Err(x),
                    Ok(c) => concat(c, single_code(Inst::JOIN)),
                };
                let mut tail: Vec<Cell> = Vec::new();
                tail.push(inst(Inst::SEL));
                tail.push(block_of(then_b));
                tail.push(block_of(else_b));
                let r = concat(test, tail);
                assert(r@ == lower(form(*e), env_view(old(env)@))->Ok_0);
                Ok(r)
            } else if same_text(n.as_str(), "lambda") {
                if ops.len() != 2 {
                    return Err(n.clone());
                }
                let p = match params(&ops[0]) {
                    None => return Err(n.clone()),
                    Some(p) => p,
                };
                let ghost before = env@;
                env.insert(0, p);
                assert(env_view(env@) =~= seq![params_of(xs[0])->0].add(env_view(before)));
                let body = compile_expr(&ops[1], env);
                let _ = env.remove(0);
                assert(env@ =~= before);
                let body = match body {
                    Err(x) => return Err(x),
                    Ok(c) => concat(c, single_code(Inst::RET)),
                };
                let mut v: Vec<Cell> = Vec::new();
                v.push(inst(Inst::LDF));
                v.push(block_of(body));
                assert(v@ == lower(form(*e), env_view(old(env)@))->Ok_0);
                Ok(v)
            } else if same_text(n.as_str(), "let") {
                compile_let(e, env)
            } else {
                let a = match args_code(ops, 0, env) {
                    Err(x) => return Err(x),
                    Ok(c) => c,
                };
                let f = match name_code(n, env) {
                    Err(x) => return Err(x),
                    Ok(c) => c,
                };
                Ok(concat(concat(a, f), single_code(Inst::AP)))
            }
        },
    }
}

} // verus!

verus! {

/// Lowers a parsed expression, with no names bound, to a program.
pub fn compile_expr_node(e: &ExprNode) -> (r: Result<List, Error>)
    ensures
        match lower(form(*e), Seq::empty()) {
            Ok(code) => r matches Ok(l) && l@ == code,
            Err(t) => r matches Err(Error::CompileError { form }) && form@ == t,
        },
{
    let mut env: Vec<Vec<String>> = Vec::new();
    assert(env_view(env@) =~= Seq::<Seq<Seq<char>>>::empty());
    match compile_expr(e, &mut env) {
        Ok(code) => Ok(List::from_vec(code)),
        Err(t) => Err(Error::CompileError { form: t }),
    }
}

/// Parses a source text and lowers it to a program.
pub fn compile(src: &str) -> (r: Result<List, Error>)
    ensures
        match crate::parser::parse_source(src@) {
            Err(x) => r == Err::<List, Error>(x),
            Ok(f) => match lower(f, Seq::empty()) {
                Ok(code) => r matches Ok(l) && l@ == code,
                Err(t) => r matches Err(Error::CompileError { form }) && form@ == t,
            },
        },
{
    match crate::parser::parse(src) {
        Err(x) => Err(x),
        Ok(e) => compile_expr_node(&e),
    }
}

} // verus!
