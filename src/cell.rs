use vstd::prelude::*;

verus! {

/// A tagged scalar value.
#[derive(Clone, Copy, Debug, PartialEq, Eq, Structural)]
pub enum Atom {
    SInt(i64),
    UInt(u64),
    Char(char),
    Bool(bool),
}

/// The opcodes of the machine.
#[allow(non_camel_case_types)]
#[allow(clippy::upper_case_acronyms)]
#[derive(Clone, Copy, Debug, PartialEq, Eq, Structural)]
pub enum Inst {
    NIL,
    LDC,
    LD,
    LDF,
    AP,
    RAP,
    RET,
    DUM,
    JOIN,
    SEL,
    ADD,
    SUB,
    MUL,
    DIV,
    MOD,
    EQ,
    GT,
    GTE,
    LT,
    LTE,
    ATOM,
    CAR,
    CDR,
    CONS,
}

/// The unit held on every register: an atom, a list or an instruction.
#[derive(Debug, PartialEq, Eq)]
pub enum Cell {
    AtomCell(Atom),
    ListCell(Box<List>),
    InstCell(Inst),
}

/// An immutable singly-linked cons list of cells.
#[derive(Debug, PartialEq, Eq)]
pub enum List {
    Cons(Cell, Box<List>),
    Nil,
}

impl List {
    /// The cells of the list, head first.
    pub open spec fn cells(self) -> Seq<Cell>
        decreases self,
    {
        match self {
            List::Nil => Seq::empty(),
            List::Cons(h, t) => seq![h].add(t.cells()),
        }
    }
}

impl View for List {
    type V = Seq<Cell>;

    open spec fn view(&self) -> Seq<Cell> {
        self.cells()
    }
}

/// The one-cell list `(c)`.
pub open spec fn single(c: Cell) -> List {
    List::Cons(c, Box::new(List::Nil))
}

/// The list cell `(c)`.
pub open spec fn list_cell(l: List) -> Cell {
    Cell::ListCell(Box::new(l))
}

/// Canonical truth: `(1)` for true, the empty list for false.
pub open spec fn truth(b: bool) -> Cell {
    if b {
        list_cell(single(Cell::AtomCell(Atom::SInt(1))))
    } else {
        list_cell(List::Nil)
    }
}

/// Builds the executable canonical truth value.
pub fn truth_cell(b: bool) -> (r: Cell)
    ensures
        r == truth(b),
{
    if b {
        Cell::ListCell(Box::new(List::Cons(Cell::AtomCell(Atom::SInt(1)), Box::new(List::Nil))))
    } else {
        Cell::ListCell(Box::new(List::Nil))
    }
}

impl Cell {
    /// A deep copy of the cell.
    pub fn copy(&self) -> (r: Cell)
        ensures
            r == *self,
        decreases self,
    {
        match self {
            Cell::AtomCell(a) => Cell::AtomCell(*a),
            Cell::InstCell(i) => Cell::InstCell(*i),
            Cell::ListCell(l) => Cell::ListCell(Box::new(l.copy())),
        }
    }

    /// Structural equality of two cells.
    pub fn same(&self, other: &Cell) -> (r: bool)
        ensures
            r == (*self == *other),
        decreases self,
    {
        match (self, other) {
            (Cell::AtomCell(a), Cell::AtomCell(b)) => *a == *b,
            (Cell::InstCell(a), Cell::InstCell(b)) => *a == *b,
            (Cell::ListCell(a), Cell::ListCell(b)) => a.same(b),
            _ => false,
        }
    }
}

impl List {
    /// The empty list.
    pub fn empty() -> (r: List)
        ensures
            r == List::Nil,
            r@ == Seq::<Cell>::empty(),
    {
        List::Nil
    }

    /// The empty list.
    pub fn new() -> (r: List)
        ensures
            r == List::Nil,
            r@ == Seq::<Cell>::empty(),
    {
        List::Nil
    }

    /// A new list with `c` at its head and `self` as its tail.
    pub fn push(self, c: Cell) -> (r: List)
        ensures
            r == List::Cons(c, Box::new(self)),
            r@ == seq![c].add(self@),
    {
        List::Cons(c, Box::new(self))
    }

    /// The head and the tail of the list, or `None` when it is empty.
    pub fn pop(self) -> (r: Option<(Cell, List)>)
        ensures
            self@.len() == 0 <==> r is None,
            self is Nil <==> r is None,
            r matches Some((h, t)) ==> self == List::Cons(h, Box::new(t)) && self@ == seq![h].add(
                t@,
            ),
    {
        match self {
            List::Nil => None,
            List::Cons(h, t) => Some((h, *t)),
        }
    }

    /// The head of the list, or `None` when it is empty.
    pub fn peek(&self) -> (r: Option<&Cell>)
        ensures
            self@.len() == 0 <==> r is None,
            r matches Some(h) ==> self@[0] == *h,
    {
        match self {
            List::Nil => None,
            List::Cons(h, _) => Some(h),
        }
    }

    /// The number of cells in the list.
    pub fn length(&self) -> (r: usize)
        requires
            self@.len() <= usize::MAX,
        ensures
            r == self@.len(),
        decreases self,
    {
        match self {
            List::Nil => 0,
            List::Cons(_, t) => 1 + t.length(),
        }
    }

    /// The cell at zero-based position `i`, or `None` when `i` is past the end.
    pub fn index(&self, i: usize) -> (r: Option<&Cell>)
        ensures
            i < self@.len() ==> r == Some(&self@[i as int]),
            i >= self@.len() ==> r is None,
        decreases self,
    {
        match self {
            List::Nil => None,
            List::Cons(h, t) => {
                if i == 0 {
                    Some(h)
                } else {
                    let r = t.index(i - 1);
                    assert(self@.subrange(1, self@.len() as int) =~= t@);
                    r
                }
            },
        }
    }

    /// A deep copy of the list.
    pub fn copy(&self) -> (r: List)
        ensures
            r == *self,
        decreases self,
    {
        match self {
            List::Nil => List::Nil,
            List::Cons(h, t) => List::Cons(h.copy(), Box::new(t.copy())),
        }
    }

    /// Structural equality of two lists.
    pub fn same(&self, other: &List) -> (r: bool)
        ensures
            r == (*self == *other),
        decreases self,
    {
        match (self, other) {
            (List::Nil, List::Nil) => true,
            (List::Cons(h1, t1), List::Cons(h2, t2)) => h1.same(h2) && t1.same(t2),
            _ => false,
        }
    }

    /// The list holding the cells of `v` in order, `v[0]` at its head.
    pub fn from_vec(v: Vec<Cell>) -> (r: List)
        ensures
            r@ == v@,
    {
        let mut v = v;
        let mut r = List::Nil;
        let ghost orig = v@;
        while v.len() > 0
            invariant
                orig == v@.add(r@),
            decreases v.len(),
        {
            let c = v.pop().unwrap();
            proof {
                assert(orig =~= v@.add(seq![c].add(r@)));
            }
            r = List::Cons(c, Box::new(r));
        }
        assert(v@ =~= Seq::<Cell>::empty());
        assert(orig =~= r@);
        r
    }
}

} // verus!
