use vstd::prelude::*;
use crate::cell::{Cell, List};
use crate::compiler::{compile, list_of, lower, lemma_list_of};
use crate::error::{Error, Register};
use crate::parser::parse_source;
use crate::svm::{eval_program, program_result};

verus! {

/// The head of a final stack, which is the program's result.
pub open spec fn head_of(r: Result<List, Error>) -> Result<Cell, Error> {
    match r {
        Err(e) => Err(e),
        Ok(List::Nil) => Err(Error::UnderflowError { op: None, register: Register::Stack }),
        Ok(List::Cons(h, _)) => Ok(h),
    }
}

/// Runs an assembled program under the driver's step bound and returns
/// the cell at the head of its final stack.
pub fn run_program(instructions: List) -> (r: Result<Cell, Error>)
    ensures
        r == head_of(program_result(instructions, true)),
{
    match eval_program(instructions, true) {
        Err(e) => Err(e),
        Ok(List::Nil) => Err(Error::UnderflowError { op: None, register: Register::Stack }),
        Ok(List::Cons(h, _)) => Ok(h),
    }
}

/// Parses, compiles and runs a source text, returning the cell at the head
/// of the final stack.
pub fn run(source: &str) -> (r: Result<Cell, Error>)
    ensures
        match parse_source(source@) {
            Err(x) => r == Err::<Cell, Error>(x),
            Ok(f) => match lower(f, Seq::empty()) {
                Ok(code) => r == head_of(program_result(list_of(code), true)),
                Err(t) => r matches Err(Error::CompileError { form }) && form@ == t,
            },
        },
{
    match compile(source) {
        Err(e) => Err(e),
        Ok(p) => {
            proof {
                lemma_list_of(p);
            }
            run_program(p)
        },
    }
}

} // verus!
