use seax::cell::Atom::{Char, SInt};
use seax::cell::Cell::{AtomCell, ListCell};
use seax::cell::List;
use seax::compiler::compile;
use seax::driver::run;
use seax::svm::eval_program;
use seax::error::{Error, Expected};

fn list(cells: Vec<seax::cell::Cell>) -> List {
    List::from_vec(cells)
}

#[test]
fn run_simple_add() {
    assert_eq!(
        eval_program(compile("(+ 10 10)").unwrap(), true).unwrap().peek(),
        Some(&AtomCell(SInt(20)))
    )
}

#[test]
fn run_nested_arith() {
    assert_eq!(
        eval_program(compile("(- 20 (+ 5 5))").unwrap(), true).unwrap().peek(),
        Some(&AtomCell(SInt(10)))
    )
}

#[test]
fn run_basic_branching_1() {
    assert_eq!(
        eval_program(compile("(if (= 0 (- 1 1)) #t #f)").unwrap(), true).unwrap().peek(),
        Some(&AtomCell(SInt(1)))
    )
}

#[test]
fn run_basic_branching_2() {
    assert_eq!(
        eval_program(compile("(+ 10 (if (nil? nil) 10 20))").unwrap(), true).unwrap().peek(),
        Some(&AtomCell(SInt(20)))
    )
}

#[test]
fn run_lambda_ap() {
    assert_eq!(
        eval_program(compile("((lambda (x y) (+ x y)) 2 3)").unwrap(), true).unwrap().peek(),
        Some(&AtomCell(SInt(5)))
    )
}

#[test]
fn run_nested_lambda() {
    assert_eq!(
        eval_program(compile("((lambda (z) ((lambda (x y) (+ (- x y) z)) 3 5)) 6)").unwrap(), true)
            .unwrap()
            .peek(),
        Some(&AtomCell(SInt(4)))
    )
}

#[test]
fn test_list_construction() {
    assert_eq!(
        eval_program(compile("(cons 10 (cons 20 nil))").unwrap(), true).unwrap().peek(),
        Some(&ListCell(Box::new(list(vec![AtomCell(SInt(10)), AtomCell(SInt(20))]))))
    )
}

#[test]
fn test_list_car() {
    assert_eq!(
        eval_program(compile("(car (cons 20 (cons 10 nil)))").unwrap(), true).unwrap().peek(),
        Some(&AtomCell(SInt(20)))
    )
}

#[test]
fn test_list_cdr() {
    assert_eq!(
        eval_program(compile("(cdr (cons 20 (cons 10 nil)))").unwrap(), true).unwrap().peek(),
        Some(&ListCell(Box::new(list(vec![AtomCell(SInt(10))]))))
    )
}

#[test]
fn run_gives_head_of_stack() {
    assert_eq!(run("(* 6 7)"), Ok(AtomCell(SInt(42))));
    assert_eq!(run("(% -7 2)"), Ok(AtomCell(SInt(-1))));
    assert_eq!(run("(/ -7 2)"), Ok(AtomCell(SInt(-3))));
    assert_eq!(run("(< 1 2)"), Ok(ListCell(Box::new(list(vec![AtomCell(SInt(1))])))));
    assert_eq!(run("(>= 1 2)"), Ok(ListCell(Box::new(List::Nil))));
    assert_eq!(run("#\\x41"), Ok(AtomCell(Char('A'))));
    assert_eq!(run("#\\newline"), Ok(AtomCell(Char('\n'))));
}

#[test]
fn run_is_deterministic() {
    let src = "((lambda (z) ((lambda (x y) (+ (- x y) z)) 3 5)) 6)";
    assert_eq!(run(src), run(src));
    assert_eq!(compile(src), compile(src));
}

#[test]
fn compile_rejects_unknown_forms() {
    assert_eq!(run("(frob 1 2)"), Err(Error::CompileError { form: "frob".to_string() }));
    assert_eq!(run("(+ 1)"), Err(Error::CompileError { form: "+".to_string() }));
    assert_eq!(run("1.5"), Err(Error::CompileError { form: "1.5".to_string() }));
    assert_eq!(run("-2.25"), Err(Error::CompileError { form: "-2.25".to_string() }));
    assert_eq!(run("(+ +3 -4)"), Ok(AtomCell(SInt(-1))));
    assert_eq!(run("y"), Err(Error::CompileError { form: "y".to_string() }));
}

#[test]
fn run_reports_parse_errors() {
    assert_eq!(run("(+ 1 2"), Err(Error::ParseError { position: 6, expected: Expected::CloseParen }));
    assert_eq!(run("1 2"), Err(Error::ParseError { position: 2, expected: Expected::EndOfInput }));
    assert_eq!(run("   "), Err(Error::ParseError { position: 3, expected: Expected::Expression }));
}

#[test]
fn let_binds_values() {
    assert_eq!(run("(let ((x 2) (y 3)) (* x y))"), Ok(AtomCell(SInt(6))));
    assert_eq!(run("(let ((x 10)) (let ((y 4)) (- x y)))"), Ok(AtomCell(SInt(6))));
    assert_eq!(run("(let () 5)"), Ok(AtomCell(SInt(5))));
    assert_eq!(run("(let (x) 1)"), Err(Error::CompileError { form: "let".to_string() }));
    assert_eq!(run("(let ((x 1 2)) x)"), Err(Error::CompileError { form: "let".to_string() }));
}
