use move_scanner::bytecode::{Bytecode, FunctionInfo, Operation};
use move_scanner::detect::detect1::detect_unchecked_return;
use move_scanner::detect::detect3::detect_precision_loss;

fn call(name: &str, dsts: Vec<usize>, srcs: Vec<usize>) -> Bytecode {
    Bytecode::Call { dsts, op: Operation::Function { name: name.to_string() }, srcs }
}

fn destroy(t: usize) -> Bytecode {
    Bytecode::Call { dsts: vec![], op: Operation::Destroy, srcs: vec![t] }
}

fn function(code: Vec<Bytecode>) -> FunctionInfo {
    FunctionInfo { code, cfg: None, is_native: false }
}

#[test]
fn test_detect_unchecked_return() {
    // `let (a, b) = f(); drop b; drop a;` with both results dropped.
    let f = function(vec![call("transfer", vec![3, 4], vec![0]), destroy(4), destroy(3), Bytecode::Other]);
    assert!(detect_unchecked_return(&f));
}

#[test]
fn unchecked_return_needs_every_result_dropped() {
    // Only the last result is dropped; the first is used.
    let f = function(vec![
        call("transfer", vec![3, 4], vec![0]),
        destroy(4),
        Bytecode::Assign { dst: 5, src: 3 },
        Bytecode::Other,
    ]);
    assert!(!detect_unchecked_return(&f));
}

#[test]
fn unchecked_return_checks_drop_order() {
    // Results dropped first-to-last instead of last-to-first do not match.
    let f = function(vec![call("transfer", vec![3, 4], vec![0]), destroy(3), destroy(4), Bytecode::Other]);
    assert!(!detect_unchecked_return(&f));
}

#[test]
fn unchecked_return_ignores_calls_without_results() {
    let f = function(vec![call("emit", vec![], vec![0]), destroy(0), Bytecode::Other]);
    assert!(!detect_unchecked_return(&f));
}

#[test]
fn unchecked_return_finds_a_later_call() {
    let f = function(vec![
        call("a", vec![1], vec![]),
        Bytecode::Assign { dst: 2, src: 1 },
        call("b", vec![3], vec![]),
        destroy(3),
        Bytecode::Other,
    ]);
    assert!(detect_unchecked_return(&f));
}

#[test]
fn unchecked_return_on_empty_code() {
    assert!(!detect_unchecked_return(&function(vec![])));
}

#[test]
fn precision_loss_after_division() {
    // t2 := t0 / t1; t3 := 10; t4 := t2 * t3
    let f = function(vec![
        Bytecode::Load { dst: 0 },
        Bytecode::Load { dst: 1 },
        Bytecode::Call { dsts: vec![2], op: Operation::Div, srcs: vec![0, 1] },
        Bytecode::Load { dst: 3 },
        Bytecode::Call { dsts: vec![4], op: Operation::Mul, srcs: vec![2, 3] },
    ]);
    assert!(detect_precision_loss(&f));
}

#[test]
fn precision_loss_after_sqrt() {
    let f = function(vec![
        Bytecode::Load { dst: 0 },
        Bytecode::Load { dst: 5 },
        Bytecode::Load { dst: 1 },
        call("sqrt", vec![2], vec![1]),
        Bytecode::Call { dsts: vec![4], op: Operation::Mul, srcs: vec![0, 2] },
    ]);
    assert!(detect_precision_loss(&f));
}

#[test]
fn precision_kept_without_division() {
    let f = function(vec![
        Bytecode::Load { dst: 0 },
        Bytecode::Load { dst: 1 },
        Bytecode::Call { dsts: vec![2], op: Operation::Mul, srcs: vec![0, 1] },
    ]);
    assert!(!detect_precision_loss(&f));
}

#[test]
fn first_operand_search_skips_the_instruction_before() {
    // The first operand is searched from two instructions before the
    // multiplication: a division right before it is not seen as that operand.
    let f = function(vec![
        Bytecode::Load { dst: 0 },
        Bytecode::Load { dst: 1 },
        Bytecode::Load { dst: 3 },
        Bytecode::Call { dsts: vec![2], op: Operation::Div, srcs: vec![0, 1] },
        Bytecode::Call { dsts: vec![4], op: Operation::Mul, srcs: vec![2, 3] },
    ]);
    assert!(!detect_precision_loss(&f));
}

#[test]
fn other_function_calls_do_not_lose_precision() {
    let f = function(vec![
        Bytecode::Load { dst: 0 },
        Bytecode::Load { dst: 1 },
        call("square", vec![2], vec![1]),
        Bytecode::Call { dsts: vec![4], op: Operation::Mul, srcs: vec![0, 2] },
    ]);
    assert!(!detect_precision_loss(&f));
}
