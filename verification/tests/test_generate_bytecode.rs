use move_scanner::bytecode::{Bytecode, FunctionInfo, Operation, StacklessBytecodeGenerator};
use move_scanner::detect::detect1::detect_unchecked_return;
use move_scanner::detect::detect3::detect_precision_loss;

#[test]
fn test_generate_bytecode() {
    // The stackless bytecode of a module's functions, printed one by one.
    let stbgr = StacklessBytecodeGenerator {
        functions: vec![
            FunctionInfo {
                code: vec![
                    Bytecode::Load { dst: 0 },
                    Bytecode::Load { dst: 1 },
                    Bytecode::Call { dsts: vec![2], op: Operation::Div, srcs: vec![0, 1] },
                    Bytecode::Load { dst: 3 },
                    Bytecode::Call { dsts: vec![4], op: Operation::Mul, srcs: vec![2, 3] },
                    Bytecode::Other,
                ],
                cfg: None,
                is_native: false,
            },
            FunctionInfo { code: vec![], cfg: None, is_native: true },
        ],
    };
    for function in stbgr.functions.iter() {
        println!("{:?}", function.code);
        assert!(!detect_unchecked_return(function));
    }
    assert!(detect_precision_loss(&stbgr.functions[0]));
    assert!(!detect_precision_loss(&stbgr.functions[1]));
}
