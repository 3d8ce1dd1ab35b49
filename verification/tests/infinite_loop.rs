use move_scanner::bytecode::{Block, BlockContent, Bytecode, ControlFlowGraph, FunctionInfo, StacklessBytecodeGenerator};
use move_scanner::detect::detect4::{detect_infinite_loop, DataDependency, FatLoops, NaturalLoop};

/// A loop `1 -> 2 -> 1` whose header ends in a branch on temporary 0, which
/// the loop condition copies from temporary 5; block 2 holds `instr4` and `instr5`.
fn loop_function(instr4: Bytecode, instr5: Bytecode) -> StacklessBytecodeGenerator {
    let code = vec![
        Bytecode::Other,
        Bytecode::Load { dst: 1 },
        Bytecode::Other,
        Bytecode::Branch { then_label: 0, else_label: 1, cond: 0 },
        instr4,
        instr5,
        Bytecode::Other,
    ];
    let cfg = ControlFlowGraph {
        blocks: vec![
            Block { successors: vec![1], content: BlockContent::Basic { lower: 0, upper: 0 } },
            Block { successors: vec![2, 3], content: BlockContent::Basic { lower: 1, upper: 3 } },
            Block { successors: vec![1], content: BlockContent::Basic { lower: 4, upper: 5 } },
            Block { successors: vec![], content: BlockContent::Basic { lower: 6, upper: 6 } },
        ],
    };
    StacklessBytecodeGenerator { functions: vec![FunctionInfo { code, cfg: Some(cfg), is_native: false }] }
}

fn loops() -> Vec<NaturalLoop> {
    vec![NaturalLoop { loop_header: 1, loop_body: vec![1, 2] }]
}

fn dependencies() -> DataDependency {
    DataDependency { loop_conditions: vec![vec![5], vec![], vec![], vec![], vec![], vec![], vec![]] }
}

#[test]
fn loop_that_updates_its_condition_terminates() {
    let stbgr = loop_function(Bytecode::Assign { dst: 5, src: 1 }, Bytecode::Other);
    let fat = FatLoops { fat_loops: vec![1] };
    assert!(!detect_infinite_loop(&stbgr, 0, &loops(), &fat, &dependencies()));
}

#[test]
fn loop_that_never_updates_its_condition_is_infinite() {
    let stbgr = loop_function(Bytecode::Assign { dst: 6, src: 1 }, Bytecode::Other);
    let fat = FatLoops { fat_loops: vec![1] };
    assert!(detect_infinite_loop(&stbgr, 0, &loops(), &fat, &dependencies()));
}

#[test]
fn assignment_at_the_last_instruction_of_a_block_is_not_seen() {
    // Blocks are searched before their last instruction only.
    let stbgr = loop_function(Bytecode::Other, Bytecode::Assign { dst: 5, src: 1 });
    let fat = FatLoops { fat_loops: vec![1] };
    assert!(detect_infinite_loop(&stbgr, 0, &loops(), &fat, &dependencies()));
}

#[test]
fn function_without_fat_loops_has_no_infinite_loop() {
    let stbgr = loop_function(Bytecode::Assign { dst: 6, src: 1 }, Bytecode::Other);
    let fat = FatLoops { fat_loops: vec![] };
    assert!(!detect_infinite_loop(&stbgr, 0, &loops(), &fat, &dependencies()));
}

#[test]
fn exit_without_loop_conditions_keeps_the_loop_infinite() {
    let stbgr = loop_function(Bytecode::Assign { dst: 5, src: 1 }, Bytecode::Other);
    let fat = FatLoops { fat_loops: vec![1] };
    let deps = DataDependency { loop_conditions: vec![vec![]; 7] };
    assert!(detect_infinite_loop(&stbgr, 0, &loops(), &fat, &deps));
}
