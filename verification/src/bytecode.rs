//! A model of the stackless bytecode of a Move function: the instructions,
//! the operations they call, and the control-flow graph over them, holding
//! as plain values what the detectors read.

use vstd::prelude::*;

verus! {

/// Index of a temporary (local) of a function.
pub type TempIndex = usize;

/// Index of a basic block in a control-flow graph.
pub type BlockId = usize;

/// The operation that a `Call` instruction performs.
#[derive(Clone, Debug, PartialEq, Eq)]
pub enum Operation {
    /// A call of a Move function, by the function's name.
    Function { name: String },
    /// Dropping a value.
    Destroy,
    /// Multiplication.
    Mul,
    /// Division.
    Div,
    /// Any other built-in operation.
    Other,
}

/// One instruction of stackless bytecode.
#[derive(Clone, Debug, PartialEq, Eq)]
pub enum Bytecode {
    /// `dst := src`
    Assign { dst: TempIndex, src: TempIndex },
    /// `dsts := op(srcs)`
    Call { dsts: Vec<TempIndex>, op: Operation, srcs: Vec<TempIndex> },
    /// `dst := constant`
    Load { dst: TempIndex },
    /// `if cond goto then_label else goto else_label`
    Branch { then_label: usize, else_label: usize, cond: TempIndex },
    /// Any instruction that the detectors do not look into
    /// (returns, jumps, labels, aborts, no-ops).
    Other,
}

/// The instructions that a basic block covers.
#[derive(Clone, Debug, PartialEq, Eq)]
pub enum BlockContent {
    /// The instructions at offsets `lower..=upper`.
    Basic { lower: usize, upper: usize },
    /// An entry or exit block without instructions.
    Dummy,
}

/// A basic block with its successors.
#[derive(Clone, Debug, PartialEq, Eq)]
pub struct Block {
    pub successors: Vec<BlockId>,
    pub content: BlockContent,
}

/// A forward control-flow graph; block `i` is `blocks[i]`.
#[derive(Clone, Debug, PartialEq, Eq)]
pub struct ControlFlowGraph {
    pub blocks: Vec<Block>,
}

/// A function of a module in stackless bytecode.
#[derive(Clone, Debug)]
pub struct FunctionInfo {
    pub code: Vec<Bytecode>,
    pub cfg: Option<ControlFlowGraph>,
    pub is_native: bool,
}

/// The functions of one compiled module, in stackless bytecode.
#[derive(Clone, Debug)]
pub struct StacklessBytecodeGenerator {
    pub functions: Vec<FunctionInfo>,
}

} // verus!
