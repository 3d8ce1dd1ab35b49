//! Precision loss: a multiplication one of whose operands comes from a
//! division or from a call of `sqrt`.

use vstd::prelude::*;
use crate::bytecode::{Bytecode, FunctionInfo, Operation, TempIndex};
use crate::text::str_equals;

verus! {

/// Instruction `b` writes temporary `t`: as the first result of a call, by an
/// assignment or by a load.
pub open spec fn defines_temp(b: Bytecode, t: TempIndex) -> bool {
    match b {
        Bytecode::Call { dsts, .. } => dsts.len() > 0 && dsts[0] == t,
        Bytecode::Assign { dst, .. } => dst == t,
        Bytecode::Load { dst } => dst == t,
        _ => false,
    }
}

/// The backward search can look at instruction `b`: a call there has a
/// first result to compare.
pub open spec fn scan_step_defined(b: Bytecode) -> bool {
    b matches Bytecode::Call { dsts, .. } ==> dsts.len() > 0
}

/// The offset that the backward search for the definition of `t` stops at,
/// starting from offset `i`: the greatest offset in `1..=i` that writes `t`,
/// or offset 0 when there is none (offset 0 itself is never examined).
pub open spec fn operand_index(code: Seq<Bytecode>, i: int, t: TempIndex) -> int
    decreases i,
{
    if i <= 0 {
        0
    } else if defines_temp(code[i], t) {
        i
    } else {
        operand_index(code, i - 1, t)
    }
}

/// The backward search from offset `i` can look at every instruction it reaches.
pub open spec fn operand_scan_defined(code: Seq<Bytecode>, i: int, t: TempIndex) -> bool
    decreases i,
{
    i <= 0 || (scan_step_defined(code[i]) && (defines_temp(code[i], t) || operand_scan_defined(code, i - 1, t)))
}

pub open spec fn is_division(b: Bytecode) -> bool {
    b matches Bytecode::Call { op: Operation::Div, .. }
}

pub open spec fn is_sqrt_call(b: Bytecode) -> bool {
    b matches Bytecode::Call { op: Operation::Function { name }, .. } && name@ == "sqrt"@
}

/// An operand produced by `b` makes a following multiplication lose precision.
pub open spec fn lossy_operand(b: Bytecode) -> bool {
    is_division(b) || is_sqrt_call(b)
}

/// The instruction at `off` is a multiplication whose first operand, searched
/// from `off - 2`, or whose second operand, searched from `off - 1`, comes
/// from a division or a `sqrt` call.
pub open spec fn loses_precision_at(code: Seq<Bytecode>, off: int) -> bool {
    match code[off] {
        Bytecode::Call { op: Operation::Mul, srcs, .. } =>
            lossy_operand(code[operand_index(code, off - 2, srcs[0])])
                || lossy_operand(code[operand_index(code, off - 1, srcs[1])]),
        _ => false,
    }
}

/// The operands of a multiplication at `off` can be looked up.
pub open spec fn mul_operands_defined(code: Seq<Bytecode>, off: int) -> bool {
    match code[off] {
        Bytecode::Call { op: Operation::Mul, srcs, .. } => {
            &&& srcs.len() >= 2
            &&& off >= 2
            &&& operand_scan_defined(code, off - 2, srcs[0])
            &&& operand_scan_defined(code, off - 1, srcs[1])
        },
        _ => true,
    }
}

/// The operands of every multiplication that the detector reaches (no
/// earlier multiplication was found lossy) can be looked up.
pub open spec fn precision_loss_defined(code: Seq<Bytecode>) -> bool {
    forall|off: int|
        0 <= off < code.len() && (forall|k: int| 0 <= k < off ==> !#[trigger] loses_precision_at(code, k))
            ==> #[trigger] mul_operands_defined(code, off)
}

/// The instruction that defines temporary `src_idx`, searching backwards
/// from offset `code_offset - 1` down to offset 1; offset 0 when none does.
fn get_oprand_bytecode(bytecodes: &Vec<Bytecode>, code_offset: usize, src_idx: TempIndex) -> (r: &Bytecode)
    requires
        1 <= code_offset <= bytecodes.len(),
        operand_scan_defined(bytecodes@, code_offset - 1, src_idx),
    ensures
        *r == bytecodes@[operand_index(bytecodes@, code_offset - 1, src_idx)],
{
    let mut tmp_index = code_offset - 1;
    while tmp_index != 0
        invariant
            tmp_index < bytecodes.len(),
            operand_scan_defined(bytecodes@, tmp_index as int, src_idx),
            operand_index(bytecodes@, code_offset - 1, src_idx) == operand_index(bytecodes@, tmp_index as int, src_idx),
        decreases tmp_index,
    {
        match &bytecodes[tmp_index] {
            Bytecode::Call { dsts, .. } => {
                if dsts[0] == src_idx {
                    return &bytecodes[tmp_index];
                }
            },
            Bytecode::Assign { dst, .. } => {
                if *dst == src_idx {
                    return &bytecodes[tmp_index];
                }
            },
            Bytecode::Load { dst } => {
                if *dst == src_idx {
                    return &bytecodes[tmp_index];
                }
            },
            _ => {},
        }
        tmp_index = tmp_index - 1;
    }
    &bytecodes[tmp_index]
}

fn is_div(bytecode: &Bytecode) -> (r: bool)
    ensures
        r == is_division(*bytecode),
{
    match bytecode {
        Bytecode::Call { op: Operation::Div, .. } => true,
        _ => false,
    }
}

fn is_sqrt(bytecode: &Bytecode) -> (r: bool)
    ensures
        r == is_sqrt_call(*bytecode),
{
    match bytecode {
        Bytecode::Call { op: Operation::Function { name }, .. } => str_equals(name.as_str(), "sqrt"),
        _ => false,
    }
}

/// Whether some multiplication in `function` takes an operand that comes from
/// a division or from a call of `sqrt`.
pub fn detect_precision_loss(function: &FunctionInfo) -> (r: bool)
    requires
        precision_loss_defined(function.code@),
    ensures
        r == exists|off: int| 0 <= off < function.code@.len() && #[trigger] loses_precision_at(function.code@, off),
{
    let code = &function.code;
    let mut off: usize = 0;
    while off < code.len()
        invariant
            code == &function.code,
            precision_loss_defined(code@),
            off <= code.len(),
            forall|k: int| 0 <= k < off ==> !#[trigger] loses_precision_at(code@, k),
        decreases code.len() - off,
    {
        assert(mul_operands_defined(code@, off as int));
        match &code[off] {
            Bytecode::Call { op: Operation::Mul, srcs, .. } => {
                let oprand1 = get_oprand_bytecode(code, off - 1, srcs[0]);
                let oprand2 = get_oprand_bytecode(code, off, srcs[1]);
                if is_div(oprand1) || is_div(oprand2) || is_sqrt(oprand1) || is_sqrt(oprand2) {
                    assert(loses_precision_at(code@, off as int));
                    return true;
                }
                assert(!loses_precision_at(code@, off as int));
            },
            _ => {
                assert(!loses_precision_at(code@, off as int));
            },
        }
        off = off + 1;
    }
    false
}


/// The operand search finds the latest definition: searching for `t` from
/// offset `i`, it stops at an offset `j` in `0..=i`; where `j > 0` the
/// instruction there writes `t` (as a call's first result, an assignment or a
/// load), and no instruction after `j` up to `i` writes `t`.
pub proof fn lemma_operand_is_latest_definition(code: Seq<Bytecode>, i: int, t: TempIndex)
    requires
        0 <= i < code.len(),
    ensures
        0 <= operand_index(code, i, t) <= i,
        operand_index(code, i, t) > 0 ==> match code[operand_index(code, i, t)] {
            Bytecode::Call { dsts, .. } => dsts@.len() > 0 && dsts@[0] == t,
            Bytecode::Assign { dst, .. } => dst == t,
            Bytecode::Load { dst } => dst == t,
            _ => false,
        },
        forall|k: int| operand_index(code, i, t) < k <= i ==> !match #[trigger] code[k] {
            Bytecode::Call { dsts, .. } => dsts@.len() > 0 && dsts@[0] == t,
            Bytecode::Assign { dst, .. } => dst == t,
            Bytecode::Load { dst } => dst == t,
            _ => false,
        },
    decreases i,
{
    if i > 0 && !defines_temp(code[i], t) {
        lemma_operand_is_latest_definition(code, i - 1, t);
    }
}

/// What precision loss is: the instruction at `off` multiplies, and its
/// first operand (searched from `off - 2`) or its second operand (searched
/// from `off - 1`) comes from a division or from a call of `sqrt`; either
/// operand and either source counts.
pub proof fn lemma_precision_loss_on_either_operand(code: Seq<Bytecode>, off: int)
    ensures
        loses_precision_at(code, off) <==> (code[off] matches Bytecode::Call { op: Operation::Mul, srcs, .. } && {
            let a = code[operand_index(code, off - 2, srcs[0])];
            let b = code[operand_index(code, off - 1, srcs[1])];
            ||| a matches Bytecode::Call { op: Operation::Div, .. }
            ||| b matches Bytecode::Call { op: Operation::Div, .. }
            ||| (a matches Bytecode::Call { op: Operation::Function { name }, .. } && name@ == "sqrt"@)
            ||| (b matches Bytecode::Call { op: Operation::Function { name }, .. } && name@ == "sqrt"@)
        }),
{
}

} // verus!
