//! Unchecked return values: a call whose results are all dropped at once.

use vstd::prelude::*;
use crate::bytecode::{Bytecode, FunctionInfo, Operation, TempIndex};

verus! {

/// Instruction `j` exists and drops temporary `t` (its first source is `t`).
pub open spec fn destroys_temp(code: Seq<Bytecode>, j: int, t: TempIndex) -> bool {
    0 <= j < code.len() && match code[j] {
        Bytecode::Call { op: Operation::Destroy, srcs, .. } => srcs@.len() > 0 && srcs@[0] == t,
        _ => false,
    }
}

/// The `k`-th result of the call at `off` is dropped by the instruction that
/// checks it: results are dropped last first, right after the call, so the
/// `k`-th result is dropped at `off + dsts.len() - k`.
pub open spec fn destroys_nth(code: Seq<Bytecode>, off: int, dsts: Seq<TempIndex>, k: int) -> bool {
    destroys_temp(code, off + dsts.len() - k, dsts[k])
}

/// The instruction that checks the `id`-th result exists and, where it is a
/// `Destroy`, has a source to compare.
pub open spec fn nth_check_defined(code: Seq<Bytecode>, off: int, dsts: Seq<TempIndex>, id: int) -> bool {
    let j = off + dsts.len() - id;
    0 <= j < code.len() && (code[j] matches Bytecode::Call { op: Operation::Destroy, srcs, .. }
        ==> srcs@.len() > 0)
}

/// A call with results, all of which are dropped right after it.
pub open spec fn returns_all_destroyed(code: Seq<Bytecode>, off: int, dsts: Seq<TempIndex>) -> bool {
    &&& dsts.len() > 0
    &&& forall|k: int| 0 <= k < dsts.len() ==> #[trigger] destroys_nth(code, off, dsts, k)
}

/// Every check on the results of the call at `off` that is reached
/// (all earlier results were dropped) can be made.
pub open spec fn result_checks_defined(code: Seq<Bytecode>, off: int, dsts: Seq<TempIndex>) -> bool {
    forall|id: int|
        0 <= id < dsts.len() && (forall|k: int| 0 <= k < id ==> #[trigger] destroys_nth(code, off, dsts, k))
            ==> #[trigger] nth_check_defined(code, off, dsts, id)
}

/// The instruction at `off` calls a Move function and drops all its results.
pub open spec fn discards_results_at(code: Seq<Bytecode>, off: int) -> bool {
    match code[off] {
        Bytecode::Call { dsts, op: Operation::Function { .. }, .. } => returns_all_destroyed(code, off, dsts@),
        _ => false,
    }
}

/// The checks are defined for every call of a Move function in `code`.
pub open spec fn unchecked_return_defined(code: Seq<Bytecode>) -> bool {
    forall|off: int| 0 <= off < code.len() ==> match #[trigger] code[off] {
        Bytecode::Call { dsts, op: Operation::Function { .. }, .. } => result_checks_defined(code, off, dsts@),
        _ => true,
    }
}

/// Whether the call at `off`, with results `dsts`, has all its results dropped.
fn call_discards_results(code: &Vec<Bytecode>, off: usize, dsts: &Vec<TempIndex>) -> (r: bool)
    requires
        off < code.len(),
        result_checks_defined(code@, off as int, dsts@),
    ensures
        r == returns_all_destroyed(code@, off as int, dsts@),
{
    let n = dsts.len();
    if n == 0 {
        return false;
    }
    assert(nth_check_defined(code@, off as int, dsts@, 0));
    let mut id: usize = 0;
    while id < n
        invariant
            n == dsts.len(),
            off + n < code.len(),
            result_checks_defined(code@, off as int, dsts@),
            id <= n,
            forall|k: int| 0 <= k < id ==> #[trigger] destroys_nth(code@, off as int, dsts@, k),
        decreases n - id,
    {
        assert(nth_check_defined(code@, off as int, dsts@, id as int));
        let j = off + n - id;
        match &code[j] {
            Bytecode::Call { op: Operation::Destroy, srcs, .. } => {
                if srcs[0] != dsts[id] {
                    assert(!destroys_nth(code@, off as int, dsts@, id as int));
                    return false;
                }
            },
            _ => {
                assert(!destroys_nth(code@, off as int, dsts@, id as int));
                return false;
            },
        }
        assert(destroys_nth(code@, off as int, dsts@, id as int));
        id = id + 1;
    }
    true
}

/// Whether some call of a Move function in `function` has all its results
/// dropped right after it, that is, its return values go unchecked.
pub fn detect_unchecked_return(function: &FunctionInfo) -> (r: bool)
    requires
        unchecked_return_defined(function.code@),
    ensures
        r == exists|off: int| 0 <= off < function.code@.len() && #[trigger] discards_results_at(function.code@, off),
{
    let code = &function.code;
    let mut found = false;
    let mut off: usize = 0;
    while off < code.len()
        invariant
            code == &function.code,
            unchecked_return_defined(code@),
            off <= code.len(),
            found == exists|k: int| 0 <= k < off && #[trigger] discards_results_at(code@, k),
        decreases code.len() - off,
    {
        let ghost before = found;
        match &code[off] {
            Bytecode::Call { dsts, op: Operation::Function { .. }, .. } => {
                assert(result_checks_defined(code@, off as int, dsts@));
                let flag = call_discards_results(code, off, dsts);
                if flag {
                    found = true;
                }
                assert(discards_results_at(code@, off as int) == flag);
            },
            _ => {
                assert(!discards_results_at(code@, off as int));
            },
        }
        assert(found == exists|k: int| 0 <= k < off + 1 && #[trigger] discards_results_at(code@, k)) by {
            if found && !before {
                assert(discards_results_at(code@, off as int));
            }
        }
        off = off + 1;
    }
    found
}

/// Read off the instructions alone: result `k` of the call at `off` is the
/// first source of a `Destroy` at offset `off + dsts.len() - k`.
pub open spec fn result_dropped_at(code: Seq<Bytecode>, off: int, k: int) -> bool {
    let j = off + code[off]->dsts@.len() - k;
    &&& 0 <= j < code.len()
    &&& code[j] is Call
    &&& code[j]->op is Destroy
    &&& code[j]->srcs@.len() > 0
    &&& code[j]->srcs@[0] == code[off]->dsts@[k]
}

/// The instruction at `off` calls a Move function with at least one result,
/// and all its results are dropped right after the call, the last one first.
pub open spec fn every_result_dropped_after(code: Seq<Bytecode>, off: int) -> bool {
    &&& code[off] is Call
    &&& code[off]->op is Function
    &&& code[off]->dsts@.len() > 0
    &&& forall|k: int| 0 <= k < code[off]->dsts@.len() ==> #[trigger] result_dropped_at(code, off, k)
}

/// What an unchecked return is: a call of a Move function counts exactly when
/// every one of its results is dropped right after it, the last result first.
/// A call one of whose results is used, or dropped at another place, does not
/// count, however many of its other results are dropped.
pub proof fn lemma_unchecked_return_drops_every_result(code: Seq<Bytecode>, off: int)
    requires
        0 <= off < code.len(),
    ensures
        discards_results_at(code, off) <==> every_result_dropped_after(code, off),
{
    match code[off] {
        Bytecode::Call { dsts, op: Operation::Function { .. }, .. } => {
            let d = dsts@;
            assert(code[off]->dsts@ == d);
            if returns_all_destroyed(code, off, d) {
                assert forall|k: int| 0 <= k < code[off]->dsts@.len() implies
                    #[trigger] result_dropped_at(code, off, k) by {
                    assert(destroys_nth(code, off, d, k));
                }
                assert(every_result_dropped_after(code, off));
            } else if d.len() > 0 {
                let k = choose|k: int| 0 <= k < d.len() && !#[trigger] destroys_nth(code, off, d, k);
                assert(!result_dropped_at(code, off, k));
                assert(!every_result_dropped_after(code, off));
            }
        },
        _ => {},
    }
}

} // verus!
