//! Infinite loops: a loop none of whose exits depends on a value that the
//! loop itself assigns.

use vstd::prelude::*;
use crate::bytecode::{
    Block, BlockContent, BlockId, Bytecode, ControlFlowGraph, StacklessBytecodeGenerator, TempIndex,
};

verus! {

/// A natural loop of a control-flow graph: its header and the blocks of its body.
#[derive(Clone, Debug)]
pub struct NaturalLoop {
    pub loop_header: BlockId,
    pub loop_body: Vec<BlockId>,
}

/// The headers of the fat loops of a function (loops merged by header).
#[derive(Clone, Debug)]
pub struct FatLoops {
    pub fat_loops: Vec<BlockId>,
}

/// For each temporary, the temporaries that a loop condition computed from it
/// was copied from.
#[derive(Clone, Debug)]
pub struct DataDependency {
    pub loop_conditions: Vec<Vec<TempIndex>>,
}

/// Block `b` belongs to the body of a natural loop with header `h`.
pub open spec fn in_union(loops: Seq<NaturalLoop>, h: BlockId, b: BlockId) -> bool {
    exists|i: int| 0 <= i < loops.len() && #[trigger] loops[i].loop_header == h && loops[i].loop_body@.contains(b)
}

/// Block `b` of the fat loop with header `h` has a successor outside it.
pub open spec fn exit_block(loops: Seq<NaturalLoop>, blocks: Seq<Block>, h: BlockId, b: BlockId) -> bool {
    &&& in_union(loops, h, b)
    &&& exists|j: int|
        0 <= j < blocks[b as int].successors.len() && !in_union(loops, h, #[trigger] blocks[b as int].successors[j])
}

/// Some instruction of `block`, before its last one, assigns to temporary `c`.
pub open spec fn block_assigns(code: Seq<Bytecode>, block: Block, c: TempIndex) -> bool {
    match block.content {
        BlockContent::Basic { lower, upper } => exists|o: int|
            lower <= o < upper && (#[trigger] code[o] matches Bytecode::Assign { dst, .. } && dst == c),
        BlockContent::Dummy => false,
    }
}

/// Some block of the fat loop with header `h` assigns to temporary `c`.
pub open spec fn loop_assigns(code: Seq<Bytecode>, loops: Seq<NaturalLoop>, blocks: Seq<Block>, h: BlockId, c: TempIndex) -> bool {
    exists|u: BlockId| in_union(loops, h, u) && #[trigger] block_assigns(code, blocks[u as int], c)
}

/// Block `b` ends in a branch one of whose loop conditions the fat loop with
/// header `h` assigns to.
pub open spec fn exit_condition_assigned(
    code: Seq<Bytecode>,
    loops: Seq<NaturalLoop>,
    blocks: Seq<Block>,
    deps: Seq<Vec<TempIndex>>,
    h: BlockId,
    b: BlockId,
) -> bool {
    match blocks[b as int].content {
        BlockContent::Basic { upper, .. } => match code[upper as int] {
            Bytecode::Branch { cond, .. } => exists|k: int|
                0 <= k < deps[cond as int].len() && loop_assigns(code, loops, blocks, h, #[trigger] deps[cond as int][k]),
            _ => false,
        },
        BlockContent::Dummy => false,
    }
}

/// The fat loop with header `h` has an exit whose condition the loop assigns to.
pub open spec fn loop_may_exit(
    code: Seq<Bytecode>,
    loops: Seq<NaturalLoop>,
    blocks: Seq<Block>,
    deps: Seq<Vec<TempIndex>>,
    h: BlockId,
) -> bool {
    exists|b: BlockId| exit_block(loops, blocks, h, b) && #[trigger] exit_condition_assigned(code, loops, blocks, deps, h, b)
}

/// The blocks, their contents and the loop conditions all fit together:
/// every loop body names blocks of the graph, every basic block lies within
/// the code, and every branch condition has its loop conditions.
pub open spec fn loop_analysis_well_formed(
    code: Seq<Bytecode>,
    cfg: ControlFlowGraph,
    loops: Seq<NaturalLoop>,
    deps: Seq<Vec<TempIndex>>,
) -> bool {
    &&& forall|i: int, j: int| 0 <= i < loops.len() && 0 <= j < loops[i].loop_body.len()
        ==> #[trigger] loops[i].loop_body@[j] < cfg.blocks.len()
    &&& forall|b: int| 0 <= b < cfg.blocks.len() ==> match #[trigger] cfg.blocks@[b].content {
        BlockContent::Basic { upper, .. } => upper < code.len(),
        BlockContent::Dummy => true,
    }
    &&& forall|o: int| 0 <= o < code.len() ==> match #[trigger] code[o] {
        Bytecode::Branch { cond, .. } => cond < deps.len(),
        _ => true,
    }
}

fn contains_block(v: &Vec<BlockId>, x: BlockId) -> (r: bool)
    ensures
        r == v@.contains(x),
{
    let mut i: usize = 0;
    while i < v.len()
        invariant
            i <= v.len(),
            forall|k: int| 0 <= k < i ==> v@[k] != x,
        decreases v.len() - i,
    {
        if v[i] == x {
            assert(v@[i as int] == x);
            return true;
        }
        i = i + 1;
    }
    false
}

pub open spec fn in_union_prefix(loops: Seq<NaturalLoop>, h: BlockId, b: BlockId, n: int) -> bool {
    exists|i: int| 0 <= i < n && #[trigger] loops[i].loop_header == h && loops[i].loop_body@.contains(b)
}

/// The blocks of all natural loops with header `header`, each once.
fn loop_union(natural_loops: &Vec<NaturalLoop>, header: BlockId) -> (u: Vec<BlockId>)
    ensures
        forall|b: BlockId| u@.contains(b) <==> in_union(natural_loops@, header, b),
{
    let mut u: Vec<BlockId> = Vec::new();
    let mut i: usize = 0;
    while i < natural_loops.len()
        invariant
            i <= natural_loops.len(),
            forall|b: BlockId| u@.contains(b) <==> in_union_prefix(natural_loops@, header, b, i as int),
        decreases natural_loops.len() - i,
    {
        if natural_loops[i].loop_header == header {
            let body = &natural_loops[i].loop_body;
            let mut j: usize = 0;
            while j < body.len()
                invariant
                    i < natural_loops.len(),
                    body == &natural_loops@[i as int].loop_body,
                    natural_loops@[i as int].loop_header == header,
                    j <= body.len(),
                    forall|b: BlockId| u@.contains(b) <==> (in_union_prefix(natural_loops@, header, b, i as int)
                        || exists|k: int| 0 <= k < j && body@[k] == b),
                decreases body.len() - j,
            {
                let b = body[j];
                let ghost old_u = u@;
                if !contains_block(&u, b) {
                    u.push(b);
                    assert forall|x: BlockId| u@.contains(x) <==> (old_u.contains(x) || x == b) by {
                        if old_u.contains(x) {
                            let k = choose|k: int| 0 <= k < old_u.len() && old_u[k] == x;
                            assert(u@[k] == x);
                        }
                        if x == b {
                            assert(u@[old_u.len() as int] == x);
                        }
                        if u@.contains(x) && x != b {
                            let k = choose|k: int| 0 <= k < u@.len() && u@[k] == x;
                            assert(old_u[k] == x);
                        }
                    }
                }
                assert(forall|x: BlockId| u@.contains(x) <==> (old_u.contains(x) || x == b));
                assert forall|x: BlockId| u@.contains(x) <==> (in_union_prefix(natural_loops@, header, x, i as int)
                    || exists|k: int| 0 <= k < j + 1 && body@[k] == x) by {
                    let before = exists|k: int| 0 <= k < j && body@[k] == x;
                    let after = exists|k: int| 0 <= k < j + 1 && body@[k] == x;
                    assert(old_u.contains(x) <==> (in_union_prefix(natural_loops@, header, x, i as int) || before));
                    if x == b {
                        assert(body@[j as int] == x);
                        assert(after);
                    }
                    if before {
                        let k = choose|k: int| 0 <= k < j && body@[k] == x;
                        assert(0 <= k < j + 1 && body@[k] == x);
                    }
                    if after {
                        let k = choose|k: int| 0 <= k < j + 1 && body@[k] == x;
                        if k < j {
                            assert(before);
                        } else {
                            assert(x == b);
                        }
                    }
                }
                j = j + 1;
            }
            assert forall|x: BlockId| u@.contains(x) <==> in_union_prefix(natural_loops@, header, x, i + 1) by {
                if u@.contains(x) && !in_union_prefix(natural_loops@, header, x, i as int) {
                    let k = choose|k: int| 0 <= k < j && body@[k] == x;
                    assert(natural_loops@[i as int].loop_body@.contains(x));
                }
                if in_union_prefix(natural_loops@, header, x, i + 1) {
                    let k = choose|k: int| 0 <= k < i + 1 && #[trigger] natural_loops@[k].loop_header == header
                        && natural_loops@[k].loop_body@.contains(x);
                    if k == i {
                        let m = choose|m: int| 0 <= m < body@.len() && body@[m] == x;
                        assert(exists|k: int| 0 <= k < j && body@[k] == x);
                    } else {
                        assert(in_union_prefix(natural_loops@, header, x, i as int));
                    }
                }
            }
        } else {
            assert forall|x: BlockId| u@.contains(x) <==> in_union_prefix(natural_loops@, header, x, i + 1) by {
                if in_union_prefix(natural_loops@, header, x, i + 1) {
                    let k = choose|k: int| 0 <= k < i + 1 && #[trigger] natural_loops@[k].loop_header == header
                        && natural_loops@[k].loop_body@.contains(x);
                    assert(in_union_prefix(natural_loops@, header, x, i as int));
                }
            }
        }
        i = i + 1;
    }
    u
}

/// Every block of `unions` is a block of the graph.
pub open spec fn blocks_in_graph(unions: Seq<BlockId>, blocks: Seq<Block>) -> bool {
    forall|k: int| 0 <= k < unions.len() ==> #[trigger] unions[k] < blocks.len()
}

fn block_assigns_exec(code: &Vec<Bytecode>, block: &Block, c: TempIndex) -> (r: bool)
    requires
        block.content matches BlockContent::Basic { upper, .. } ==> upper < code.len(),
    ensures
        r == block_assigns(code@, *block, c),
{
    match &block.content {
        BlockContent::Basic { lower, upper } => {
            let mut off: usize = *lower;
            while off < *upper
                invariant
                    block.content == (BlockContent::Basic { lower: *lower, upper: *upper }),
                    *upper < code.len(),
                    *lower <= off,
                    forall|o: int| *lower <= o < off ==> !(#[trigger] code@[o] matches Bytecode::Assign { dst, .. } && dst == c),
                decreases *upper - off,
            {
                match &code[off] {
                    Bytecode::Assign { dst, .. } => {
                        if *dst == c {
                            assert(*lower <= off < *upper);
                            return true;
                        }
                    },
                    _ => {},
                }
                off = off + 1;
            }
            false
        },
        BlockContent::Dummy => false,
    }
}

fn loop_assigns_exec(code: &Vec<Bytecode>, cfg: &ControlFlowGraph, unions: &Vec<BlockId>, c: TempIndex) -> (r: bool)
    requires
        blocks_in_graph(unions@, cfg.blocks@),
        forall|b: int| 0 <= b < cfg.blocks.len() ==> match #[trigger] cfg.blocks@[b].content {
            BlockContent::Basic { upper, .. } => upper < code.len(),
            BlockContent::Dummy => true,
        },
    ensures
        r == exists|u: BlockId| unions@.contains(u) && #[trigger] block_assigns(code@, cfg.blocks@[u as int], c),
{
    let mut k: usize = 0;
    while k < unions.len()
        invariant
            k <= unions.len(),
            blocks_in_graph(unions@, cfg.blocks@),
            forall|b: int| 0 <= b < cfg.blocks.len() ==> match #[trigger] cfg.blocks@[b].content {
                BlockContent::Basic { upper, .. } => upper < code.len(),
                BlockContent::Dummy => true,
            },
            forall|m: int| 0 <= m < k ==> !block_assigns(code@, cfg.blocks@[unions@[m] as int], c),
        decreases unions.len() - k,
    {
        let u = unions[k];
        assert(unions@[k as int] < cfg.blocks.len());
        if block_assigns_exec(code, &cfg.blocks[u], c) {
            assert(unions@.contains(u));
            return true;
        }
        k = k + 1;
    }
    assert forall|u: BlockId| unions@.contains(u) implies !block_assigns(code@, cfg.blocks@[u as int], c) by {
        let m = choose|m: int| 0 <= m < unions@.len() && unions@[m] == u;
    }
    false
}

pub open spec fn contents_in_code(code: Seq<Bytecode>, blocks: Seq<Block>) -> bool {
    forall|b: int| 0 <= b < blocks.len() ==> match #[trigger] blocks[b].content {
        BlockContent::Basic { upper, .. } => upper < code.len(),
        BlockContent::Dummy => true,
    }
}

fn has_outside_successor(cfg: &ControlFlowGraph, unions: &Vec<BlockId>, b: BlockId) -> (r: bool)
    requires
        b < cfg.blocks.len(),
    ensures
        r == exists|j: int| 0 <= j < cfg.blocks@[b as int].successors.len()
            && !unions@.contains(#[trigger] cfg.blocks@[b as int].successors@[j]),
{
    let successors = &cfg.blocks[b].successors;
    let mut j: usize = 0;
    while j < successors.len()
        invariant
            successors == &cfg.blocks@[b as int].successors,
            j <= successors.len(),
            forall|m: int| 0 <= m < j ==> unions@.contains(#[trigger] successors@[m]),
        decreases successors.len() - j,
    {
        let child = successors[j];
        if !contains_block(unions, child) {
            assert(!unions@.contains(successors@[j as int]));
            return true;
        }
        j = j + 1;
    }
    false
}

fn exit_condition_assigned_exec(
    code: &Vec<Bytecode>,
    cfg: &ControlFlowGraph,
    unions: &Vec<BlockId>,
    data_dependency: &DataDependency,
    b: BlockId,
) -> (r: bool)
    requires
        b < cfg.blocks.len(),
        blocks_in_graph(unions@, cfg.blocks@),
        contents_in_code(code@, cfg.blocks@),
        forall|o: int| 0 <= o < code.len() ==> match #[trigger] code@[o] {
            Bytecode::Branch { cond, .. } => cond < data_dependency.loop_conditions.len(),
            _ => true,
        },
    ensures
        r == match cfg.blocks@[b as int].content {
            BlockContent::Basic { upper, .. } => match code@[upper as int] {
                Bytecode::Branch { cond, .. } => exists|k: int|
                    0 <= k < data_dependency.loop_conditions@[cond as int].len()
                    && exists|u: BlockId| unions@.contains(u) && #[trigger] block_assigns(code@,
                        cfg.blocks@[u as int], #[trigger] data_dependency.loop_conditions@[cond as int]@[k]),
                _ => false,
            },
            BlockContent::Dummy => false,
        },
{
    match &cfg.blocks[b].content {
        BlockContent::Basic { upper, .. } => {
            assert(*upper < code.len());
            match &code[*upper] {
                Bytecode::Branch { cond, .. } => {
                    let conditions = &data_dependency.loop_conditions[*cond];
                    let mut k: usize = 0;
                    #[verifier::loop_isolation(false)]
                    while k < conditions.len()
                        invariant
                            conditions == &data_dependency.loop_conditions@[*cond as int],
                            k <= conditions.len(),
                            blocks_in_graph(unions@, cfg.blocks@),
                            contents_in_code(code@, cfg.blocks@),
                            forall|m: int| 0 <= m < k ==> !exists|u: BlockId| unions@.contains(u)
                                && #[trigger] block_assigns(code@, cfg.blocks@[u as int], #[trigger] conditions@[m]),
                        decreases conditions.len() - k,
                    {
                        if loop_assigns_exec(code, cfg, unions, conditions[k]) {
                            return true;
                        }
                        k = k + 1;
                    }
                    false
                },
                _ => false,
            }
        },
        BlockContent::Dummy => false,
    }
}

/// Whether the fat loop with header `header` has an exit block whose branch
/// condition depends on a temporary that the loop assigns.
fn fat_loop_may_exit(
    code: &Vec<Bytecode>,
    cfg: &ControlFlowGraph,
    natural_loops: &Vec<NaturalLoop>,
    data_dependency: &DataDependency,
    header: BlockId,
) -> (r: bool)
    requires
        loop_analysis_well_formed(code@, *cfg, natural_loops@, data_dependency.loop_conditions@),
    ensures
        r == loop_may_exit(code@, natural_loops@, cfg.blocks@, data_dependency.loop_conditions@, header),
{
    let ghost loops = natural_loops@;
    let ghost blocks = cfg.blocks@;
    let ghost deps = data_dependency.loop_conditions@;
    let unions = loop_union(natural_loops, header);
    assert(blocks_in_graph(unions@, blocks)) by {
        assert forall|k: int| 0 <= k < unions@.len() implies #[trigger] unions@[k] < blocks.len() by {
            assert(unions@.contains(unions@[k]));
            let i = choose|i: int| 0 <= i < loops.len() && #[trigger] loops[i].loop_header == header
                && loops[i].loop_body@.contains(unions@[k]);
            let j = choose|j: int| 0 <= j < loops[i].loop_body@.len() && loops[i].loop_body@[j] == unions@[k];
            assert(loops[i].loop_body@[j] < blocks.len());
        }
    }
    assert(contents_in_code(code@, blocks));
    let mut k: usize = 0;
    while k < unions.len()
        invariant
            k <= unions.len(),
            loops == natural_loops@,
            blocks == cfg.blocks@,
            deps == data_dependency.loop_conditions@,
            loop_analysis_well_formed(code@, *cfg, loops, deps),
            blocks_in_graph(unions@, blocks),
            contents_in_code(code@, blocks),
            forall|b: BlockId| unions@.contains(b) <==> in_union(loops, header, b),
            forall|m: int| 0 <= m < k ==> !(exit_block(loops, blocks, header, #[trigger] unions@[m])
                && exit_condition_assigned(code@, loops, blocks, deps, header, unions@[m])),
        decreases unions.len() - k,
    {
        let b = unions[k];
        assert(unions@[k as int] < blocks.len());
        assert(unions@.contains(b));
        let outside = has_outside_successor(cfg, &unions, b);
        assert(outside == exit_block(loops, blocks, header, b)) by {
            if outside {
                let j = choose|j: int| 0 <= j < blocks[b as int].successors.len()
                    && !unions@.contains(#[trigger] blocks[b as int].successors@[j]);
                assert(!in_union(loops, header, blocks[b as int].successors[j]));
            }
            if exit_block(loops, blocks, header, b) {
                let j = choose|j: int| 0 <= j < blocks[b as int].successors.len()
                    && !in_union(loops, header, #[trigger] blocks[b as int].successors[j]);
                assert(!unions@.contains(blocks[b as int].successors@[j]));
            }
        }
        let assigned = exit_condition_assigned_exec(code, cfg, &unions, data_dependency, b);
        assert(assigned == exit_condition_assigned(code@, loops, blocks, deps, header, b)) by {
            match blocks[b as int].content {
                BlockContent::Basic { upper, .. } => {
                    match code@[upper as int] {
                        Bytecode::Branch { cond, .. } => {
                            if assigned {
                                let kk = choose|kk: int| 0 <= kk < deps[cond as int].len()
                                    && exists|u: BlockId| unions@.contains(u) && #[trigger] block_assigns(code@,
                                        blocks[u as int], #[trigger] deps[cond as int]@[kk]);
                                let u = choose|u: BlockId| unions@.contains(u) && #[trigger] block_assigns(code@,
                                        blocks[u as int], deps[cond as int]@[kk]);
                                assert(loop_assigns(code@, loops, blocks, header, deps[cond as int][kk]));
                            }
                            if exit_condition_assigned(code@, loops, blocks, deps, header, b) {
                                let kk = choose|kk: int| 0 <= kk < deps[cond as int].len()
                                    && loop_assigns(code@, loops, blocks, header, #[trigger] deps[cond as int][kk]);
                                let u = choose|u: BlockId| in_union(loops, header, u)
                                    && #[trigger] block_assigns(code@, blocks[u as int], deps[cond as int][kk]);
                                assert(unions@.contains(u));
                                assert(exists|u: BlockId| unions@.contains(u) && #[trigger] block_assigns(code@,
                                        blocks[u as int], deps[cond as int]@[kk]));
                            }
                        },
                        _ => {},
                    }
                },
                BlockContent::Dummy => {},
            }
        }
        if outside && assigned {
            return true;
        }
        k = k + 1;
    }
    assert forall|b: BlockId| exit_block(loops, blocks, header, b) implies
        !#[trigger] exit_condition_assigned(code@, loops, blocks, deps, header, b) by {
        assert(unions@.contains(b));
        let m = choose|m: int| 0 <= m < unions@.len() && unions@[m] == b;
        assert(!(exit_block(loops, blocks, header, unions@[m])
            && exit_condition_assigned(code@, loops, blocks, deps, header, unions@[m])));
    }
    false
}

/// Whether the function at `idx` has fat loops and none of them has an exit
/// whose branch condition depends on a temporary that the loop assigns.
///
/// The natural and fat loops of the function and the data dependencies of its
/// temporaries are the results of the loop and data-dependency analyses of
/// that function.
pub fn detect_infinite_loop(
    stbgr: &StacklessBytecodeGenerator,
    idx: usize,
    natural_loops: &Vec<NaturalLoop>,
    fat_loops: &FatLoops,
    data_dependency: &DataDependency,
) -> (r: bool)
    requires
        idx < stbgr.functions.len(),
        stbgr.functions@[idx as int].cfg is Some,
        loop_analysis_well_formed(
            stbgr.functions@[idx as int].code@,
            stbgr.functions@[idx as int].cfg->0,
            natural_loops@,
            data_dependency.loop_conditions@,
        ),
    ensures
        r == (fat_loops.fat_loops.len() > 0 && forall|i: int| 0 <= i < fat_loops.fat_loops.len()
            ==> !#[trigger] loop_may_exit(
                stbgr.functions@[idx as int].code@,
                natural_loops@,
                (stbgr.functions@[idx as int].cfg->0).blocks@,
                data_dependency.loop_conditions@,
                fat_loops.fat_loops@[i],
            )),
{
    let function = &stbgr.functions[idx];
    let cfg = match &function.cfg {
        Some(cfg) => cfg,
        None => {
            return false;
        },
    };
    let headers = &fat_loops.fat_loops;
    let mut ret_flag = headers.len() > 0;
    let mut i: usize = 0;
    while i < headers.len()
        invariant
            function == &stbgr.functions@[idx as int],
            function.cfg == Some(*cfg),
            loop_analysis_well_formed(function.code@, *cfg, natural_loops@, data_dependency.loop_conditions@),
            i <= headers.len(),
            ret_flag == (headers.len() > 0 && forall|m: int| 0 <= m < i ==> !#[trigger] loop_may_exit(
                function.code@, natural_loops@, cfg.blocks@, data_dependency.loop_conditions@, headers@[m])),
        decreases headers.len() - i,
    {
        if fat_loop_may_exit(&function.code, cfg, natural_loops, data_dependency, headers[i]) {
            ret_flag = false;
        }
        i = i + 1;
    }
    ret_flag
}


/// The fat loop with header `h` can end through block `b`: `b` and `u` are
/// blocks of natural loops with header `h`, the `j`-th successor of `b` is a
/// block of none of them, `b` ends in a branch, the `k`-th loop condition of
/// that branch is assigned at offset `o` of `u`, before `u`'s last instruction.
pub open spec fn exit_through(
    code: Seq<Bytecode>,
    loops: Seq<NaturalLoop>,
    blocks: Seq<Block>,
    deps: Seq<Vec<TempIndex>>,
    h: BlockId,
    b: BlockId,
    j: int,
    k: int,
    u: BlockId,
    o: int,
) -> bool {
    &&& exists|i: int| 0 <= i < loops.len() && loops[i].loop_header == h && loops[i].loop_body@.contains(b)
    &&& 0 <= j < blocks[b as int].successors@.len()
    &&& !exists|i: int| 0 <= i < loops.len() && loops[i].loop_header == h
        && loops[i].loop_body@.contains(blocks[b as int].successors@[j])
    &&& exists|i: int| 0 <= i < loops.len() && loops[i].loop_header == h && loops[i].loop_body@.contains(u)
    &&& blocks[b as int].content is Basic
    &&& code[blocks[b as int].content->upper as int] is Branch
    &&& 0 <= k < deps[code[blocks[b as int].content->upper as int]->cond as int]@.len()
    &&& blocks[u as int].content is Basic
    &&& blocks[u as int].content->lower <= o < blocks[u as int].content->upper
    &&& code[o] is Assign
    &&& code[o]->Assign_dst == deps[code[blocks[b as int].content->upper as int]->cond as int]@[k]
}

/// Only exits count: the fat loop with header `h` may end exactly when some
/// block of its natural loops with a successor outside them ends in a branch
/// one of whose loop conditions the loop assigns. A branch whose successors
/// all stay in the loop never makes it end.
pub proof fn lemma_loop_ends_only_through_an_exit(
    code: Seq<Bytecode>,
    loops: Seq<NaturalLoop>,
    blocks: Seq<Block>,
    deps: Seq<Vec<TempIndex>>,
    h: BlockId,
)
    ensures
        loop_may_exit(code, loops, blocks, deps, h) <==> exists|b: BlockId, j: int, k: int, u: BlockId, o: int|
            #[trigger] exit_through(code, loops, blocks, deps, h, b, j, k, u, o),
{
    if loop_may_exit(code, loops, blocks, deps, h) {
        let b = choose|b: BlockId| exit_block(loops, blocks, h, b) && #[trigger] exit_condition_assigned(code, loops, blocks, deps, h, b);
        let j = choose|j: int| 0 <= j < blocks[b as int].successors.len() && !in_union(loops, h, #[trigger] blocks[b as int].successors[j]);
        let upper = blocks[b as int].content->upper;
        let cond = code[upper as int]->cond;
        let k = choose|k: int| 0 <= k < deps[cond as int].len() && loop_assigns(code, loops, blocks, h, #[trigger] deps[cond as int][k]);
        let c = deps[cond as int][k];
        let u = choose|u: BlockId| in_union(loops, h, u) && #[trigger] block_assigns(code, blocks[u as int], c);
        let lower = blocks[u as int].content->lower;
        let up = blocks[u as int].content->upper;
        let o = choose|o: int| lower <= o < up && (#[trigger] code[o] matches Bytecode::Assign { dst, .. } && dst == c);
        assert(blocks[b as int].successors@[j] == blocks[b as int].successors[j]);
        assert(exit_through(code, loops, blocks, deps, h, b, j, k, u, o));
    }
    if exists|b: BlockId, j: int, k: int, u: BlockId, o: int| #[trigger] exit_through(code, loops, blocks, deps, h, b, j, k, u, o) {
        let (b, j, k, u, o) = choose|b: BlockId, j: int, k: int, u: BlockId, o: int|
            #[trigger] exit_through(code, loops, blocks, deps, h, b, j, k, u, o);
        assert(blocks[b as int].successors@[j] == blocks[b as int].successors[j]);
        assert(!in_union(loops, h, blocks[b as int].successors[j]));
        assert(exit_block(loops, blocks, h, b));
        let cond = code[blocks[b as int].content->upper as int]->cond;
        let c = deps[cond as int][k];
        assert(block_assigns(code, blocks[u as int], c));
        assert(loop_assigns(code, loops, blocks, h, deps[cond as int][k]));
        assert(exit_condition_assigned(code, loops, blocks, deps, h, b));
    }
}

} // verus!
