//! The transformation pipelines over function targets, by name.

use vstd::prelude::*;
use crate::text::str_equals;

verus! {

/// A processor of the function-target pipeline.
#[derive(Clone, Copy, Debug, PartialEq, Eq)]
pub enum Processor {
    EliminateImmRefs,
    MutRefInstrumenter,
    ReachingDef,
    LiveVarAnalysis,
    BorrowAnalysis,
    EscapeAnalysis,
    MemoryInstrumentation,
    CleanAndOptimize,
    Usage,
    VerificationAnalysis,
    SpecInstrumentation,
    GlobalInvariantAnalysis,
    WellFormedInstrumentation,
    DataInvariantInstrumentation,
    GlobalInvariantInstrumentation,
    ReadWriteSet,
    MonoAnalysis,
}

/// A name that no pipeline is associated with.
#[derive(Clone, Debug, PartialEq, Eq)]
pub enum PipelineError {
    NoPipeline { dir_name: String },
}

impl PipelineError {
    /// The sentence that reports the error.
    pub fn message(&self) -> (m: String)
        ensures
            match self {
                PipelineError::NoPipeline { dir_name } => m@ == "the sub-directory `"@ + dir_name@
                    + "` has no associated pipeline to test"@,
            },
    {
        match self {
            PipelineError::NoPipeline { dir_name } => {
                let mut m = "the sub-directory `".to_owned();
                m.append(dir_name.as_str());
                m.append("` has no associated pipeline to test");
                m
            },
        }
    }
}

/// The standard chain of processors; the named standard stages run a prefix of it.
pub open spec fn standard_chain() -> Seq<Processor> {
    seq![
        Processor::EliminateImmRefs,
        Processor::MutRefInstrumenter,
        Processor::ReachingDef,
        Processor::LiveVarAnalysis,
        Processor::BorrowAnalysis,
        Processor::MemoryInstrumentation,
        Processor::CleanAndOptimize,
        Processor::Usage,
        Processor::VerificationAnalysis,
        Processor::SpecInstrumentation,
        Processor::GlobalInvariantAnalysis,
        Processor::WellFormedInstrumentation,
        Processor::DataInvariantInstrumentation,
    ]
}

/// How many processors of the standard chain the stage `name` runs, for the
/// stages that run a prefix of it.
pub open spec fn standard_stage_len(name: Seq<char>) -> Option<nat> {
    if name == "eliminate_imm_refs"@ {
        Some(1)
    } else if name == "mut_ref_instrumentation"@ {
        Some(2)
    } else if name == "reaching_def"@ {
        Some(3)
    } else if name == "livevar"@ {
        Some(4)
    } else if name == "borrow"@ || name == "borrow_strong"@ {
        Some(5)
    } else if name == "memory_instr"@ {
        Some(6)
    } else if name == "clean_and_optimize"@ {
        Some(7)
    } else if name == "verification_analysis"@ {
        Some(9)
    } else if name == "spec_instrumentation"@ {
        Some(10)
    } else if name == "global_invariant_analysis"@ {
        Some(11)
    } else if name == "data_invariant_instrumentation"@ {
        Some(13)
    } else {
        None
    }
}

/// The pipeline that the name `name` stands for: `Ok(None)` for the
/// untransformed bytecode, `Ok(Some(processors))` for a pipeline, and an
/// error for a name without one.
pub open spec fn pipeline_for(name: Seq<char>) -> Result<Option<Seq<Processor>>, ()> {
    if name == "from_move"@ {
        Ok(None)
    } else if standard_stage_len(name) is Some {
        Ok(Some(standard_chain().take(standard_stage_len(name)->0 as int)))
    } else if name == "escape_analysis"@ {
        Ok(Some(seq![Processor::EscapeAnalysis]))
    } else if name == "global_invariant_instrumentation"@ {
        Ok(Some(standard_chain().take(11).push(Processor::GlobalInvariantInstrumentation)))
    } else if name == "read_write_set"@ {
        Ok(Some(seq![Processor::ReadWriteSet]))
    } else if name == "mono_analysis"@ {
        Ok(Some(standard_chain().skip(7).push(Processor::MonoAnalysis)))
    } else if name == "usage_analysis"@ {
        Ok(Some(seq![Processor::Usage]))
    } else {
        Err(())
    }
}

fn standard_chain_exec() -> (v: Vec<Processor>)
    ensures
        v@ == standard_chain(),
{
    let v = vec![
        Processor::EliminateImmRefs,
        Processor::MutRefInstrumenter,
        Processor::ReachingDef,
        Processor::LiveVarAnalysis,
        Processor::BorrowAnalysis,
        Processor::MemoryInstrumentation,
        Processor::CleanAndOptimize,
        Processor::Usage,
        Processor::VerificationAnalysis,
        Processor::SpecInstrumentation,
        Processor::GlobalInvariantAnalysis,
        Processor::WellFormedInstrumentation,
        Processor::DataInvariantInstrumentation,
    ];
    assert(v@ =~= standard_chain());
    v
}

/// The processors of the standard chain at positions `from..to`.
fn standard_chain_range(from: usize, to: usize) -> (v: Vec<Processor>)
    requires
        from <= to <= standard_chain().len(),
    ensures
        v@ == standard_chain().subrange(from as int, to as int),
{
    let chain = standard_chain_exec();
    let mut v: Vec<Processor> = Vec::new();
    let mut i = from;
    while i < to
        invariant
            chain@ == standard_chain(),
            from <= i <= to,
            to <= chain.len(),
            v@ == standard_chain().subrange(from as int, i as int),
        decreases to - i,
    {
        v.push(chain[i]);
        i = i + 1;
        assert(v@ =~= standard_chain().subrange(from as int, i as int));
    }
    v
}

fn stage_len(dir_name: &str) -> (r: Option<usize>)
    ensures
        r matches Some(n) ==> standard_stage_len(dir_name@) == Some(n as nat),
        r is None ==> standard_stage_len(dir_name@) is None,
{
    if str_equals(dir_name, "eliminate_imm_refs") {
        Some(1)
    } else if str_equals(dir_name, "mut_ref_instrumentation") {
        Some(2)
    } else if str_equals(dir_name, "reaching_def") {
        Some(3)
    } else if str_equals(dir_name, "livevar") {
        Some(4)
    } else if str_equals(dir_name, "borrow") || str_equals(dir_name, "borrow_strong") {
        Some(5)
    } else if str_equals(dir_name, "memory_instr") {
        Some(6)
    } else if str_equals(dir_name, "clean_and_optimize") {
        Some(7)
    } else if str_equals(dir_name, "verification_analysis") {
        Some(9)
    } else if str_equals(dir_name, "spec_instrumentation") {
        Some(10)
    } else if str_equals(dir_name, "global_invariant_analysis") {
        Some(11)
    } else if str_equals(dir_name, "data_invariant_instrumentation") {
        Some(13)
    } else {
        None
    }
}

/// The processors of the transformation pipeline named `dir_name`:
/// `Ok(None)` for `from_move` (the bytecode as built, untransformed), the
/// processors of the pipeline for the other known names, in the order they
/// run, and `Err(NoPipeline)` for any other name.
pub fn get_tested_transformation_pipeline(dir_name: &str) -> (r: Result<Option<Vec<Processor>>, PipelineError>)
    ensures
        match r {
            Ok(None) => pipeline_for(dir_name@) == Ok::<Option<Seq<Processor>>, ()>(None),
            Ok(Some(v)) => pipeline_for(dir_name@) == Ok::<Option<Seq<Processor>>, ()>(Some(v@)),
            Err(PipelineError::NoPipeline { dir_name: name }) => pipeline_for(dir_name@) is Err && name@ == dir_name@,
        },
{
    if str_equals(dir_name, "from_move") {
        return Ok(None);
    }
    match stage_len(dir_name) {
        Some(n) => {
            let v = standard_chain_range(0, n);
            assert(v@ =~= standard_chain().take(n as int));
            return Ok(Some(v));
        },
        None => {},
    }
    if str_equals(dir_name, "escape_analysis") {
        let v = vec![Processor::EscapeAnalysis];
        assert(v@ =~= seq![Processor::EscapeAnalysis]);
        Ok(Some(v))
    } else if str_equals(dir_name, "global_invariant_instrumentation") {
        let mut v = standard_chain_range(0, 11);
        v.push(Processor::GlobalInvariantInstrumentation);
        assert(v@ =~= standard_chain().take(11).push(Processor::GlobalInvariantInstrumentation));
        Ok(Some(v))
    } else if str_equals(dir_name, "read_write_set") {
        let v = vec![Processor::ReadWriteSet];
        assert(v@ =~= seq![Processor::ReadWriteSet]);
        Ok(Some(v))
    } else if str_equals(dir_name, "mono_analysis") {
        let mut v = standard_chain_range(7, 13);
        v.push(Processor::MonoAnalysis);
        assert(v@ =~= standard_chain().skip(7).push(Processor::MonoAnalysis));
        Ok(Some(v))
    } else if str_equals(dir_name, "usage_analysis") {
        let v = vec![Processor::Usage];
        assert(v@ =~= seq![Processor::Usage]);
        Ok(Some(v))
    } else {
        Err(PipelineError::NoPipeline { dir_name: dir_name.to_owned() })
    }
}

/// `from_move` names no standard stage.
proof fn lemma_from_move_is_no_stage()
    ensures
        standard_stage_len("from_move"@) is None,
{
    reveal_strlit("from_move");
    reveal_strlit("eliminate_imm_refs");
    assert("from_move"@[0] != "eliminate_imm_refs"@[0]);
    reveal_strlit("mut_ref_instrumentation");
    assert("from_move"@[0] != "mut_ref_instrumentation"@[0]);
    reveal_strlit("reaching_def");
    assert("from_move"@[0] != "reaching_def"@[0]);
    reveal_strlit("livevar");
    assert("from_move"@[0] != "livevar"@[0]);
    reveal_strlit("borrow");
    assert("from_move"@[0] != "borrow"@[0]);
    reveal_strlit("borrow_strong");
    assert("from_move"@[0] != "borrow_strong"@[0]);
    reveal_strlit("memory_instr");
    assert("from_move"@[0] != "memory_instr"@[0]);
    reveal_strlit("clean_and_optimize");
    assert("from_move"@[0] != "clean_and_optimize"@[0]);
    reveal_strlit("verification_analysis");
    assert("from_move"@[0] != "verification_analysis"@[0]);
    reveal_strlit("spec_instrumentation");
    assert("from_move"@[0] != "spec_instrumentation"@[0]);
    reveal_strlit("global_invariant_analysis");
    assert("from_move"@[0] != "global_invariant_analysis"@[0]);
    reveal_strlit("data_invariant_instrumentation");
    assert("from_move"@[0] != "data_invariant_instrumentation"@[0]);
}

/// The named standard stages build on each other: a stage that comes later
/// in the standard chain runs every processor of an earlier one first, in
/// the same order.
pub proof fn lemma_later_stage_extends_earlier(earlier: Seq<char>, later: Seq<char>)
    requires
        standard_stage_len(earlier) is Some,
        standard_stage_len(later) is Some,
        standard_stage_len(earlier)->0 <= standard_stage_len(later)->0,
    ensures
        pipeline_for(earlier) matches Ok(Some(e)) && pipeline_for(later) matches Ok(Some(l))
            && e.len() <= l.len() && e == l.take(e.len() as int),
{
    lemma_from_move_is_no_stage();
    let m = standard_stage_len(earlier)->0 as int;
    let n = standard_stage_len(later)->0 as int;
    assert(standard_chain().take(m) =~= standard_chain().take(n).take(m));
}

/// The global-invariant instrumentation stage is the global-invariant
/// analysis stage followed by the instrumentation itself.
pub proof fn lemma_instrumentation_follows_analysis()
    ensures
        pipeline_for("global_invariant_analysis"@) matches Ok(Some(a))
            && pipeline_for("global_invariant_instrumentation"@) == Ok::<Option<Seq<Processor>>, ()>(
                Some(a.push(Processor::GlobalInvariantInstrumentation)),
            ),
{
    lemma_from_move_is_no_stage();
    reveal_strlit("global_invariant_analysis");
    reveal_strlit("global_invariant_instrumentation");
    assert("global_invariant_analysis"@.len() != "global_invariant_instrumentation"@.len());
    assert("global_invariant_analysis"@[0] == "global_invariant_instrumentation"@[0]);
    // Every other name starts with another letter.
    reveal_strlit("eliminate_imm_refs");
    assert("global_invariant_analysis"@[0] != "eliminate_imm_refs"@[0]);
    reveal_strlit("mut_ref_instrumentation");
    assert("global_invariant_analysis"@[0] != "mut_ref_instrumentation"@[0]);
    reveal_strlit("reaching_def");
    assert("global_invariant_analysis"@[0] != "reaching_def"@[0]);
    reveal_strlit("livevar");
    assert("global_invariant_analysis"@[0] != "livevar"@[0]);
    reveal_strlit("borrow");
    assert("global_invariant_analysis"@[0] != "borrow"@[0]);
    reveal_strlit("borrow_strong");
    assert("global_invariant_analysis"@[0] != "borrow_strong"@[0]);
    reveal_strlit("memory_instr");
    assert("global_invariant_analysis"@[0] != "memory_instr"@[0]);
    reveal_strlit("clean_and_optimize");
    assert("global_invariant_analysis"@[0] != "clean_and_optimize"@[0]);
    reveal_strlit("verification_analysis");
    assert("global_invariant_analysis"@[0] != "verification_analysis"@[0]);
    reveal_strlit("spec_instrumentation");
    assert("global_invariant_analysis"@[0] != "spec_instrumentation"@[0]);
    reveal_strlit("data_invariant_instrumentation");
    assert("global_invariant_analysis"@[0] != "data_invariant_instrumentation"@[0]);
    reveal_strlit("from_move");
    assert("global_invariant_analysis"@[0] != "from_move"@[0]);
    reveal_strlit("escape_analysis");
    assert("global_invariant_analysis"@[0] != "escape_analysis"@[0]);
}


/// The processor that the stage `name` is named after: the one it adds last.
pub open spec fn stage_processor(name: Seq<char>) -> Option<Processor> {
    if name == "from_move"@ {
        None
    } else if name == "eliminate_imm_refs"@ {
        Some(Processor::EliminateImmRefs)
    } else if name == "mut_ref_instrumentation"@ {
        Some(Processor::MutRefInstrumenter)
    } else if name == "reaching_def"@ {
        Some(Processor::ReachingDef)
    } else if name == "livevar"@ {
        Some(Processor::LiveVarAnalysis)
    } else if name == "borrow"@ || name == "borrow_strong"@ {
        Some(Processor::BorrowAnalysis)
    } else if name == "memory_instr"@ {
        Some(Processor::MemoryInstrumentation)
    } else if name == "clean_and_optimize"@ {
        Some(Processor::CleanAndOptimize)
    } else if name == "verification_analysis"@ {
        Some(Processor::VerificationAnalysis)
    } else if name == "spec_instrumentation"@ {
        Some(Processor::SpecInstrumentation)
    } else if name == "global_invariant_analysis"@ {
        Some(Processor::GlobalInvariantAnalysis)
    } else if name == "data_invariant_instrumentation"@ {
        Some(Processor::DataInvariantInstrumentation)
    } else if name == "escape_analysis"@ {
        Some(Processor::EscapeAnalysis)
    } else if name == "global_invariant_instrumentation"@ {
        Some(Processor::GlobalInvariantInstrumentation)
    } else if name == "read_write_set"@ {
        Some(Processor::ReadWriteSet)
    } else if name == "mono_analysis"@ {
        Some(Processor::MonoAnalysis)
    } else if name == "usage_analysis"@ {
        Some(Processor::Usage)
    } else {
        None
    }
}

/// Every pipeline ends in the processor its stage is named after (so
/// `borrow` ends in the borrow analysis and `memory_instr` in the memory
/// instrumentation), and runs no processor twice.
pub proof fn lemma_stage_ends_with_its_processor(name: Seq<char>)
    ensures
        pipeline_for(name) matches Ok(Some(p)) ==> p.len() > 0 && stage_processor(name) == Some(p.last()) && p.no_duplicates(),
        pipeline_for(name) matches Ok(None) ==> stage_processor(name) is None,
{
    let c = standard_chain();
    assert(c.no_duplicates());
    if let Ok(Some(p)) = pipeline_for(name) {
        assert forall|i: int, j: int| 0 <= i < p.len() && 0 <= j < p.len() && i != j implies p[i] != p[j] by {
            if standard_stage_len(name) is Some {
                assert(p[i] == c[i] && p[j] == c[j]);
            } else if name == "global_invariant_instrumentation"@ {
                if i < 11 && j < 11 {
                    assert(p[i] == c[i] && p[j] == c[j]);
                }
            } else if name == "mono_analysis"@ {
                if i < 6 && j < 6 {
                    assert(p[i] == c[i + 7] && p[j] == c[j + 7]);
                }
            }
        }
    }
}

} // verus!
