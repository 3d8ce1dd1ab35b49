use move_scanner::pipeline::{get_tested_transformation_pipeline, PipelineError, Processor};

fn processors(name: &str) -> Vec<Processor> {
    get_tested_transformation_pipeline(name).unwrap().unwrap()
}

#[test]
fn from_move_has_no_pipeline() {
    assert_eq!(get_tested_transformation_pipeline("from_move"), Ok(None));
}

#[test]
fn livevar_runs_four_processors() {
    assert_eq!(
        processors("livevar"),
        vec![
            Processor::EliminateImmRefs,
            Processor::MutRefInstrumenter,
            Processor::ReachingDef,
            Processor::LiveVarAnalysis,
        ]
    );
}

#[test]
fn unknown_name_is_an_error() {
    assert_eq!(
        get_tested_transformation_pipeline("no_such_stage"),
        Err(PipelineError::NoPipeline { dir_name: "no_such_stage".to_string() })
    );
}

#[test]
fn borrow_strong_runs_what_borrow_runs() {
    assert_eq!(processors("borrow"), processors("borrow_strong"));
    assert_eq!(processors("borrow").len(), 5);
}

#[test]
fn single_processor_pipelines() {
    assert_eq!(processors("escape_analysis"), vec![Processor::EscapeAnalysis]);
    assert_eq!(processors("read_write_set"), vec![Processor::ReadWriteSet]);
    assert_eq!(processors("usage_analysis"), vec![Processor::Usage]);
}

#[test]
fn mono_analysis_starts_with_usage() {
    assert_eq!(
        processors("mono_analysis"),
        vec![
            Processor::Usage,
            Processor::VerificationAnalysis,
            Processor::SpecInstrumentation,
            Processor::GlobalInvariantAnalysis,
            Processor::WellFormedInstrumentation,
            Processor::DataInvariantInstrumentation,
            Processor::MonoAnalysis,
        ]
    );
}

#[test]
fn standard_stages_extend_each_other() {
    let stages = [
        "eliminate_imm_refs",
        "mut_ref_instrumentation",
        "reaching_def",
        "livevar",
        "borrow",
        "memory_instr",
        "clean_and_optimize",
        "verification_analysis",
        "spec_instrumentation",
        "global_invariant_analysis",
        "data_invariant_instrumentation",
    ];
    let lens = [1, 2, 3, 4, 5, 6, 7, 9, 10, 11, 13];
    for k in 0..stages.len() {
        let earlier = processors(stages[k]);
        assert_eq!(earlier.len(), lens[k]);
        for later in &stages[k..] {
            let later = processors(later);
            assert_eq!(&later[..earlier.len()], &earlier[..]);
        }
    }
}

#[test]
fn instrumentation_follows_analysis() {
    let mut analysis = processors("global_invariant_analysis");
    analysis.push(Processor::GlobalInvariantInstrumentation);
    assert_eq!(processors("global_invariant_instrumentation"), analysis);
}

#[test]
fn names_are_case_sensitive() {
    assert!(get_tested_transformation_pipeline("LiveVar").is_err());
}

#[test]
fn unknown_name_message() {
    let e = get_tested_transformation_pipeline("livevars").unwrap_err();
    assert_eq!(e.message(), "the sub-directory `livevars` has no associated pipeline to test");
}
