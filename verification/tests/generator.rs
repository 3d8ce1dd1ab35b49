use move_scanner::bytecode::{FunctionInfo, StacklessBytecodeGenerator};
use move_scanner::detectors::{graph_file_name, GraphGenerator, Options};
use move_scanner::locate::{LocateError, SourceFile};
use move_scanner::packages::{CompiledModuleInfo, PackageModule, Packages, StructDef};
use move_scanner::result::{FunctionCount, Location, ModuleInfo, Status};
use std::time::Instant;

fn options() -> Options {
    Options { bytecode_path: "build".to_string(), output_path: "out/output.json".to_string(), sources_path: None }
}

fn function(is_native: bool) -> FunctionInfo {
    FunctionInfo { code: vec![], cfg: None, is_native }
}

fn packages() -> Packages {
    Packages {
        modules: vec![
            PackageModule {
                name: "coin".to_string(),
                module: CompiledModuleInfo {
                    constant_count: 3,
                    struct_defs: vec![StructDef {
                        name: "Coin".to_string(),
                        abilities: vec!["key".to_string(), "store".to_string()],
                    }],
                },
                stbgr: StacklessBytecodeGenerator { functions: vec![function(false), function(true), function(true)] },
            },
            PackageModule {
                name: "pool".to_string(),
                module: CompiledModuleInfo { constant_count: 0, struct_defs: vec![] },
                stbgr: StacklessBytecodeGenerator { functions: vec![function(false)] },
            },
        ],
    }
}

fn sources() -> Option<Vec<SourceFile>> {
    Some(vec![SourceFile {
        path: "sources/coin.move".to_string(),
        lines: vec![Some("module 0x1::coin {".to_string()), Some("}".to_string())],
    }])
}

#[test]
fn new_generator_has_no_modules() {
    let g = GraphGenerator::new(options());
    assert!(g.result.modules.is_empty());
    assert_eq!(g.result.total_time, 0);
    assert_eq!(g.options.output_path, "out/output.json");
}

#[test]
fn init_result_summarizes_each_module() {
    let mut g = GraphGenerator::new(options());
    assert_eq!(g.init_result(&packages(), &sources()), Ok(()));
    assert_eq!(g.result.modules.len(), 2);
    let coin = &g.result.modules[0];
    assert_eq!(coin.name, "coin");
    assert_eq!(coin.info.constant_count, 3);
    assert_eq!(coin.info.function_count, FunctionCount { all: 3, native: 2 });
    assert_eq!(coin.info.location, Some(Location { path: "sources/coin.move".to_string(), line: 1 }));
    assert_eq!(coin.info.structs.len(), 1);
    assert_eq!(coin.info.structs[0].name, "Coin");
    assert_eq!(coin.info.structs[0].abilities, vec!["key".to_string(), "store".to_string()]);
    assert_eq!(coin.info.structs[0].source_code, "");
    assert_eq!(coin.info.status, Status::Pending);
    let pool = &g.result.modules[1];
    assert_eq!(pool.name, "pool");
    assert_eq!(pool.info.function_count, FunctionCount { all: 1, native: 0 });
    assert_eq!(pool.info.location, None);
}

#[test]
fn init_result_twice_replaces_the_summaries() {
    let mut g = GraphGenerator::new(options());
    assert_eq!(g.init_result(&packages(), &None), Ok(()));
    assert_eq!(g.init_result(&packages(), &sources()), Ok(()));
    assert_eq!(g.result.modules.len(), 2);
    assert_eq!(g.result.modules[0].info.location, Some(Location { path: "sources/coin.move".to_string(), line: 1 }));
}

#[test]
fn init_result_with_an_invalid_module_name_records_nothing() {
    let mut g = GraphGenerator::new(options());
    let mut p = packages();
    p.modules[1].name = "po(ol".to_string();
    assert_eq!(g.init_result(&p, &sources()), Err(LocateError::InvalidModulePattern { module_name: "po(ol".to_string() }));
    assert!(g.result.modules.is_empty());
}

#[test]
fn complete_result_marks_every_module_passed() {
    let mut g = GraphGenerator::new(options());
    g.init_result(&packages(), &None).unwrap();
    assert!(g.complete_result_at(1234));
    assert_eq!(g.result.total_time, 1234);
    for entry in &g.result.modules {
        assert_eq!(entry.info.status, Status::Pass);
    }
    assert_eq!(g.result.modules[0].info.function_count, FunctionCount { all: 3, native: 2 });
}

#[test]
fn completing_twice_equals_completing_once() {
    let mut g = GraphGenerator::new(options());
    g.init_result(&packages(), &sources()).unwrap();
    assert!(g.complete_result_at(7));
    let once = g.result.clone();
    assert!(g.complete_result_at(7));
    assert_eq!(g.result, once);
}

#[test]
fn time_too_large_for_usize_changes_nothing() {
    let mut g = GraphGenerator::new(options());
    g.init_result(&packages(), &None).unwrap();
    let before = g.result.clone();
    assert!(!g.complete_result_at(u128::MAX));
    assert_eq!(g.result, before);
}

#[test]
fn complete_result_from_a_clock() {
    let mut g = GraphGenerator::new(options());
    g.init_result(&packages(), &None).unwrap();
    assert!(g.complete_result(Instant::now()));
    assert!(g.result.modules.iter().all(|e| e.info.status == Status::Pass));
}

#[test]
fn empty_module_info() {
    let info = ModuleInfo::empty();
    assert_eq!(info.constant_count, 0);
    assert_eq!(info.function_count, FunctionCount { all: 0, native: 0 });
    assert_eq!(info.location, None);
    assert!(info.structs.is_empty());
    assert_eq!(info.status, Status::Pending);
}

#[test]
fn graph_file_is_named_after_the_output_stem() {
    assert_eq!(graph_file_name("output"), "output_graph.json");
    assert_eq!(graph_file_name(""), "_graph.json");
}

#[test]
fn module_names_in_order() {
    assert_eq!(packages().get_module_names(), vec!["coin".to_string(), "pool".to_string()]);
}
