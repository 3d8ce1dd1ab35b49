use move_scanner::locate::{find_module_path, module_pattern, LocateError, SourceFile};
use move_scanner::result::Location;

fn file(path: &str, lines: &[&str]) -> SourceFile {
    SourceFile { path: path.to_string(), lines: lines.iter().map(|l| Some(l.to_string())).collect() }
}

fn names(list: &[&str]) -> Vec<String> {
    list.iter().map(|n| n.to_string()).collect()
}

fn at(path: &str, line: usize) -> Option<Location> {
    Some(Location { path: path.to_string(), line })
}

#[test]
fn without_sources_nothing_is_located() {
    let r = find_module_path(&names(&["coin", "pool"]), &None).unwrap();
    assert_eq!(r, vec![None, None]);
}

#[test]
fn module_found_at_its_declaration_line() {
    let files = vec![file("sources/coin.move", &["// coin", "module 0x1::coin {", "}"])];
    let r = find_module_path(&names(&["coin"]), &Some(files)).unwrap();
    assert_eq!(r, vec![at("sources/coin.move", 2)]);
}

#[test]
fn declaration_needs_a_brace_space_or_line_end_after_the_name() {
    let files = vec![file("a.move", &["module 0x1::coins {", "module 0x2::coin"])];
    let r = find_module_path(&names(&["coin"]), &Some(files)).unwrap();
    assert_eq!(r, vec![at("a.move", 2)]);
}

#[test]
fn module_without_declaration_has_no_location() {
    let files = vec![file("a.move", &["module 0x1::coin {"])];
    let r = find_module_path(&names(&["pool"]), &Some(files)).unwrap();
    assert_eq!(r, vec![None]);
}

#[test]
fn unreadable_lines_are_skipped_but_counted() {
    let files = vec![SourceFile {
        path: "a.move".to_string(),
        lines: vec![None, Some("module 0x1::coin {".to_string())],
    }];
    let r = find_module_path(&names(&["coin"]), &Some(files)).unwrap();
    assert_eq!(r, vec![at("a.move", 2)]);
}

#[test]
fn claimed_file_is_searched_again_when_no_other_declares_the_module() {
    let files = vec![file("both.move", &["module 0x1::coin {", "}", "module 0x1::pool {"])];
    let r = find_module_path(&names(&["coin", "pool"]), &Some(files)).unwrap();
    assert_eq!(r, vec![at("both.move", 1), at("both.move", 3)]);
}

#[test]
fn unclaimed_file_wins_over_an_earlier_claimed_one() {
    let files = vec![
        file("both.move", &["module 0x1::coin {", "module 0x1::pool {"]),
        file("pool.move", &["module 0x1::pool {"]),
    ];
    let r = find_module_path(&names(&["coin", "pool"]), &Some(files)).unwrap();
    assert_eq!(r, vec![at("both.move", 1), at("pool.move", 1)]);
}

#[test]
fn last_claimed_file_wins() {
    let files = vec![
        file("a.move", &["module 0x1::coin {", "module 0x1::util {"]),
        file("b.move", &["module 0x1::pool {", "", "module 0x1::util {"]),
    ];
    let r = find_module_path(&names(&["coin", "pool", "util"]), &Some(files)).unwrap();
    assert_eq!(r, vec![at("a.move", 1), at("b.move", 1), at("b.move", 3)]);
}

#[test]
fn invalid_module_name_is_reported() {
    let files = vec![file("a.move", &["module 0x1::coin {"])];
    let r = find_module_path(&names(&["coin", "bad(", "worse("]), &Some(files));
    assert_eq!(r, Err(LocateError::InvalidModulePattern { module_name: "bad(".to_string() }));
}

#[test]
fn invalid_module_name_without_sources_is_no_error() {
    let r = find_module_path(&names(&["bad("]), &None);
    assert_eq!(r, Ok(vec![None]));
}

#[test]
fn declaration_pattern_of_a_module() {
    assert_eq!(module_pattern("coin"), r"module .*::coin([{\s]|$)");
}
