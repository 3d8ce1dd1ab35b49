use move_scanner::compile::build_command;

#[test]
fn sui_manifest_builds_with_sui() {
    let manifest = "[package]\nname = \"demo\"\n\n[dependencies]\nSui = { git = \"https://github.com/MystenLabs/sui.git\" }\n";
    assert_eq!(build_command(Some(manifest)), Some("sui move build"));
}

#[test]
fn aptos_manifest_builds_with_aptos() {
    let manifest = "[dependencies]\nAptosFramework = { git = \"https://github.com/aptos-labs/aptos-core.git\" }\n";
    assert_eq!(build_command(Some(manifest)), Some("aptos move compile"));
}

#[test]
fn sui_wins_over_aptos() {
    assert_eq!(build_command(Some("aptos and sui")), Some("sui move build"));
}

#[test]
fn other_manifest_is_no_move_project() {
    assert_eq!(build_command(Some("[package]\nname = \"demo\"\n")), None);
    assert_eq!(build_command(Some("")), None);
}

#[test]
fn missing_manifest_runs_the_empty_command() {
    assert_eq!(build_command(None), Some(""));
}

#[test]
fn mention_is_case_sensitive() {
    assert_eq!(build_command(Some("SUI APTOS")), None);
}
