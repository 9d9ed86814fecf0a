use rust_to_ts::convert::{file_action, Direction, FileAction};

#[test]
fn folder_converter_picks_an_action_per_file() {
    assert_eq!(file_action(Some("Cargo.toml"), "toml", Direction::RsToTs), FileAction::MirrorManifest);
    assert_eq!(file_action(Some("README.md"), "md", Direction::Both), FileAction::Skip);
    assert_eq!(file_action(None, "", Direction::Both), FileAction::Skip);
    assert_eq!(file_action(Some("flow.bpmn"), "bpmn", Direction::TsToRs), FileAction::BpmnToBoth);
    assert_eq!(file_action(Some("main.rs"), "rs", Direction::RsToTs), FileAction::RustToTs);
    assert_eq!(file_action(Some("main.rs"), "rs", Direction::Both), FileAction::RustToTs);
    assert_eq!(file_action(Some("main.rs"), "rs", Direction::TsToRs), FileAction::MirrorOnly);
    assert_eq!(file_action(Some("lib.ts"), "ts", Direction::TsToRs), FileAction::TsToRust);
    assert_eq!(file_action(Some("lib.ts"), "ts", Direction::Both), FileAction::TsToRust);
    assert_eq!(file_action(Some("lib.ts"), "ts", Direction::RsToTs), FileAction::MirrorOnly);
}
