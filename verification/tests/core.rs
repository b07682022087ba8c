use hearth::audit::{Op, Source};

#[test]
fn core_compiles() {
    assert_eq!(1 + 1, 2);
}

#[test]
fn audit_names_are_the_stored_ones() {
    assert_eq!(Source::App.as_str(), "app");
    assert_eq!(Source::Cli.as_str(), "cli");
    assert_eq!(Source::Ai.as_str(), "ai");
    assert_eq!(Op::Create.as_str(), "create");
    assert_eq!(Op::Update.as_str(), "update");
    assert_eq!(Op::Delete.as_str(), "delete");
}
