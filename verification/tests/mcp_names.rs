use astrcode::mcp_names::{build_tool_name, normalize_component};

#[test]
fn builds_normalized_mcp_tool_names() {
    assert_eq!(
        build_tool_name("GitHub Server", "Create Issue!").as_deref(),
        Some("mcp__github_server__create_issue")
    );
}

#[test]
fn rejects_empty_normalized_names() {
    assert_eq!(build_tool_name("!!!", "tool"), None);
    assert_eq!(build_tool_name("server", "???"), None);
}

#[test]
fn normalization_collapses_and_trims_separators() {
    assert_eq!(normalize_component("  Foo--Bar  "), "foo_bar");
    assert_eq!(normalize_component("__a__b__"), "a_b");
    assert_eq!(normalize_component("Ünïcode 42"), "n_code_42");
    assert_eq!(normalize_component(""), "");
}

#[test]
fn names_keep_server_and_tool_apart() {
    let a = build_tool_name("a b", "c").unwrap();
    let b = build_tool_name("a", "b c").unwrap();
    let c = build_tool_name("a__", "__b__c").unwrap();
    assert_eq!(a, "mcp__a_b__c");
    assert_eq!(b, "mcp__a__b_c");
    assert_eq!(c, "mcp__a__b_c");
    assert_ne!(a, b);
}
