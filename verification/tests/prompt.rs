use astrcode::extension::ExecutionMode;
use astrcode::prompt::{
    build_system_prompt, ExtensionPromptBlock, ExtensionSection, SystemPromptInput,
    ToolDefinition, ToolOrigin,
};

fn tool(name: &str, description: &str, origin: ToolOrigin) -> ToolDefinition {
    ToolDefinition {
        name: name.into(),
        description: description.into(),
        parameters: serde_json::Value::Null,
        origin,
        execution_mode: ExecutionMode::Sequential,
    }
}

fn block(section: ExtensionSection, content: &str) -> ExtensionPromptBlock {
    ExtensionPromptBlock { section, content: content.into() }
}

#[test]
fn build_renders_all_sections_in_order() {
    let input = SystemPromptInput {
        working_dir: "/test".into(),
        os: "linux".into(),
        shell: "bash".into(),
        date: "2026-04-29".into(),
        identity: Some("custom identity".into()),
        user_rules: Some("test rules".into()),
        project_rules: Some("project rules content".into()),
        tools: vec![
            tool("read", "Read files.", ToolOrigin::Builtin),
            tool("tool_search_tool", "Search external tools.", ToolOrigin::Bundled),
            tool("mcp__demo__search", "Search demo server.", ToolOrigin::Bundled),
        ],
        extension_blocks: vec![
            block(ExtensionSection::Skills, "skill a"),
            block(ExtensionSection::Agents, "agent x"),
            block(ExtensionSection::PlatformInstructions, "extra hint"),
        ],
        extra_instructions: Some("extra body".into()),
    };

    let prompt = build_system_prompt(&input);

    assert!(prompt.contains("[Identity]\n  custom identity"));
    assert!(prompt.contains("[Environment]\n  Working directory: /test"));
    assert!(prompt.contains("[User Rules]\n  test rules"));
    assert!(prompt.contains("[Project Rules]\n  project rules content"));
    assert!(prompt.contains("[Tool Summary]"));
    assert!(prompt.contains("- `read`: Read files."));
    assert!(prompt.contains("When To Use `tool_search_tool`"));
    assert!(prompt.contains("[Example Workflow]"));
    assert!(prompt.contains("[SystemPromptInstruction]\n  extra hint"));
    assert!(prompt.contains("[Skills]\n  skill a"));
    assert!(prompt.contains("[Agents]\n  agent x"));
    assert!(prompt.contains("[Response Style]"));
    assert!(prompt.contains("[Additional Instructions]\n  extra body"));

    let identity = prompt.find("[Identity]").unwrap();
    let env = prompt.find("[Environment]").unwrap();
    let style = prompt.find("[Response Style]").unwrap();
    let user_rules = prompt.find("[User Rules]").unwrap();
    let project_rules = prompt.find("[Project Rules]").unwrap();
    let tools = prompt.find("[Tool Summary]").unwrap();
    let workflow = prompt.find("[Example Workflow]").unwrap();
    let platform = prompt.find("[SystemPromptInstruction]").unwrap();
    let skills = prompt.find("[Skills]").unwrap();
    let agents = prompt.find("[Agents]").unwrap();

    assert!(identity < env);
    assert!(env < style);
    assert!(style < user_rules);
    assert!(user_rules < project_rules);
    assert!(project_rules < tools);
    assert!(tools < workflow);
    assert!(workflow < platform);
    assert!(platform < skills);
    assert!(skills < agents);
}

#[test]
fn empty_optionals_are_skipped() {
    let input = SystemPromptInput {
        working_dir: "/test".into(),
        os: "linux".into(),
        shell: "bash".into(),
        date: "2026-04-29".into(),
        identity: None,
        user_rules: None,
        project_rules: None,
        tools: vec![],
        extension_blocks: vec![],
        extra_instructions: None,
    };

    let prompt = build_system_prompt(&input);

    assert!(prompt.contains("[Identity]\n"));
    assert!(prompt.contains("[Environment]"));
    assert!(prompt.contains("[Response Style]"));
    assert!(!prompt.contains("[User Rules]"));
    assert!(!prompt.contains("[Project Rules]"));
    assert!(!prompt.contains("[Tool Summary]"));
    assert!(!prompt.contains("[Example Workflow]"));
    assert!(!prompt.contains("[SystemPromptInstruction]"));
    assert!(!prompt.contains("[Skills]"));
    assert!(!prompt.contains("[Agents]"));
}

fn stable_input(working_dir: &str, shell: &str) -> SystemPromptInput {
    SystemPromptInput {
        working_dir: working_dir.into(),
        os: "linux".into(),
        shell: shell.into(),
        date: "2026-04-29".into(),
        identity: Some("stable identity".into()),
        user_rules: Some("stable user rules".into()),
        project_rules: Some("stable project rules".into()),
        tools: vec![tool("read", "Read files.", ToolOrigin::Builtin)],
        extension_blocks: vec![
            block(ExtensionSection::PlatformInstructions, "stable platform"),
            block(ExtensionSection::Skills, "stable skills"),
            block(ExtensionSection::Agents, "stable agents"),
        ],
        extra_instructions: None,
    }
}

#[test]
fn environment_changes_keep_identity_prefix_stable() {
    let first = build_system_prompt(&stable_input("/one", "bash"));
    let second = build_system_prompt(&stable_input("/two", "zsh"));
    let env = first.find("[Environment]").unwrap();

    assert_eq!(&first[..env], &second[..env]);
}

#[test]
fn default_identity_and_exact_layout() {
    let input = SystemPromptInput {
        working_dir: "/w".into(),
        os: "linux".into(),
        shell: "sh".into(),
        date: "d".into(),
        identity: Some("  line one\n\n   line two  \n".into()),
        user_rules: None,
        project_rules: None,
        tools: vec![],
        extension_blocks: vec![],
        extra_instructions: None,
    };
    let prompt = build_system_prompt(&input);
    assert!(prompt.starts_with(
        "[Identity]\n  line one\n\n     line two\n\n[Environment]\n  Working directory: /w\n  OS: linux\n  Shell: sh\n  Date: d\n\n[Response Style]\n  Write for the user"
    ));
    assert!(!prompt.ends_with('\n'));
}

#[test]
fn tool_summary_sorts_builtins_and_lists_groups() {
    let input = SystemPromptInput {
        working_dir: "/w".into(),
        os: "linux".into(),
        shell: "sh".into(),
        date: "d".into(),
        identity: None,
        user_rules: None,
        project_rules: None,
        tools: vec![
            tool("write", "Write   files.", ToolOrigin::Builtin),
            tool("agent", "Spawn\nagents.", ToolOrigin::Bundled),
            tool("read", "Read files.", ToolOrigin::Builtin),
            tool("ext_tool", "From an extension.", ToolOrigin::Extension),
        ],
        extension_blocks: vec![
            block(ExtensionSection::Skills, "  "),
            block(ExtensionSection::Skills, " one "),
            block(ExtensionSection::Skills, "two"),
        ],
        extra_instructions: None,
    };
    let prompt = build_system_prompt(&input);
    assert!(prompt.contains(
        "  Builtin Tools\n  - `agent`: Spawn agents.\n  - `read`: Read files.\n  - `write`: Write files.\n\n  Agent Collaboration Tools\n"
    ));
    assert!(prompt.contains("  External MCP / Plugin Tools\n  - `ext_tool`: From an extension."));
    assert!(!prompt.contains("[Example Workflow]"));
    assert!(prompt.ends_with("[Skills]\n  one\n\n  two"));
}
