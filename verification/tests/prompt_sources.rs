use astrcode::memory::{batch_user_prompt, MemoryConfig};
use astrcode::prompt_files::{
    agents_file_candidates, find_agents_files, identity_from_content, non_empty_string, project_rules_text,
    user_agents_md_path, user_identity_md_path, user_rules_text,
};

#[test]
fn identity_is_trimmed_and_capped() {
    assert_eq!(identity_from_content("  me  \n"), Some("me".to_string()));
    assert_eq!(identity_from_content(" \n\t"), None);
    let long = "é".repeat(5000);
    let id = identity_from_content(&long).unwrap();
    assert_eq!(id.len(), 8192);
}

#[test]
fn user_rules_name_their_file() {
    assert_eq!(
        user_rules_text("/home/u/.astrcode/AGENTS.md", " be brief \n"),
        Some("User-wide instructions from /home/u/.astrcode/AGENTS.md:\nbe brief".to_string())
    );
    assert_eq!(user_rules_text("p", "   "), None);
}

#[test]
fn project_rules_merge_files_in_order() {
    assert_eq!(project_rules_text(&[]), None);
    let files = vec![
        ("/repo/AGENTS.md".to_string(), Some("root rules".to_string())),
        ("/repo/sub/AGENTS.md".to_string(), None),
        ("/repo/sub/deep/AGENTS.md".to_string(), Some("deep\n".to_string())),
    ];
    let text = project_rules_text(&files).unwrap();
    assert_eq!(
        text,
        "以下内容来自 AGENTS.md。必须遵守；如果规则冲突，目录更深的 AGENTS.md 优先。\n\n--- /repo/AGENTS.md ---\nroot rules\n\n--- /repo/sub/deep/AGENTS.md ---\ndeep\n"
    );
    assert_eq!(non_empty_string(" \n".into()), None);
    assert_eq!(non_empty_string("x".into()), Some("x".to_string()));
}

#[test]
fn memory_defaults_and_batch_prompt() {
    let d = MemoryConfig::from_extension_config(None);
    assert_eq!(d.max_contexts, 10);
    assert!(d.auto_extract && d.auto_extract_after_save);
    assert_eq!(d.max_changed_sessions, 5);
    assert_eq!(d.min_conversation_chars, 200);
    assert_eq!(d.max_context_age_days, 90);
    let custom = MemoryConfig { max_contexts: 3, ..d.clone() };
    assert_eq!(MemoryConfig::from_extension_config(Some(custom)).max_contexts, 3);
    let p = batch_user_prompt("S", "2026-05-30", "  ");
    assert!(p.starts_with("Current date: 2026-05-30\n\nChanged session rollouts:\nS\n\nReturn JSON:\n"));
    assert!(p.ends_with("\"action\":\"add\",\"entities\":[\"...\"]}]}]}"));
    let q = batch_user_prompt("S", "D", "m1");
    assert!(q.contains("Existing memories (user + project) — merge, update, or delete; do not duplicate:\nm1\n\n"));
    assert!(q.contains("\"action\":\"add|update|delete\",\"replaces\":\"optional substring of old memory\""));
}

#[test]
fn agents_candidates_run_outermost_first() {
    assert_eq!(
        agents_file_candidates("/a/b"),
        vec!["/AGENTS.md".to_string(), "/a/AGENTS.md".to_string(), "/a/b/AGENTS.md".to_string()]
    );
    assert_eq!(agents_file_candidates("proj"), vec!["AGENTS.md".to_string(), "proj/AGENTS.md".to_string()]);
}

#[test]
fn only_found_agents_files_are_kept_in_order() {
    let candidates = vec!["/AGENTS.md".to_string(), "/a/AGENTS.md".to_string(), "/a/b/AGENTS.md".to_string()];
    assert_eq!(
        find_agents_files(candidates, &[true, false, true]),
        vec!["/AGENTS.md".to_string(), "/a/b/AGENTS.md".to_string()]
    );
    assert_eq!(find_agents_files(Vec::new(), &[]), Vec::<String>::new());
}

#[test]
fn user_files_lie_in_the_astrcode_directory() {
    assert_eq!(user_identity_md_path("/home/u/.astrcode"), "/home/u/.astrcode/IDENTITY.md");
    assert_eq!(user_agents_md_path("/home/u/.astrcode"), "/home/u/.astrcode/AGENTS.md");
}
