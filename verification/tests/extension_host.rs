use astrcode::extension_host::{
    command_dispatch_priority, extension_stage_diagnostics_dto, extension_stage_status_string, guest_range,
    read_str_from_memory, select_command, unpack_ptr_len, ExtensionStageDiagnostics, ExtensionStageStatus, HostState,
    RegisteredSlashCommand, SlashCommand,
};
use astrcode::json_value::JsonValue;
use astrcode::s6r::{default_schema_version, sequential_mode, CallRequest, CallResponse, S6R_VERSION};

fn reg(ext: &str, name: &str) -> RegisteredSlashCommand {
    RegisteredSlashCommand {
        extension_id: ext.into(),
        command: SlashCommand { name: name.into(), description: String::new() },
    }
}

#[test]
fn host_state_limits() {
    let s = HostState::new();
    assert_eq!(s.fuel_budget, 10_000_000);
    assert_eq!(s.memory_limit, 64 * 1024 * 1024);
    let s = s.with_limits(5, 1024);
    assert_eq!(s.fuel_budget, 5);
    assert!(s.memory_growing(0, 1024, None));
    assert!(!s.memory_growing(0, 1025, None));
    assert!(s.table_growing(0, 1024, None));
    assert!(!s.table_growing(0, 1025, None));
    assert_eq!(HostState::default().fuel_budget, 10_000_000);
}

#[test]
fn guest_memory_reads_are_bounded() {
    let data = b"hello world";
    assert_eq!(read_str_from_memory(data, 6, 5).unwrap(), "world");
    assert_eq!(read_str_from_memory(data, 100, 0).unwrap(), "");
    assert_eq!(
        read_str_from_memory(data, 8, 5).unwrap_err(),
        "out-of-bounds read: ptr=8, len=5, mem_size=11"
    );
    assert_eq!(guest_range(2, 3, 5), Ok((2, 5)));
    assert_eq!(read_str_from_memory(&[0x66, 0xff, 0x6f], 0, 3).unwrap(), "f\u{fffd}o");
    assert_eq!(unpack_ptr_len((7i64 << 32) | 9), (7, 9));
}

#[test]
fn skill_commands_dispatch_last() {
    assert_eq!(command_dispatch_priority("astrcode-skill"), 1);
    assert_eq!(command_dispatch_priority("other"), 0);
    let cmds = vec![reg("astrcode-skill", "/review"), reg("ext-a", "/other"), reg("ext-b", "/review"), reg("ext-c", "/review")];
    assert_eq!(select_command(&cmds, "/review"), Some(2));
    assert_eq!(select_command(&cmds, "/other"), Some(1));
    assert_eq!(select_command(&cmds, "/missing"), None);
    let only_skill = vec![reg("astrcode-skill", "/x")];
    assert_eq!(select_command(&only_skill, "/x"), Some(0));
}

#[test]
fn stage_status_names() {
    assert_eq!(extension_stage_status_string(ExtensionStageStatus::Succeeded), "succeeded");
    assert_eq!(extension_stage_status_string(ExtensionStageStatus::Skipped), "skipped");
    let dto = extension_stage_diagnostics_dto(ExtensionStageDiagnostics {
        status: ExtensionStageStatus::Failed,
        duration_ms: Some(4),
        error: Some("bad".into()),
    });
    assert_eq!(dto.status, "failed");
    assert_eq!(dto.duration_ms, Some(4));
    assert_eq!(dto.error.as_deref(), Some("bad"));
}

#[test]
fn s6r_defaults_and_accessors() {
    assert_eq!(S6R_VERSION, "1");
    assert_eq!(sequential_mode(), "sequential");
    assert_eq!(default_schema_version(), 1);
    let req = CallRequest::Hook { id: "req-2".into(), on: "pre_tool_use".into(), input: JsonValue::Null };
    assert_eq!(req.id(), "req-2");
    let resp = CallResponse {
        id: "req-2".into(),
        ok: true,
        effect: None,
        data: Some(JsonValue::Object(vec![("reason".into(), JsonValue::String("nope".into()))])),
        error: None,
    };
    assert_eq!(resp.effect(), "ok");
    assert_eq!(resp.data_str("reason"), "nope");
    assert_eq!(resp.data_str("missing"), "");
    assert_eq!(resp.data_value("reason"), Some(&JsonValue::String("nope".into())));
    let block = CallResponse { effect: Some("block".into()), data: None, ..resp };
    assert_eq!(block.effect(), "block");
    assert_eq!(block.data_value("reason"), None);
}

use astrcode::extension_host::{guest_log_level, guest_write_range, read_caller_string, GuestLogLevel};

#[test]
fn guest_writes_and_logs() {
    assert_eq!(guest_write_range(10, 5, 15), Ok((10, 15)));
    assert_eq!(guest_write_range(10, 6, 15), Err("wasm alloc returned out-of-bounds pointer".to_string()));
    assert_eq!(read_caller_string(b"abc", 1, 5), "");
    assert_eq!(read_caller_string(b"abc", 1, 2), "bc");
    assert_eq!(guest_log_level(0), GuestLogLevel::Trace);
    assert_eq!(guest_log_level(3), GuestLogLevel::Warn);
    assert_eq!(guest_log_level(2), GuestLogLevel::Info);
    assert_eq!(guest_log_level(-7), GuestLogLevel::Info);
}

use astrcode::extension_host::{extension_registration, Registration};

#[test]
fn duplicate_extensions_are_skipped() {
    let registered = vec!["astrcode-mcp".to_string(), "astrcode-skill".to_string()];
    assert_eq!(extension_registration(&registered, "astrcode-skill", true), Registration::SkipDuplicate);
    assert_eq!(extension_registration(&registered, "astrcode-todo", true), Registration::Add { with_record: true });
    assert_eq!(extension_registration(&[], "astrcode-mode", false), Registration::Add { with_record: false });
}
