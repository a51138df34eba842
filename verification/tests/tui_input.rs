use astrcode::tui_input::{
    map_terminal_event, poll_order, EventSource, KeyKind, TerminalEvent, TuiEvent, key_action, plan_slash_command, slash_help_lines, slash_selection_plan, submit_plan, ClientCommand,
    ExtensionCommandInfo, Key, KeyAction, Modifiers, SelectionPlan, SlashCommand, SlashPlan, SlashSpec, SubmitPlan,
};

fn plain() -> Modifiers {
    Modifiers { shift: false, alt: false, control: false }
}

fn control() -> Modifiers {
    Modifiers { shift: false, alt: false, control: true }
}

#[test]
fn escape_closes_palette_before_aborting() {
    assert_eq!(key_action(Key::Esc, plain(), true, true), KeyAction::ClosePalette);
    assert_eq!(key_action(Key::Esc, plain(), false, true), KeyAction::AbortTurn);
    assert_eq!(key_action(Key::Esc, plain(), false, false), KeyAction::Nothing);
}

#[test]
fn enter_inserts_newline_with_shift_or_alt() {
    let shift = Modifiers { shift: true, alt: false, control: false };
    let alt = Modifiers { shift: false, alt: true, control: false };
    assert_eq!(key_action(Key::Enter, shift, true, false), KeyAction::InsertNewline);
    assert_eq!(key_action(Key::Enter, alt, false, false), KeyAction::InsertNewline);
    assert_eq!(key_action(Key::Enter, plain(), true, false), KeyAction::AcceptSlashSelection);
    assert_eq!(key_action(Key::Enter, plain(), false, false), KeyAction::SubmitInput);
}

#[test]
fn tab_only_completes_with_open_palette() {
    assert_eq!(key_action(Key::Tab, plain(), true, false), KeyAction::CompleteSlashSelection);
    assert_eq!(key_action(Key::Tab, plain(), false, false), KeyAction::Nothing);
}

#[test]
fn arrows_move_palette_or_history() {
    assert_eq!(key_action(Key::Up, plain(), true, false), KeyAction::SlashUp);
    assert_eq!(key_action(Key::Up, plain(), false, false), KeyAction::UpOrHistoryPrevious);
    assert_eq!(key_action(Key::Down, plain(), true, false), KeyAction::SlashDown);
    assert_eq!(key_action(Key::Down, plain(), false, false), KeyAction::DownOrHistoryNext);
    assert_eq!(key_action(Key::Left, plain(), false, false), KeyAction::MoveLeft);
    assert_eq!(key_action(Key::End, plain(), false, false), KeyAction::MoveEnd);
}

#[test]
fn control_shortcuts_ignore_case() {
    assert_eq!(key_action(Key::Char('a'), control(), false, false), KeyAction::MoveHome);
    assert_eq!(key_action(Key::Char('E'), control(), false, false), KeyAction::MoveEnd);
    assert_eq!(key_action(Key::Char('U'), control(), false, false), KeyAction::DeleteBeforeCursor);
    assert_eq!(key_action(Key::Char('k'), control(), false, false), KeyAction::DeleteAfterCursor);
    assert_eq!(key_action(Key::Char('w'), control(), false, false), KeyAction::DeletePreviousWord);
    assert_eq!(key_action(Key::Char('C'), control(), false, false), KeyAction::Quit);
    assert_eq!(key_action(Key::Char('x'), control(), false, false), KeyAction::Nothing);
}

#[test]
fn characters_insert_unless_alt_is_held() {
    let alt = Modifiers { shift: false, alt: true, control: false };
    assert_eq!(key_action(Key::Char('q'), plain(), false, false), KeyAction::InsertChar('q'));
    assert_eq!(key_action(Key::Char('q'), alt, false, false), KeyAction::Nothing);
    assert_eq!(key_action(Key::Backspace, alt, false, false), KeyAction::DeletePreviousWord);
    assert_eq!(key_action(Key::Backspace, plain(), false, false), KeyAction::Backspace);
}

#[test]
fn new_sends_create_session() {
    match plan_slash_command(SlashCommand::New, "/work".to_string(), &[], &[]) {
        SlashPlan::Send { command: ClientCommand::CreateSession { working_dir }, status } => {
            assert_eq!(working_dir, "/work");
            assert_eq!(status, "Creating session");
        },
        _ => panic!("expected a create-session command"),
    }
}

#[test]
fn resume_without_id_shows_usage() {
    match plan_slash_command(SlashCommand::Resume("   ".to_string()), ".".to_string(), &[], &[]) {
        SlashPlan::Show { title, body } => {
            assert_eq!(title, "Usage");
            assert_eq!(body, "/resume <session-id>");
        },
        _ => panic!("expected the usage message"),
    }
}

#[test]
fn resume_resolves_session_prefix() {
    let sessions = vec!["session-abc123".to_string(), "session-def456".to_string()];
    match plan_slash_command(SlashCommand::Resume("session-def".to_string()), ".".to_string(), &sessions, &[]) {
        SlashPlan::Send { command: ClientCommand::ResumeSession { session_id }, status } => {
            assert_eq!(session_id, "session-def456");
            assert_eq!(status, "Resuming session");
        },
        _ => panic!("expected a resume command"),
    }
}

#[test]
fn extension_command_is_forwarded() {
    let plan = plan_slash_command(
        SlashCommand::Extension { name: "review".to_string(), arguments: "src/".to_string() },
        ".".to_string(),
        &[],
        &[],
    );
    match plan {
        SlashPlan::Send { command: ClientCommand::ExecuteExtensionCommand { command_name, arguments }, status } => {
            assert_eq!(command_name, "review");
            assert_eq!(arguments, "src/");
            assert_eq!(status, "Executing command");
        },
        _ => panic!("expected an extension command"),
    }
}

#[test]
fn quit_and_compact_plans() {
    assert!(matches!(plan_slash_command(SlashCommand::Quit, ".".to_string(), &[], &[]), SlashPlan::Quit));
    match plan_slash_command(SlashCommand::Compact, ".".to_string(), &[], &[]) {
        SlashPlan::Send { command: ClientCommand::Compact, status } => assert_eq!(status, "Compacting session"),
        _ => panic!("expected a compact command"),
    }
    match plan_slash_command(SlashCommand::Sessions, ".".to_string(), &[], &[]) {
        SlashPlan::Send { command: ClientCommand::ListSessions, status } => assert_eq!(status, "Listing sessions"),
        _ => panic!("expected a list command"),
    }
}

#[test]
fn help_lists_extension_commands() {
    let commands = vec![
        ExtensionCommandInfo { name: "review".to_string(), needs_argument: true },
        ExtensionCommandInfo { name: "status".to_string(), needs_argument: false },
    ];
    let expected = "/new                 create a fresh session\n\
/sessions            list known sessions\n\
/resume <id>         resume a session\n\
/help                show this help\n\
/quit                exit astrcode\n\
/review <args>\n\
/status";
    assert_eq!(slash_help_lines(&commands), expected);
    match plan_slash_command(SlashCommand::Help, ".".to_string(), &[], &commands) {
        SlashPlan::Show { title, body } => {
            assert_eq!(title, "Help");
            assert_eq!(body, expected);
        },
        _ => panic!("expected the help message"),
    }
}

fn spec(usage: &str, needs_argument: bool) -> SlashSpec {
    SlashSpec { usage: usage.to_string(), needs_argument }
}

#[test]
fn empty_palette_closes_on_accept() {
    assert!(matches!(slash_selection_plan(&[], 0, "/x"), SelectionPlan::ClosePalette));
}

#[test]
fn command_needing_argument_is_prefilled() {
    let commands = vec![spec("/new", false), spec("/resume <id>", true)];
    match slash_selection_plan(&commands, 5, "/res") {
        SelectionPlan::Prefill(text) => assert_eq!(text, "/resume "),
        _ => panic!("expected a prefill"),
    }
    match slash_selection_plan(&commands, 1, "/resume   abc  ") {
        SelectionPlan::Submit(text) => assert_eq!(text, "/resume abc"),
        _ => panic!("expected a submit"),
    }
    match slash_selection_plan(&commands, 0, "/n") {
        SelectionPlan::Submit(text) => assert_eq!(text, "/new"),
        _ => panic!("expected a submit"),
    }
}

#[test]
fn blank_input_is_ignored() {
    assert!(matches!(submit_plan("  \n ", None, false), SubmitPlan::Ignore));
}

#[test]
fn parsed_slash_command_runs() {
    assert!(matches!(submit_plan("/quit", Some(SlashCommand::Quit), true), SubmitPlan::RunSlash(SlashCommand::Quit)));
}

#[test]
fn prompt_waits_while_streaming() {
    match submit_plan("hello", None, true) {
        SubmitPlan::Busy { status } => assert_eq!(status, "Turn running · Esc stop"),
        _ => panic!("expected busy"),
    }
}

#[test]
fn prompt_is_sent_as_typed() {
    match submit_plan("hello  ", None, false) {
        SubmitPlan::SubmitPrompt { text, show_as_user } => {
            assert_eq!(text, "hello  ");
            assert!(show_as_user);
        },
        _ => panic!("expected a prompt"),
    }
    match submit_plan("  /unknown thing", None, false) {
        SubmitPlan::SubmitPrompt { show_as_user, .. } => assert!(!show_as_user),
        _ => panic!("expected a prompt"),
    }
}

#[test]
fn key_releases_are_dropped() {
    let press = map_terminal_event(TerminalEvent::Key { key: Key::Enter, modifiers: plain(), kind: KeyKind::Press });
    assert!(matches!(press.event, Some(TuiEvent::Key { key: Key::Enter, .. })));
    let repeat = map_terminal_event(TerminalEvent::Key { key: Key::Left, modifiers: plain(), kind: KeyKind::Repeat });
    assert!(matches!(repeat.event, Some(TuiEvent::Key { key: Key::Left, .. })));
    let release = map_terminal_event(TerminalEvent::Key { key: Key::Enter, modifiers: plain(), kind: KeyKind::Release });
    assert!(release.event.is_none() && release.focused.is_none());
}

#[test]
fn focus_and_resize_map_to_redraws() {
    let resize = map_terminal_event(TerminalEvent::Resize { width: 80, height: 24 });
    assert!(matches!(resize.event, Some(TuiEvent::Draw)));
    let gained = map_terminal_event(TerminalEvent::FocusGained);
    assert!(matches!(gained.event, Some(TuiEvent::Draw)));
    assert_eq!(gained.focused, Some(true));
    let lost = map_terminal_event(TerminalEvent::FocusLost);
    assert!(lost.event.is_none());
    assert_eq!(lost.focused, Some(false));
    let paste = map_terminal_event(TerminalEvent::Paste("text".into()));
    assert!(matches!(paste.event, Some(TuiEvent::Paste(ref t)) if t == "text"));
    assert!(map_terminal_event(TerminalEvent::Other).event.is_none());
}

#[test]
fn poll_order_alternates() {
    let (order, next) = poll_order(false);
    assert_eq!(order, (EventSource::Resume, EventSource::Terminal, EventSource::Draw));
    assert!(next);
    let (order, next) = poll_order(next);
    assert_eq!(order, (EventSource::Resume, EventSource::Draw, EventSource::Terminal));
    assert!(!next);
}
