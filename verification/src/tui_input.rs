//! Decisions of the interactive terminal client: what a key press does,
//! and what a slash command asks of the server or shows to the user.
//! Reading keys, editing the composer and talking to the server are the
//! caller's part.

use vstd::prelude::*;
use crate::cli::{resolve_session_id, resolved_session};
use crate::text::{
    chars_of, is_blank, is_blank_str, is_whitespace, is_ws, join, push_str, split_whitespace, string_from_range, to_string,
    trim, trim_end, trim_end_string, trim_string, views, words,
};

verus! {

/// A key of the keyboard, as far as the client tells keys apart.
#[derive(Clone, Copy, Debug, PartialEq, Eq, Structural)]
pub enum Key {
    Esc,
    Enter,
    Tab,
    Backspace,
    Delete,
    Left,
    Right,
    Home,
    End,
    Up,
    Down,
    Char(char),
    Other,
}

/// Modifier keys held with a key.
#[derive(Clone, Copy, Debug, PartialEq, Eq, Structural)]
pub struct Modifiers {
    pub shift: bool,
    pub alt: bool,
    pub control: bool,
}

/// What a key press does.
#[derive(Clone, Copy, Debug, PartialEq, Eq, Structural)]
pub enum KeyAction {
    Nothing,
    ClosePalette,
    /// Ask the server to stop the running turn.
    AbortTurn,
    InsertNewline,
    AcceptSlashSelection,
    SubmitInput,
    CompleteSlashSelection,
    DeletePreviousWord,
    /// Delete before the cursor and refresh the palette filter.
    Backspace,
    Delete,
    MoveLeft,
    MoveRight,
    MoveHome,
    MoveEnd,
    SlashUp,
    SlashDown,
    /// Move up a visual line, or to the previous history entry at the top.
    UpOrHistoryPrevious,
    /// Move down a visual line, or to the next history entry at the bottom.
    DownOrHistoryNext,
    DeleteBeforeCursor,
    DeleteAfterCursor,
    Quit,
    /// Insert the character and refresh the palette filter.
    InsertChar(char),
}

/// The lowercase form of an ASCII capital.
pub open spec fn lower_char(c: char) -> char {
    crate::mcp_names::ascii_lower(c)
}

/// What a key press does, given whether the slash palette is open and a
/// turn is streaming.
pub open spec fn key_action_of(key: Key, m: Modifiers, palette_open: bool, streaming: bool) -> KeyAction {
    match key {
        Key::Esc => if palette_open {
            KeyAction::ClosePalette
        } else if streaming {
            KeyAction::AbortTurn
        } else {
            KeyAction::Nothing
        },
        Key::Enter => if m.shift || m.alt {
            KeyAction::InsertNewline
        } else if palette_open {
            KeyAction::AcceptSlashSelection
        } else {
            KeyAction::SubmitInput
        },
        Key::Tab => if palette_open {
            KeyAction::CompleteSlashSelection
        } else {
            KeyAction::Nothing
        },
        Key::Backspace => if m.alt {
            KeyAction::DeletePreviousWord
        } else {
            KeyAction::Backspace
        },
        Key::Delete => KeyAction::Delete,
        Key::Left => KeyAction::MoveLeft,
        Key::Right => KeyAction::MoveRight,
        Key::Home => KeyAction::MoveHome,
        Key::End => KeyAction::MoveEnd,
        Key::Up => if palette_open {
            KeyAction::SlashUp
        } else {
            KeyAction::UpOrHistoryPrevious
        },
        Key::Down => if palette_open {
            KeyAction::SlashDown
        } else {
            KeyAction::DownOrHistoryNext
        },
        Key::Char(c) => if m.control {
            let l = lower_char(c);
            if l == 'a' {
                KeyAction::MoveHome
            } else if l == 'e' {
                KeyAction::MoveEnd
            } else if l == 'u' {
                KeyAction::DeleteBeforeCursor
            } else if l == 'k' {
                KeyAction::DeleteAfterCursor
            } else if l == 'w' {
                KeyAction::DeletePreviousWord
            } else if l == 'c' {
                KeyAction::Quit
            } else {
                KeyAction::Nothing
            }
        } else if m.alt {
            KeyAction::Nothing
        } else {
            KeyAction::InsertChar(c)
        },
        Key::Other => KeyAction::Nothing,
    }
}

/// Decides what a key press does.
pub fn key_action(key: Key, modifiers: Modifiers, palette_open: bool, streaming: bool) -> (r: KeyAction)
    ensures
        r == key_action_of(key, modifiers, palette_open, streaming),
{
    match key {
        Key::Esc => if palette_open {
            KeyAction::ClosePalette
        } else if streaming {
            KeyAction::AbortTurn
        } else {
            KeyAction::Nothing
        },
        Key::Enter => if modifiers.shift || modifiers.alt {
            KeyAction::InsertNewline
        } else if palette_open {
            KeyAction::AcceptSlashSelection
        } else {
            KeyAction::SubmitInput
        },
        Key::Tab => if palette_open {
            KeyAction::CompleteSlashSelection
        } else {
            KeyAction::Nothing
        },
        Key::Backspace => if modifiers.alt {
            KeyAction::DeletePreviousWord
        } else {
            KeyAction::Backspace
        },
        Key::Delete => KeyAction::Delete,
        Key::Left => KeyAction::MoveLeft,
        Key::Right => KeyAction::MoveRight,
        Key::Home => KeyAction::MoveHome,
        Key::End => KeyAction::MoveEnd,
        Key::Up => if palette_open {
            KeyAction::SlashUp
        } else {
            KeyAction::UpOrHistoryPrevious
        },
        Key::Down => if palette_open {
            KeyAction::SlashDown
        } else {
            KeyAction::DownOrHistoryNext
        },
        Key::Char(c) => if modifiers.control {
            let l = if 'A' <= c && c <= 'Z' {
                let b: u8 = (c as u32 + 32) as u8;
                b as char
            } else {
                c
            };
            if l == 'a' {
                KeyAction::MoveHome
            } else if l == 'e' {
                KeyAction::MoveEnd
            } else if l == 'u' {
                KeyAction::DeleteBeforeCursor
            } else if l == 'k' {
                KeyAction::DeleteAfterCursor
            } else if l == 'w' {
                KeyAction::DeletePreviousWord
            } else if l == 'c' {
                KeyAction::Quit
            } else {
                KeyAction::Nothing
            }
        } else if modifiers.alt {
            KeyAction::Nothing
        } else {
            KeyAction::InsertChar(c)
        },
        Key::Other => KeyAction::Nothing,
    }
}

// ─── Slash commands ─────────────────────────────────────────────────────

/// A slash command typed in the composer.
pub enum SlashCommand {
    New,
    Resume(String),
    Sessions,
    Compact,
    Quit,
    Help,
    Extension { name: String, arguments: String },
}

/// A command the client sends to the server.
pub enum ClientCommand {
    CreateSession { working_dir: String },
    ResumeSession { session_id: String },
    ListSessions,
    Compact,
    ExecuteExtensionCommand { command_name: String, arguments: String },
    Abort,
}

/// A slash command an extension offers.
pub struct ExtensionCommandInfo {
    pub name: String,
    pub needs_argument: bool,
}

/// What carrying out a slash command takes.
pub enum SlashPlan {
    /// Send `command`, then show `status`.
    Send { command: ClientCommand, status: String },
    /// Show a system message in the transcript.
    Show { title: String, body: String },
    Quit,
}

/// The built-in help lines.
pub open spec fn builtin_help() -> Seq<Seq<char>> {
    seq![
        "/new                 create a fresh session"@,
        "/sessions            list known sessions"@,
        "/resume <id>         resume a session"@,
        "/help                show this help"@,
        "/quit                exit astrcode"@,
    ]
}

/// The help line of an extension command.
pub open spec fn extension_help_line(c: ExtensionCommandInfo) -> Seq<char> {
    "/"@ + c.name@ + if c.needs_argument {
        " <args>"@
    } else {
        seq![]
    }
}

/// The help text: built-in commands, then each extension command.
pub open spec fn help_text(commands: Seq<ExtensionCommandInfo>) -> Seq<char> {
    join(builtin_help() + commands.map_values(|c: ExtensionCommandInfo| extension_help_line(c)), "\n"@)
}

/// The help text listing the built-in and extension commands.
pub fn slash_help_lines(extension_commands: &[ExtensionCommandInfo]) -> (r: String)
    ensures
        r@ == help_text(extension_commands@),
{
    let mut lines: Vec<String> = Vec::new();
    lines.push(to_string("/new                 create a fresh session"));
    lines.push(to_string("/sessions            list known sessions"));
    lines.push(to_string("/resume <id>         resume a session"));
    lines.push(to_string("/help                show this help"));
    lines.push(to_string("/quit                exit astrcode"));
    proof {
        assert(views(lines@) =~= builtin_help() + extension_commands@.take(0).map_values(
            |c: ExtensionCommandInfo| extension_help_line(c),
        ));
    }
    let mut i: usize = 0;
    while i < extension_commands.len()
        invariant
            0 <= i <= extension_commands@.len(),
            views(lines@) == builtin_help() + extension_commands@.take(i as int).map_values(
                |c: ExtensionCommandInfo| extension_help_line(c),
            ),
        decreases extension_commands@.len() - i,
    {
        let c = &extension_commands[i];
        let mut line = to_string("/");
        push_str(&mut line, c.name.as_str());
        if c.needs_argument {
            push_str(&mut line, " <args>");
        } else {
            proof {
                assert(line@ + seq![] =~= line@);
            }
        }
        let ghost before = views(lines@);
        lines.push(line);
        proof {
            assert(extension_commands@.take(i + 1).map_values(|c: ExtensionCommandInfo| extension_help_line(c))
                =~= extension_commands@.take(i as int).map_values(|c: ExtensionCommandInfo| extension_help_line(c)).push(
                extension_help_line(extension_commands@[i as int]),
            ));
            assert(views(lines@) =~= before.push(extension_help_line(extension_commands@[i as int])));
        }
        i = i + 1;
    }
    proof {
        assert(extension_commands@.take(extension_commands@.len() as int) =~= extension_commands@);
    }
    crate::text::join_strings(&lines, "\n")
}

/// Plans a slash command: session commands go to the server with a status
/// line, `/resume` without an id shows its usage, `/help` shows the help
/// text, `/quit` quits.
pub fn plan_slash_command(
    command: SlashCommand,
    working_dir: String,
    known_sessions: &[String],
    extension_commands: &[ExtensionCommandInfo],
) -> (r: SlashPlan)
    ensures
        match command {
            SlashCommand::New => r matches SlashPlan::Send { command: ClientCommand::CreateSession { working_dir: w }, status }
                && w == working_dir && status@ == "Creating session"@,
            SlashCommand::Resume(id) => if is_blank(id@) {
                r matches SlashPlan::Show { title, body } && title@ == "Usage"@ && body@ == "/resume <session-id>"@
            } else {
                r matches SlashPlan::Send { command: ClientCommand::ResumeSession { session_id }, status } && session_id@
                    == resolved_session(views(known_sessions@), id@) && status@ == "Resuming session"@
            },
            SlashCommand::Sessions => r matches SlashPlan::Send { command: ClientCommand::ListSessions, status } && status@
                == "Listing sessions"@,
            SlashCommand::Compact => r matches SlashPlan::Send { command: ClientCommand::Compact, status } && status@
                == "Compacting session"@,
            SlashCommand::Quit => r is Quit,
            SlashCommand::Help => r matches SlashPlan::Show { title, body } && title@ == "Help"@ && body@ == help_text(
                extension_commands@,
            ),
            SlashCommand::Extension { name, arguments } => r matches SlashPlan::Send {
                command: ClientCommand::ExecuteExtensionCommand { command_name, arguments: a },
                status,
            } && command_name == name && a == arguments && status@ == "Executing command"@,
        },
{
    match command {
        SlashCommand::New => SlashPlan::Send {
            command: ClientCommand::CreateSession { working_dir },
            status: to_string("Creating session"),
        },
        SlashCommand::Resume(id) => {
            if is_blank_str(id.as_str()) {
                SlashPlan::Show { title: to_string("Usage"), body: to_string("/resume <session-id>") }
            } else {
                let sid = resolve_session_id(known_sessions, id.as_str());
                SlashPlan::Send {
                    command: ClientCommand::ResumeSession { session_id: sid },
                    status: to_string("Resuming session"),
                }
            }
        },
        SlashCommand::Sessions => SlashPlan::Send { command: ClientCommand::ListSessions, status: to_string("Listing sessions") },
        SlashCommand::Compact => SlashPlan::Send { command: ClientCommand::Compact, status: to_string("Compacting session") },
        SlashCommand::Quit => SlashPlan::Quit,
        SlashCommand::Help => SlashPlan::Show { title: to_string("Help"), body: slash_help_lines(extension_commands) },
        SlashCommand::Extension { name, arguments } => SlashPlan::Send {
            command: ClientCommand::ExecuteExtensionCommand { command_name: name, arguments },
            status: to_string("Executing command"),
        },
    }
}

// ─── Palette selection and submission ───────────────────────────────────

/// A command the slash palette lists.
pub struct SlashSpec {
    /// The usage line, command first (`/resume <id>`).
    pub usage: String,
    pub needs_argument: bool,
}

/// What accepting the palette's selection does.
pub enum SelectionPlan {
    /// No command to choose: close the palette.
    ClosePalette,
    /// Put this text in the composer and wait for the argument.
    Prefill(String),
    /// Put this text in the composer and submit it.
    Submit(String),
}

/// The text after the first whitespace character, if there is one
/// (`str::split_once(char::is_whitespace)`).
pub open spec fn after_first_ws(s: Seq<char>) -> Option<Seq<char>>
    decreases s.len(),
{
    if s.len() == 0 {
        None
    } else if is_ws(s[0]) {
        Some(s.drop_first())
    } else {
        after_first_ws(s.drop_first())
    }
}

/// The argument typed after the command: the rest of the input after its
/// first whitespace, trimmed.
pub open spec fn typed_argument(input: Seq<char>) -> Seq<char> {
    match after_first_ws(input) {
        Some(rest) => trim(rest),
        None => seq![],
    }
}

/// The command a usage line names: its first word.
pub open spec fn usage_command(usage: Seq<char>) -> Seq<char> {
    if words(usage).len() > 0 {
        words(usage)[0]
    } else {
        usage
    }
}

/// What accepting the palette's selection does: with no command listed,
/// close the palette; a command that needs an argument none was typed for
/// is put in the composer followed by a space; otherwise the command, with
/// the typed argument, is submitted.
pub open spec fn selection_plan_of(commands: Seq<SlashSpec>, selected: int, input: Seq<char>) -> Option<(bool, Seq<char>)> {
    if commands.len() == 0 {
        None
    } else {
        let spec = commands[if selected < commands.len() - 1 {
            selected
        } else {
            commands.len() - 1
        }];
        let cmd = usage_command(spec.usage@);
        let arg = typed_argument(input);
        if spec.needs_argument && arg.len() == 0 {
            Some((false, cmd + " "@))
        } else if arg.len() == 0 {
            Some((true, cmd))
        } else {
            Some((true, cmd + " "@ + arg))
        }
    }
}

fn argument_of(input: &str) -> (r: String)
    ensures
        r@ == typed_argument(input@),
{
    let v = chars_of(input);
    let mut i: usize = 0;
    proof {
        assert(v@.skip(0) =~= v@);
    }
    while i < v.len() && !is_whitespace(v[i])
        invariant
            0 <= i <= v@.len(),
            v@ == input@,
            after_first_ws(input@) == after_first_ws(v@.skip(i as int)),
        decreases v@.len() - i,
    {
        proof {
            assert(v@.skip(i as int).drop_first() =~= v@.skip(i + 1));
        }
        i = i + 1;
    }
    if i == v.len() {
        proof {
            assert(v@.skip(i as int).len() == 0);
        }
        String::new()
    } else {
        let rest = string_from_range(&v, i + 1, v.len());
        proof {
            assert(v@.skip(i as int).drop_first() =~= v@.subrange(i + 1, v@.len() as int));
        }
        trim_string(rest.as_str())
    }
}

fn command_of(usage: &str) -> (r: String)
    ensures
        r@ == usage_command(usage@),
{
    let w = split_whitespace(usage);
    if w.len() > 0 {
        to_string(w[0].as_str())
    } else {
        to_string(usage)
    }
}

/// Decides what accepting the palette's selection does; `slash_selected`
/// is clamped to the last listed command.
pub fn slash_selection_plan(commands: &[SlashSpec], slash_selected: usize, input_text: &str) -> (r: SelectionPlan)
    ensures
        match selection_plan_of(commands@, slash_selected as int, input_text@) {
            None => r is ClosePalette,
            Some((submit, text)) => if submit {
                r matches SelectionPlan::Submit(t) && t@ == text
            } else {
                r matches SelectionPlan::Prefill(t) && t@ == text
            },
        },
{
    if commands.len() == 0 {
        return SelectionPlan::ClosePalette;
    }
    let last = commands.len() - 1;
    let index = if slash_selected < last { slash_selected } else { last };
    let spec = &commands[index];
    let cmd = command_of(spec.usage.as_str());
    let arg = argument_of(input_text);
    let mut text = to_string(cmd.as_str());
    if spec.needs_argument && arg.as_str().is_empty() {
        push_str(&mut text, " ");
        SelectionPlan::Prefill(text)
    } else if arg.as_str().is_empty() {
        SelectionPlan::Submit(text)
    } else {
        push_str(&mut text, " ");
        push_str(&mut text, arg.as_str());
        SelectionPlan::Submit(text)
    }
}

/// What submitting the composer does.
pub enum SubmitPlan {
    /// Nothing but whitespace: nothing happens.
    Ignore,
    /// Take the input into history and carry out the slash command.
    RunSlash(SlashCommand),
    /// A turn is running: show this status and keep the input.
    Busy { status: String },
    /// Take the input into history and send it as a prompt; it is shown as
    /// the user's message unless it starts with `/`.
    SubmitPrompt { text: String, show_as_user: bool },
}

/// Decides what submitting the composer does.  `parsed_command` is the
/// slash command the input (trailing whitespace trimmed) parses to, if
/// any.  A prompt is sent as typed.
pub fn submit_plan(input_text: &str, parsed_command: Option<SlashCommand>, is_streaming: bool) -> (r: SubmitPlan)
    ensures
        is_blank(trim_end(input_text@)) ==> r is Ignore,
        !is_blank(trim_end(input_text@)) ==> match parsed_command {
            Some(c) => r == SubmitPlan::RunSlash(c),
            None => if is_streaming {
                r matches SubmitPlan::Busy { status } && status@ == "Turn running · Esc stop"@
            } else {
                r matches SubmitPlan::SubmitPrompt { text, show_as_user } && text@ == input_text@ && show_as_user
                    == !(trim(input_text@).len() > 0 && trim(input_text@)[0] == '/')
            },
        },
{
    let trimmed = trim_end_string(input_text);
    if is_blank_str(trimmed.as_str()) {
        return SubmitPlan::Ignore;
    }
    match parsed_command {
        Some(c) => SubmitPlan::RunSlash(c),
        None => {
            if is_streaming {
                SubmitPlan::Busy { status: to_string("Turn running · Esc stop") }
            } else {
                let t = trim_string(input_text);
                let v = chars_of(t.as_str());
                let is_slash = v.len() > 0 && v[0] == '/';
                SubmitPlan::SubmitPrompt { text: to_string(input_text), show_as_user: !is_slash }
            }
        },
    }
}

// ─── Terminal events ────────────────────────────────────────────────────

/// Whether a key event is a press, a repeat or a release.
#[derive(Clone, Copy, Debug, PartialEq, Eq, Structural)]
pub enum KeyKind {
    Press,
    Repeat,
    Release,
}

/// An event of the terminal, as far as the client tells them apart.
pub enum TerminalEvent {
    Key { key: Key, modifiers: Modifiers, kind: KeyKind },
    Resize { width: u16, height: u16 },
    Paste(String),
    FocusGained,
    FocusLost,
    /// Mouse and other events.
    Other,
}

/// An event the client acts on.
pub enum TuiEvent {
    Key { key: Key, modifiers: Modifiers },
    Paste(String),
    /// Redraw the screen.
    Draw,
}

/// What a terminal event becomes: the client event, if any, and the new
/// focus state, if it changed.
pub struct MappedEvent {
    pub event: Option<TuiEvent>,
    pub focused: Option<bool>,
}

/// Maps a terminal event: key presses and repeats are kept (releases
/// dropped), a resize or regained focus asks for a redraw, a paste is
/// kept; losing focus only records it.
pub fn map_terminal_event(event: TerminalEvent) -> (r: MappedEvent)
    ensures
        match event {
            TerminalEvent::Key { key, modifiers, kind } => r.focused is None && if kind == KeyKind::Release {
                r.event is None
            } else {
                (r.event matches Some(TuiEvent::Key { key: k, modifiers: m }) && k == key && m == modifiers)
            },
            TerminalEvent::Resize { .. } => r.focused is None && r.event matches Some(TuiEvent::Draw),
            TerminalEvent::Paste(text) => r.focused is None && (r.event matches Some(TuiEvent::Paste(t)) && t == text),
            TerminalEvent::FocusGained => r.focused == Some(true) && r.event matches Some(TuiEvent::Draw),
            TerminalEvent::FocusLost => r.focused == Some(false) && r.event is None,
            TerminalEvent::Other => r.focused is None && r.event is None,
        },
{
    match event {
        TerminalEvent::Key { key, modifiers, kind } => match kind {
            KeyKind::Release => MappedEvent { event: None, focused: None },
            _ => MappedEvent { event: Some(TuiEvent::Key { key, modifiers }), focused: None },
        },
        TerminalEvent::Resize { .. } => MappedEvent { event: Some(TuiEvent::Draw), focused: None },
        TerminalEvent::Paste(text) => MappedEvent { event: Some(TuiEvent::Paste(text)), focused: None },
        TerminalEvent::FocusGained => MappedEvent { event: Some(TuiEvent::Draw), focused: Some(true) },
        TerminalEvent::FocusLost => MappedEvent { event: None, focused: Some(false) },
        TerminalEvent::Other => MappedEvent { event: None, focused: None },
    }
}

/// A source the client's event stream reads.
#[derive(Clone, Copy, Debug, PartialEq, Eq, Structural)]
pub enum EventSource {
    /// The notice that the terminal was handed back.
    Resume,
    /// Scheduled redraws.
    Draw,
    /// The terminal's own events.
    Terminal,
}

/// The order in which one poll reads the sources: the resume notice
/// first, then redraws and terminal events, taking turns at going first
/// so that neither starves the other; and whether redraws go first on the
/// next poll.
pub fn poll_order(draw_first: bool) -> (r: ((EventSource, EventSource, EventSource), bool))
    ensures
        r.0.0 == EventSource::Resume,
        draw_first ==> r.0.1 == EventSource::Draw && r.0.2 == EventSource::Terminal,
        !draw_first ==> r.0.1 == EventSource::Terminal && r.0.2 == EventSource::Draw,
        r.1 == !draw_first,
{
    if draw_first {
        ((EventSource::Resume, EventSource::Draw, EventSource::Terminal), false)
    } else {
        ((EventSource::Resume, EventSource::Terminal, EventSource::Draw), true)
    }
}

// ─── Laws ───────────────────────────────────────────────────────────────

/// The editing keys do what their labels say, whatever the modifiers, the
/// palette and the streaming state: Delete removes the character after the
/// cursor and Backspace the one before it (a word with Alt), the arrows,
/// Home and End move the cursor.
pub proof fn law_editing_keys(m: Modifiers, palette_open: bool, streaming: bool)
    ensures
        key_action_of(Key::Delete, m, palette_open, streaming) == KeyAction::Delete,
        key_action_of(Key::Delete, m, palette_open, streaming) != key_action_of(
            Key::Backspace,
            m,
            palette_open,
            streaming,
        ),
        !m.alt ==> key_action_of(Key::Backspace, m, palette_open, streaming) == KeyAction::Backspace,
        m.alt ==> key_action_of(Key::Backspace, m, palette_open, streaming) == KeyAction::DeletePreviousWord,
        key_action_of(Key::Left, m, palette_open, streaming) == KeyAction::MoveLeft,
        key_action_of(Key::Right, m, palette_open, streaming) == KeyAction::MoveRight,
        key_action_of(Key::Home, m, palette_open, streaming) == KeyAction::MoveHome,
        key_action_of(Key::End, m, palette_open, streaming) == KeyAction::MoveEnd,
        key_action_of(Key::Other, m, palette_open, streaming) == KeyAction::Nothing,
{
}

/// Typing a character without Control or Alt inserts that very character,
/// in any palette or streaming state; with Alt alone it does nothing.
pub proof fn law_typed_characters(c: char, m: Modifiers, palette_open: bool, streaming: bool)
    ensures
        !m.control && !m.alt ==> key_action_of(Key::Char(c), m, palette_open, streaming) == KeyAction::InsertChar(c),
        !m.control && m.alt ==> key_action_of(Key::Char(c), m, palette_open, streaming) == KeyAction::Nothing,
{
}

/// The Control shortcuts, in either letter case: Ctrl-A and Ctrl-E go to
/// the start and end of the line, Ctrl-U and Ctrl-K delete before and
/// after the cursor, Ctrl-W deletes the previous word, Ctrl-C quits; any
/// other Control letter does nothing.
pub proof fn law_control_shortcuts(m: Modifiers, palette_open: bool, streaming: bool)
    requires
        m.control,
    ensures
        key_action_of(Key::Char('a'), m, palette_open, streaming) == KeyAction::MoveHome,
        key_action_of(Key::Char('A'), m, palette_open, streaming) == KeyAction::MoveHome,
        key_action_of(Key::Char('e'), m, palette_open, streaming) == KeyAction::MoveEnd,
        key_action_of(Key::Char('E'), m, palette_open, streaming) == KeyAction::MoveEnd,
        key_action_of(Key::Char('u'), m, palette_open, streaming) == KeyAction::DeleteBeforeCursor,
        key_action_of(Key::Char('U'), m, palette_open, streaming) == KeyAction::DeleteBeforeCursor,
        key_action_of(Key::Char('k'), m, palette_open, streaming) == KeyAction::DeleteAfterCursor,
        key_action_of(Key::Char('K'), m, palette_open, streaming) == KeyAction::DeleteAfterCursor,
        key_action_of(Key::Char('w'), m, palette_open, streaming) == KeyAction::DeletePreviousWord,
        key_action_of(Key::Char('W'), m, palette_open, streaming) == KeyAction::DeletePreviousWord,
        key_action_of(Key::Char('c'), m, palette_open, streaming) == KeyAction::Quit,
        key_action_of(Key::Char('C'), m, palette_open, streaming) == KeyAction::Quit,
        key_action_of(Key::Char('x'), m, palette_open, streaming) == KeyAction::Nothing,
        key_action_of(Key::Char('1'), m, palette_open, streaming) == KeyAction::Nothing,
{
    assert(('A' as u32) + 32 == 'a' as u32);
    assert((('A' as u32) + 32) as char == 'a');
    assert((('E' as u32) + 32) as char == 'e');
    assert((('U' as u32) + 32) as char == 'u');
    assert((('K' as u32) + 32) as char == 'k');
    assert((('W' as u32) + 32) as char == 'w');
    assert((('C' as u32) + 32) as char == 'c');
}

/// The open slash palette takes the navigation keys: Up and Down move its
/// selection, Tab completes, Enter accepts and Esc closes it.  With it
/// closed, Up and Down browse the history, Tab does nothing, Enter submits
/// and Esc stops a streaming turn.  Shift-Enter and Alt-Enter always
/// insert a line break.
pub proof fn law_palette_and_turn_keys(m: Modifiers, streaming: bool)
    ensures
        key_action_of(Key::Up, m, true, streaming) == KeyAction::SlashUp,
        key_action_of(Key::Down, m, true, streaming) == KeyAction::SlashDown,
        key_action_of(Key::Tab, m, true, streaming) == KeyAction::CompleteSlashSelection,
        key_action_of(Key::Esc, m, true, streaming) == KeyAction::ClosePalette,
        !m.shift && !m.alt ==> key_action_of(Key::Enter, m, true, streaming) == KeyAction::AcceptSlashSelection,
        key_action_of(Key::Up, m, false, streaming) == KeyAction::UpOrHistoryPrevious,
        key_action_of(Key::Down, m, false, streaming) == KeyAction::DownOrHistoryNext,
        key_action_of(Key::Tab, m, false, streaming) == KeyAction::Nothing,
        !m.shift && !m.alt ==> key_action_of(Key::Enter, m, false, streaming) == KeyAction::SubmitInput,
        key_action_of(Key::Esc, m, false, true) == KeyAction::AbortTurn,
        key_action_of(Key::Esc, m, false, false) == KeyAction::Nothing,
        m.shift || m.alt ==> key_action_of(Key::Enter, m, true, streaming) == KeyAction::InsertNewline
            && key_action_of(Key::Enter, m, false, streaming) == KeyAction::InsertNewline,
{
}

} // verus!
