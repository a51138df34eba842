//! Terminal client helpers: rendering of streamed notifications in the
//! headless mode, session id handling, pasted text, compact paths and image
//! attachments.

use vstd::prelude::*;
use vstd::utf8::encode_utf8;
use crate::events::EventPayload;
use crate::text::{
    chars_of, join, join_strings, push_char, push_str, starts_with, str_starts_with, to_string, trim, trim_string, views,
};
use crate::user_prompt::{image_label, image_label_spec};
use crate::utf8_len::{prefix_within_bytes, utf8_len};

verus! {

// ─── Headless rendering ─────────────────────────────────────────────────

/// A notification the server streams to a client.
pub enum ClientNotification {
    /// A session event.
    Event { session_id: String, payload: EventPayload },
    /// A protocol-level error.
    Error { message: String },
    /// Anything else (acknowledgements, state snapshots).
    Other,
}

/// Whether the headless run goes on after a notification.
#[derive(Clone, Copy, Debug, PartialEq, Eq, Structural)]
pub enum NotificationAction {
    Continue,
    Finish,
}

/// The run finishes on a completed turn, an error event or a protocol
/// error; it continues on anything else.
pub open spec fn action_of(n: ClientNotification) -> NotificationAction {
    match n {
        ClientNotification::Event { payload, .. } => match payload {
            EventPayload::TurnCompleted { .. } | EventPayload::ErrorOccurred { .. } => NotificationAction::Finish,
            _ => NotificationAction::Continue,
        },
        ClientNotification::Error { .. } => NotificationAction::Finish,
        ClientNotification::Other => NotificationAction::Continue,
    }
}

/// Decides whether the headless run finishes after `notification`.
pub fn notification_action(notification: &ClientNotification) -> (r: NotificationAction)
    ensures
        r == action_of(*notification),
{
    match notification {
        ClientNotification::Event { payload, .. } => match payload {
            EventPayload::TurnCompleted { .. } | EventPayload::ErrorOccurred { .. } => NotificationAction::Finish,
            _ => NotificationAction::Continue,
        },
        ClientNotification::Error { .. } => NotificationAction::Finish,
        ClientNotification::Other => NotificationAction::Continue,
    }
}

/// Appends the UTF-8 bytes of `s` to `out`.
fn write_str(out: &mut Vec<u8>, s: &str)
    ensures
        final(out)@ == old(out)@ + encode_utf8(s@),
{
    let b = s.as_bytes();
    let mut i: usize = 0;
    while i < b.len()
        invariant
            0 <= i <= b@.len(),
            b@ == encode_utf8(s@),
            out@ == old(out)@ + b@.take(i as int),
        decreases b@.len() - i,
    {
        out.push(b[i]);
        proof {
            assert(b@.take(i + 1) =~= b@.take(i as int).push(b@[i as int]));
        }
        i = i + 1;
    }
    proof {
        assert(b@.take(b@.len() as int) =~= b@);
    }
}

/// Appends `bytes` to `out`.
fn write_bytes(out: &mut Vec<u8>, bytes: &[u8])
    ensures
        final(out)@ == old(out)@ + bytes@,
{
    let mut i: usize = 0;
    while i < bytes.len()
        invariant
            0 <= i <= bytes@.len(),
            out@ == old(out)@ + bytes@.take(i as int),
        decreases bytes@.len() - i,
    {
        out.push(bytes[i]);
        proof {
            assert(bytes@.take(i + 1) =~= bytes@.take(i as int).push(bytes@[i as int]));
        }
        i = i + 1;
    }
    proof {
        assert(bytes@.take(bytes@.len() as int) =~= bytes@);
    }
}

/// What plain-text mode writes for a notification: to standard output,
/// then to standard error.
pub open spec fn text_output(n: ClientNotification) -> (Seq<char>, Seq<char>) {
    match n {
        ClientNotification::Event { payload, .. } => match payload {
            EventPayload::AssistantTextDelta { delta, .. } => (delta@, seq![]),
            EventPayload::TurnCompleted { .. } => ("\n"@, seq![]),
            EventPayload::ErrorOccurred { message, .. } => (seq![], "Error: "@ + message@ + "\n"@),
            _ => (seq![], seq![]),
        },
        ClientNotification::Error { message } => (seq![], "Error: "@ + message@ + "\n"@),
        ClientNotification::Other => (seq![], seq![]),
    }
}

/// Renders one notification of a headless run.  With `jsonl` set to the
/// notification's JSON text, that line is written to `out`; otherwise text
/// deltas go to `out`, a completed turn ends the line, and errors go to
/// `err` as `Error: ...`.  Returns whether the run goes on.
pub fn render_notification(
    notification: &ClientNotification,
    jsonl: Option<&[u8]>,
    out: &mut Vec<u8>,
    err: &mut Vec<u8>,
) -> (r: Result<NotificationAction, String>)
    ensures
        r == Ok::<NotificationAction, String>(action_of(*notification)),
        match jsonl {
            Some(line) => final(out)@ == old(out)@ + line@ + encode_utf8("\n"@) && final(err)@ == old(err)@,
            None => {
                &&& final(out)@ == old(out)@ + encode_utf8(text_output(*notification).0)
                &&& final(err)@ == old(err)@ + encode_utf8(text_output(*notification).1)
            },
        },
{
    if let Some(line) = jsonl {
        write_bytes(out, line);
        write_str(out, "\n");
        return Ok(notification_action(notification));
    }
    proof {
        assert(encode_utf8(Seq::<char>::empty()) =~= Seq::<u8>::empty());
        assert(old(out)@ + Seq::<u8>::empty() =~= old(out)@);
        assert(old(err)@ + Seq::<u8>::empty() =~= old(err)@);
    }
    match notification {
        ClientNotification::Event { payload, .. } => match payload {
            EventPayload::AssistantTextDelta { delta, .. } => {
                write_str(out, delta.as_str());
                Ok(NotificationAction::Continue)
            },
            EventPayload::TurnCompleted { .. } => {
                write_str(out, "\n");
                Ok(NotificationAction::Finish)
            },
            EventPayload::ErrorOccurred { message, .. } => {
                let mut text = to_string("Error: ");
                push_str(&mut text, message.as_str());
                push_str(&mut text, "\n");
                write_str(err, text.as_str());
                Ok(NotificationAction::Finish)
            },
            _ => Ok(NotificationAction::Continue),
        },
        ClientNotification::Error { message } => {
            let mut text = to_string("Error: ");
            push_str(&mut text, message.as_str());
            push_str(&mut text, "\n");
            write_str(err, text.as_str());
            Ok(NotificationAction::Finish)
        },
        ClientNotification::Other => Ok(NotificationAction::Continue),
    }
}

// ─── Session ids and pasted text ────────────────────────────────────────

/// The first eight bytes of `id` when they end on a character boundary;
/// `id` itself otherwise (shorter ids included).
pub open spec fn short_id_of(id: Seq<char>) -> Seq<char> {
    if exists|k: int| 0 <= k <= id.len() && utf8_len(#[trigger] id.take(k)) == 8 {
        id.take(choose|k: int| 0 <= k <= id.len() && utf8_len(#[trigger] id.take(k)) == 8)
    } else {
        id
    }
}

proof fn lemma_prefix_bytes_unique(s: Seq<char>, a: int, b: int)
    requires
        0 <= a < b <= s.len(),
    ensures
        utf8_len(s.take(a)) < utf8_len(s.take(b)),
{
    crate::utf8_len::lemma_utf8_len_prefix_monotone(s, a + 1, b);
    assert(s.take(a + 1) =~= s.take(a).push(s[a]));
    crate::utf8_len::lemma_utf8_len_push(s.take(a), s[a]);
}

/// A session id shortened for display: its first eight bytes when that is
/// a character boundary, the whole id otherwise.
pub fn short_id(session_id: &str) -> (r: String)
    ensures
        r@ == short_id_of(session_id@),
{
    let v = chars_of(session_id);
    let (k, bytes) = prefix_within_bytes(&v, 8);
    if bytes == 8 {
        proof {
            let c = choose|c: int| 0 <= c <= v@.len() && utf8_len(#[trigger] v@.take(c)) == 8;
            if c < k {
                lemma_prefix_bytes_unique(v@, c, k as int);
            } else if c > k {
                lemma_prefix_bytes_unique(v@, k as int, c);
            }
        }
        let r = crate::text::string_from_range(&v, 0, k);
        proof {
            assert(v@.subrange(0, k as int) =~= v@.take(k as int));
        }
        r
    } else {
        proof {
            if exists|c: int| 0 <= c <= v@.len() && utf8_len(#[trigger] v@.take(c)) == 8 {
                let c = choose|c: int| 0 <= c <= v@.len() && utf8_len(#[trigger] v@.take(c)) == 8;
                if c <= k {
                    crate::utf8_len::lemma_utf8_len_prefix_monotone(v@, c, k as int);
                } else {
                    crate::utf8_len::lemma_utf8_len_prefix_monotone(v@, k + 1, c);
                }
            }
        }
        to_string(session_id)
    }
}

/// What one character of pasted text becomes: `\r` before `\n` is
/// dropped, any other `\r` becomes `\n`.
pub open spec fn paste_piece(s: Seq<char>, i: int) -> Seq<char> {
    if s[i] == '\r' {
        if i + 1 < s.len() && s[i + 1] == '\n' {
            seq![]
        } else {
            seq!['\n']
        }
    } else {
        seq![s[i]]
    }
}

/// The first `n` characters of `s` with line endings normalized.
pub open spec fn normalized_paste_prefix(s: Seq<char>, n: int) -> Seq<char>
    decreases n,
{
    if n <= 0 {
        seq![]
    } else {
        normalized_paste_prefix(s, n - 1) + paste_piece(s, n - 1)
    }
}

/// Pasted text with `\r\n` and lone `\r` turned into `\n`.
pub open spec fn normalized_paste(s: Seq<char>) -> Seq<char> {
    normalized_paste_prefix(s, s.len() as int)
}

/// Normalizes the line endings of pasted text to `\n`.
pub fn normalize_paste(text: &str) -> (r: String)
    ensures
        r@ == normalized_paste(text@),
{
    let v = chars_of(text);
    let mut r = String::new();
    let mut i: usize = 0;
    while i < v.len()
        invariant
            0 <= i <= v@.len(),
            v@ == text@,
            r@ == normalized_paste_prefix(v@, i as int),
        decreases v@.len() - i,
    {
        let c = v[i];
        if c == '\r' {
            if i + 1 < v.len() && v[i + 1] == '\n' {
                proof {
                    assert(r@ + seq![] =~= r@);
                }
            } else {
                push_char(&mut r, '\n');
            }
        } else {
            push_char(&mut r, c);
        }
        proof {
            assert(r@ =~= normalized_paste_prefix(v@, i as int) + paste_piece(v@, i as int));
        }
        i = i + 1;
    }
    r
}

/// The help text of the slash commands.
pub fn slash_help_text() -> (r: String)
    ensures
        r@ == "/new                 create a fresh session\n/sessions            list known sessions\n/resume <id>         resume a session\n/help                show this help\n/quit                exit astrcode"@,
{
    to_string(
        "/new                 create a fresh session\n/sessions            list known sessions\n/resume <id>         resume a session\n/help                show this help\n/quit                exit astrcode",
    )
}

/// Index of the first session whose id starts with `needle`.
pub open spec fn first_match(sessions: Seq<Seq<char>>, needle: Seq<char>) -> int
    decreases sessions.len(),
{
    if sessions.len() == 0 {
        0
    } else if starts_with(sessions[0], needle) {
        0
    } else {
        1 + first_match(sessions.drop_first(), needle)
    }
}

/// The known session that `input` (trimmed) abbreviates, or the trimmed
/// input itself when none does.
pub open spec fn resolved_session(sessions: Seq<Seq<char>>, input: Seq<char>) -> Seq<char> {
    let needle = trim(input);
    let k = first_match(sessions, needle);
    if k < sessions.len() {
        sessions[k]
    } else {
        needle
    }
}

proof fn lemma_first_match(sessions: Seq<Seq<char>>, needle: Seq<char>, i: int)
    requires
        0 <= i <= sessions.len(),
        forall|j: int| 0 <= j < i ==> !starts_with(#[trigger] sessions[j], needle),
    ensures
        first_match(sessions, needle) >= i,
        first_match(sessions, needle) <= sessions.len(),
        i < sessions.len() && starts_with(sessions[i], needle) ==> first_match(sessions, needle) == i,
    decreases i,
{
    if i > 0 {
        assert forall|j: int| 0 <= j < i - 1 implies !starts_with(#[trigger] sessions.drop_first()[j], needle) by {
            assert(sessions.drop_first()[j] == sessions[j + 1]);
        }
        assert(!starts_with(sessions[0], needle));
        lemma_first_match(sessions.drop_first(), needle, i - 1);
        if i < sessions.len() {
            assert(sessions.drop_first()[i - 1] == sessions[i]);
        }
    } else {
        lemma_first_match_bound(sessions, needle);
    }
}

proof fn lemma_first_match_bound(sessions: Seq<Seq<char>>, needle: Seq<char>)
    ensures
        0 <= first_match(sessions, needle) <= sessions.len(),
    decreases sessions.len(),
{
    if sessions.len() > 0 && !starts_with(sessions[0], needle) {
        lemma_first_match_bound(sessions.drop_first(), needle);
    }
}

/// Resolves what the user typed as a session id: the first known session
/// that starts with it (after trimming), else the trimmed input.
pub fn resolve_session_id(available_sessions: &[String], input: &str) -> (r: String)
    ensures
        r@ == resolved_session(views(available_sessions@), input@),
{
    let needle = trim_string(input);
    let ghost sv = views(available_sessions@);
    let mut i: usize = 0;
    while i < available_sessions.len()
        invariant
            0 <= i <= available_sessions@.len(),
            sv == views(available_sessions@),
            needle@ == trim(input@),
            forall|j: int| 0 <= j < i ==> !starts_with(#[trigger] sv[j], needle@),
        decreases available_sessions@.len() - i,
    {
        if str_starts_with(available_sessions[i].as_str(), needle.as_str()) {
            proof {
                lemma_first_match(sv, needle@, i as int);
            }
            return available_sessions[i].clone();
        }
        i = i + 1;
    }
    proof {
        lemma_first_match(sv, needle@, i as int);
    }
    needle
}

// ─── Compact paths ──────────────────────────────────────────────────────

/// `s` with `\` turned into `/`.
pub open spec fn forward_slashes(s: Seq<char>) -> Seq<char> {
    s.map_values(|c: char| if c == '\\' { '/' } else { c })
}

/// The non-empty `/`-separated parts of `cur + s`.
pub open spec fn segs_acc(cur: Seq<char>, s: Seq<char>) -> Seq<Seq<char>>
    decreases s.len(),
{
    if s.len() == 0 {
        if cur.len() == 0 {
            seq![]
        } else {
            seq![cur]
        }
    } else if s[0] == '/' {
        if cur.len() == 0 {
            segs_acc(cur, s.drop_first())
        } else {
            seq![cur] + segs_acc(seq![], s.drop_first())
        }
    } else {
        segs_acc(cur.push(s[0]), s.drop_first())
    }
}

/// The non-empty parts of a `/`-separated path.
pub open spec fn path_segments(s: Seq<char>) -> Seq<Seq<char>> {
    segs_acc(seq![], s)
}

/// `s` holds `:/` (a drive prefix).
pub open spec fn has_drive(s: Seq<char>) -> bool {
    exists|i: int| 0 <= i && i + 1 < s.len() && #[trigger] s[i] == ':' && s[i + 1] == '/'
}

/// A path shortened for display: with `/` separators, and when it has
/// more than three parts, its root (drive or first part; nothing for an
/// absolute path), `...`, and its last two parts.
pub open spec fn compact_path_of(path: Seq<char>) -> Seq<char> {
    let n = forward_slashes(path);
    let parts = path_segments(n);
    if parts.len() <= 3 {
        n
    } else {
        let tail = join(parts.subrange(parts.len() - 2, parts.len() as int), "/"@);
        let root = if has_drive(n) {
            parts[0]
        } else if n.len() > 0 && n[0] == '/' {
            seq![]
        } else {
            parts[0]
        };
        if root.len() == 0 {
            "/.../"@ + tail
        } else {
            root + "/.../"@ + tail
        }
    }
}

fn forward_slash_chars(path: &str) -> (r: Vec<char>)
    ensures
        r@ == forward_slashes(path@),
{
    let v = chars_of(path);
    let mut r: Vec<char> = Vec::new();
    let mut i: usize = 0;
    while i < v.len()
        invariant
            0 <= i <= v@.len(),
            v@ == path@,
            r@ == forward_slashes(v@.take(i as int)),
        decreases v@.len() - i,
    {
        let c = v[i];
        r.push(if c == '\\' { '/' } else { c });
        proof {
            assert(forward_slashes(v@.take(i + 1)) =~= forward_slashes(v@.take(i as int)).push(if c == '\\' { '/' } else { c }));
        }
        i = i + 1;
    }
    proof {
        assert(v@.take(v@.len() as int) =~= v@);
    }
    r
}

fn segments(v: &Vec<char>) -> (r: Vec<String>)
    ensures
        views(r@) == path_segments(v@),
{
    let mut out: Vec<String> = Vec::new();
    let mut cur = String::new();
    let mut i: usize = 0;
    proof {
        assert(v@.skip(0) =~= v@);
        assert(views(out@) =~= seq![]);
        assert(cur@ =~= seq![]);
    }
    while i < v.len()
        invariant
            0 <= i <= v.len(),
            path_segments(v@) == views(out@) + segs_acc(cur@, v@.skip(i as int)),
        decreases v.len() - i,
    {
        let c = v[i];
        let ghost rest = v@.skip(i as int);
        proof {
            assert(rest[0] == c);
            assert(rest.drop_first() =~= v@.skip(i + 1));
        }
        if c == '/' {
            if !cur.as_str().is_empty() {
                let ghost old_out = out@;
                out.push(cur);
                cur = String::new();
                proof {
                    assert(views(out@) =~= views(old_out).push(out@.last()@));
                    assert(views(old_out) + (seq![out@.last()@] + segs_acc(seq![], v@.skip(i + 1)))
                        =~= views(out@) + segs_acc(cur@, v@.skip(i + 1)));
                }
            }
        } else {
            push_char(&mut cur, c);
        }
        i = i + 1;
    }
    proof {
        assert(v@.skip(i as int).len() == 0);
    }
    if !cur.as_str().is_empty() {
        let ghost old_out = out@;
        out.push(cur);
        proof {
            assert(views(out@) =~= views(old_out).push(out@.last()@));
        }
    } else {
        proof {
            assert(views(out@) + segs_acc(cur@, v@.skip(i as int)) =~= views(out@));
        }
    }
    out
}

fn has_drive_prefix(v: &Vec<char>) -> (r: bool)
    ensures
        r == has_drive(v@),
{
    let mut i: usize = 0;
    while i < v.len()
        invariant
            0 <= i <= v@.len(),
            forall|j: int| 0 <= j < i && j + 1 < v@.len() ==> !(#[trigger] v@[j] == ':' && v@[j + 1] == '/'),
        decreases v.len() - i,
    {
        if i + 1 < v.len() && v[i] == ':' && v[i + 1] == '/' {
            return true;
        }
        i = i + 1;
    }
    false
}

/// Shortens a path for the status line: `root/.../parent/name`.
pub fn compact_path(path: &str) -> (r: String)
    ensures
        r@ == compact_path_of(path@),
{
    let n = forward_slash_chars(path);
    let parts = segments(&n);
    if parts.len() <= 3 {
        return crate::text::string_from_range(&n, 0, n.len());
    }
    let ghost pv = views(parts@);
    let mut last_two: Vec<String> = Vec::new();
    last_two.push(parts[parts.len() - 2].clone());
    last_two.push(parts[parts.len() - 1].clone());
    proof {
        assert(views(last_two@) =~= pv.subrange(pv.len() - 2, pv.len() as int));
    }
    let tail = join_strings(&last_two, "/");
    let absolute = n.len() > 0 && n[0] == '/';
    let root: String = if has_drive_prefix(&n) {
        parts[0].clone()
    } else if absolute {
        String::new()
    } else {
        parts[0].clone()
    };
    let mut r = String::new();
    if !root.as_str().is_empty() {
        push_str(&mut r, root.as_str());
    }
    push_str(&mut r, "/.../");
    push_str(&mut r, tail.as_str());
    proof {
        assert(n@.subrange(0, n@.len() as int) =~= n@);
    }
    r
}

// ─── Image attachments ──────────────────────────────────────────────────

/// An image attached to a prompt: its file name, base64 content and media
/// type.
pub struct Attachment {
    pub filename: String,
    pub content: String,
    pub media_type: String,
}

/// What `std::path::Path::extension` returns for `path`: the part of the
/// file name after its last `.`, when there is one that is not the file
/// name's first character.
pub uninterp spec fn path_extension_of(path: Seq<char>) -> Option<Seq<char>>;

/// `Path::new(path).extension()` as text.  The contract names the result
/// (`path_extension_of`); the rules of file names and extensions are std's.
#[verifier::external_body]
fn path_extension(path: &str) -> (r: Option<String>)
    ensures
        match r {
            Some(e) => path_extension_of(path@) == Some(e@),
            None => path_extension_of(path@) is None,
        },
{
    std::path::Path::new(path).extension().and_then(|ext| ext.to_str()).map(|ext| ext.to_string())
}

/// `a` equals `lower` up to ASCII case, `lower` being lowercase.
pub open spec fn eq_ignore_case(a: Seq<char>, lower: Seq<char>) -> bool {
    &&& a.len() == lower.len()
    &&& forall|i: int| 0 <= i < a.len() ==> crate::mcp_names::ascii_lower(#[trigger] a[i]) == lower[i]
}

fn eq_ignore_case_exec(a: &str, lower: &str) -> (r: bool)
    ensures
        r == eq_ignore_case(a@, lower@),
{
    let x = chars_of(a);
    let y = chars_of(lower);
    if x.len() != y.len() {
        return false;
    }
    let mut i: usize = 0;
    while i < x.len()
        invariant
            0 <= i <= x@.len(),
            x@ == a@,
            y@ == lower@,
            x@.len() == y@.len(),
            forall|j: int| 0 <= j < i ==> crate::mcp_names::ascii_lower(#[trigger] x@[j]) == y@[j],
        decreases x@.len() - i,
    {
        let c = x[i];
        let l = if 'A' <= c && c <= 'Z' {
            let b: u8 = (c as u32 + 32) as u8;
            b as char
        } else {
            c
        };
        if l != y[i] {
            return false;
        }
        i = i + 1;
    }
    true
}

/// The file is an image by its extension (png, jpg, jpeg, gif, webp, bmp,
/// in any ASCII case).
pub open spec fn image_path(path: Seq<char>) -> bool {
    match path_extension_of(trim(path)) {
        Some(e) => eq_ignore_case(e, "png"@) || eq_ignore_case(e, "jpg"@) || eq_ignore_case(e, "jpeg"@)
            || eq_ignore_case(e, "gif"@) || eq_ignore_case(e, "webp"@) || eq_ignore_case(e, "bmp"@),
        None => false,
    }
}

/// Whether a pasted path names an image file.
pub fn is_image_path(path: &str) -> (r: bool)
    ensures
        r == image_path(path@),
{
    let trimmed = trim_string(path);
    match path_extension(trimmed.as_str()) {
        Some(ext) => {
            let e = ext.as_str();
            eq_ignore_case_exec(e, "png") || eq_ignore_case_exec(e, "jpg") || eq_ignore_case_exec(e, "jpeg")
                || eq_ignore_case_exec(e, "gif") || eq_ignore_case_exec(e, "webp") || eq_ignore_case_exec(e, "bmp")
        },
        None => false,
    }
}

/// The media type of an image file by its extension; PNG when unknown.
pub open spec fn mime_of(filename: Seq<char>) -> Seq<char> {
    let e = match path_extension_of(filename) {
        Some(e) => e,
        None => seq![],
    };
    if eq_ignore_case(e, "jpg"@) || eq_ignore_case(e, "jpeg"@) {
        "image/jpeg"@
    } else if eq_ignore_case(e, "gif"@) {
        "image/gif"@
    } else if eq_ignore_case(e, "webp"@) {
        "image/webp"@
    } else if eq_ignore_case(e, "bmp"@) {
        "image/bmp"@
    } else {
        "image/png"@
    }
}

/// Media type of an image file from its name.
pub fn mime_from_filename(filename: &str) -> (r: String)
    ensures
        r@ == mime_of(filename@),
{
    let ext = match path_extension(filename) {
        Some(e) => e,
        None => String::new(),
    };
    let e = ext.as_str();
    if eq_ignore_case_exec(e, "jpg") || eq_ignore_case_exec(e, "jpeg") {
        to_string("image/jpeg")
    } else if eq_ignore_case_exec(e, "gif") {
        to_string("image/gif")
    } else if eq_ignore_case_exec(e, "webp") {
        to_string("image/webp")
    } else if eq_ignore_case_exec(e, "bmp") {
        to_string("image/bmp")
    } else {
        to_string("image/png")
    }
}

/// The input placeholder of the attachment at `index`.
pub fn placeholder_for_attachment(index: usize, attachment: &Attachment) -> (r: String)
    ensures
        r@ == image_label_spec(index as nat, attachment.filename@),
{
    image_label(index, attachment.filename.as_str())
}

/// `a` spells `lower` (lowercase ASCII letters) in any ASCII letter case.
pub open spec fn spelled_any_case(a: Seq<char>, lower: Seq<char>) -> bool {
    &&& a.len() == lower.len()
    &&& forall|i: int| 0 <= i < a.len() ==> #[trigger] a[i] == lower[i] || (a[i] as u32) + 32 == lower[i] as u32
}

proof fn lemma_spelled_any_case(a: Seq<char>, lower: Seq<char>)
    requires
        forall|i: int| 0 <= i < lower.len() ==> 'a' <= #[trigger] lower[i] && lower[i] <= 'z',
    ensures
        eq_ignore_case(a, lower) <==> spelled_any_case(a, lower),
{
    if a.len() == lower.len() {
        assert forall|i: int| 0 <= i < a.len() implies (crate::mcp_names::ascii_lower(#[trigger] a[i]) == lower[i]
            <==> (a[i] == lower[i] || (a[i] as u32) + 32 == lower[i] as u32)) by {
            let c = a[i];
            assert('a' <= lower[i] && lower[i] <= 'z');
            if 'A' <= c && c <= 'Z' {
                assert(65 <= c as u32 <= 90);
                let l = ((c as u32) + 32) as char;
                assert(l as u32 == (c as u32) + 32);
            }
        }
    }
}

proof fn lemma_extension_words()
    ensures
        forall|i: int| 0 <= i < "jpg"@.len() ==> 'a' <= #[trigger] "jpg"@[i] && "jpg"@[i] <= 'z',
        forall|i: int| 0 <= i < "jpeg"@.len() ==> 'a' <= #[trigger] "jpeg"@[i] && "jpeg"@[i] <= 'z',
        forall|i: int| 0 <= i < "gif"@.len() ==> 'a' <= #[trigger] "gif"@[i] && "gif"@[i] <= 'z',
        forall|i: int| 0 <= i < "webp"@.len() ==> 'a' <= #[trigger] "webp"@[i] && "webp"@[i] <= 'z',
        forall|i: int| 0 <= i < "bmp"@.len() ==> 'a' <= #[trigger] "bmp"@[i] && "bmp"@[i] <= 'z',
        forall|i: int| 0 <= i < "png"@.len() ==> 'a' <= #[trigger] "png"@[i] && "png"@[i] <= 'z',
{
    reveal_strlit("jpg");
    reveal_strlit("jpeg");
    reveal_strlit("gif");
    reveal_strlit("webp");
    reveal_strlit("bmp");
    reveal_strlit("png");
}

/// An attached image's media type follows its extension in any letter
/// case: `jpg` and `jpeg` give JPEG, `gif` GIF, `webp` WebP, `bmp` BMP, and
/// anything else (or no extension) PNG.
pub proof fn law_media_type_by_extension(filename: Seq<char>)
    ensures
        match path_extension_of(filename) {
            Some(e) => {
                &&& spelled_any_case(e, "jpg"@) || spelled_any_case(e, "jpeg"@) ==> mime_of(filename) == "image/jpeg"@
                &&& spelled_any_case(e, "gif"@) ==> mime_of(filename) == "image/gif"@
                &&& spelled_any_case(e, "webp"@) ==> mime_of(filename) == "image/webp"@
                &&& spelled_any_case(e, "bmp"@) ==> mime_of(filename) == "image/bmp"@
                &&& !(spelled_any_case(e, "jpg"@) || spelled_any_case(e, "jpeg"@) || spelled_any_case(e, "gif"@)
                    || spelled_any_case(e, "webp"@) || spelled_any_case(e, "bmp"@)) ==> mime_of(filename)
                    == "image/png"@
            },
            None => mime_of(filename) == "image/png"@,
        },
{
    lemma_extension_words();
    let e = match path_extension_of(filename) {
        Some(e) => e,
        None => seq![],
    };
    lemma_spelled_any_case(e, "jpg"@);
    lemma_spelled_any_case(e, "jpeg"@);
    lemma_spelled_any_case(e, "gif"@);
    lemma_spelled_any_case(e, "webp"@);
    lemma_spelled_any_case(e, "bmp"@);
    reveal_strlit("jpg");
    reveal_strlit("jpeg");
    reveal_strlit("gif");
    reveal_strlit("webp");
    reveal_strlit("bmp");
    // The extension tests are exclusive (their lengths or first letters differ).
    if spelled_any_case(e, "gif"@) {
        assert(!spelled_any_case(e, "jpg"@)) by {
            assert(e[0] == 'g' || (e[0] as u32) + 32 == 'g' as u32);
        }
        assert(!spelled_any_case(e, "jpeg"@));
    }
    if spelled_any_case(e, "webp"@) {
        assert(!spelled_any_case(e, "jpeg"@)) by {
            assert(e[0] == 'w' || (e[0] as u32) + 32 == 'w' as u32);
        }
        assert(!spelled_any_case(e, "jpg"@));
        assert(!spelled_any_case(e, "gif"@));
    }
    if spelled_any_case(e, "bmp"@) {
        assert(!spelled_any_case(e, "jpg"@)) by {
            assert(e[0] == 'b' || (e[0] as u32) + 32 == 'b' as u32);
        }
        assert(!spelled_any_case(e, "gif"@)) by {
            assert(e[0] == 'b' || (e[0] as u32) + 32 == 'b' as u32);
        }
        assert(!spelled_any_case(e, "jpeg"@));
        assert(!spelled_any_case(e, "webp"@));
    }
}

/// A pasted path is an image exactly when its extension is png, jpg, jpeg,
/// gif, webp or bmp in any letter case.
pub proof fn law_image_paths_by_extension(path: Seq<char>)
    ensures
        image_path(path) <==> match path_extension_of(trim(path)) {
            Some(e) => spelled_any_case(e, "png"@) || spelled_any_case(e, "jpg"@) || spelled_any_case(e, "jpeg"@)
                || spelled_any_case(e, "gif"@) || spelled_any_case(e, "webp"@) || spelled_any_case(e, "bmp"@),
            None => false,
        },
{
    lemma_extension_words();
    if let Some(e) = path_extension_of(trim(path)) {
        lemma_spelled_any_case(e, "png"@);
        lemma_spelled_any_case(e, "jpg"@);
        lemma_spelled_any_case(e, "jpeg"@);
        lemma_spelled_any_case(e, "gif"@);
        lemma_spelled_any_case(e, "webp"@);
        lemma_spelled_any_case(e, "bmp"@);
    }
}

proof fn lemma_first_match_bounds(sessions: Seq<Seq<char>>, needle: Seq<char>)
    ensures
        0 <= first_match(sessions, needle) <= sessions.len(),
        forall|j: int| 0 <= j < first_match(sessions, needle) ==> !starts_with(#[trigger] sessions[j], needle),
        first_match(sessions, needle) < sessions.len() ==> starts_with(sessions[first_match(sessions, needle)], needle),
    decreases sessions.len(),
{
    if sessions.len() > 0 && !starts_with(sessions[0], needle) {
        let rest = sessions.drop_first();
        lemma_first_match_bounds(rest, needle);
        assert forall|j: int| 0 <= j < first_match(sessions, needle) implies !starts_with(#[trigger] sessions[j], needle) by {
            if j > 0 {
                assert(sessions[j] == rest[j - 1]);
            }
        }
        if first_match(sessions, needle) < sessions.len() {
            assert(sessions[first_match(sessions, needle)] == rest[first_match(rest, needle)]);
        }
    }
}

/// A session argument resolves to the first known session whose id starts
/// with the trimmed input, and to the trimmed input itself when no known
/// id does: an abbreviation never picks a later match or a session it does
/// not abbreviate.
pub proof fn law_session_resolution(sessions: Seq<Seq<char>>, input: Seq<char>)
    ensures
        (exists|i: int| 0 <= i < sessions.len() && starts_with(#[trigger] sessions[i], trim(input))) ==> {
            let r = resolved_session(sessions, input);
            &&& exists|k: int| 0 <= k < sessions.len() && r == sessions[k] && starts_with(r, trim(input)) && forall|j: int|
                0 <= j < k ==> !starts_with(#[trigger] sessions[j], trim(input))
        },
        !(exists|i: int| 0 <= i < sessions.len() && starts_with(#[trigger] sessions[i], trim(input))) ==> resolved_session(
            sessions,
            input,
        ) == trim(input),
{
    let needle = trim(input);
    lemma_first_match_bounds(sessions, needle);
    let k = first_match(sessions, needle);
    if exists|i: int| 0 <= i < sessions.len() && starts_with(#[trigger] sessions[i], needle) {
        let i = choose|i: int| 0 <= i < sessions.len() && starts_with(#[trigger] sessions[i], needle);
        assert(k <= i);
        assert(k < sessions.len());
    } else if k < sessions.len() {
        assert(starts_with(sessions[k], needle));
    }
}

proof fn lemma_paste_prefix_no_cr(s: Seq<char>, n: int)
    requires
        0 <= n <= s.len(),
    ensures
        forall|i: int| 0 <= i < normalized_paste_prefix(s, n).len() ==> #[trigger] normalized_paste_prefix(s, n)[i] != '\r',
        (forall|i: int| 0 <= i < n ==> #[trigger] s[i] != '\r') ==> normalized_paste_prefix(s, n) == s.take(n),
    decreases n,
{
    if n > 0 {
        lemma_paste_prefix_no_cr(s, n - 1);
        let p = normalized_paste_prefix(s, n - 1);
        let q = paste_piece(s, n - 1);
        let r = normalized_paste_prefix(s, n);
        assert(r == p + q);
        assert forall|i: int| 0 <= i < r.len() implies #[trigger] r[i] != '\r' by {
            if i < p.len() {
                assert(r[i] == p[i]);
            } else {
                assert(r[i] == q[i - p.len()]);
            }
        }
        if forall|i: int| 0 <= i < n ==> #[trigger] s[i] != '\r' {
            assert(s[n - 1] != '\r');
            assert(s.take(n) =~= s.take(n - 1).push(s[n - 1]));
        }
    }
}

/// Pasted text never keeps a carriage return: `\r\n` and a lone `\r`
/// both become `\n`, and text without carriage returns is pasted as it
/// is.
pub proof fn law_paste_line_endings(s: Seq<char>)
    ensures
        forall|i: int| 0 <= i < normalized_paste(s).len() ==> #[trigger] normalized_paste(s)[i] != '\r',
        (forall|i: int| 0 <= i < s.len() ==> #[trigger] s[i] != '\r') ==> normalized_paste(s) == s,
        normalized_paste(s + seq!['\r', '\n']) == normalized_paste(s) + seq!['\n'],
        normalized_paste(s.push('\r')) == normalized_paste(s) + seq!['\n'],
{
    lemma_paste_prefix_no_cr(s, s.len() as int);
    assert(s.take(s.len() as int) =~= s);
    let t = s + seq!['\r', '\n'];
    lemma_paste_prefix_same(s, t, s.len() as int);
    assert(paste_piece(t, s.len() as int) == Seq::<char>::empty());
    assert(paste_piece(t, s.len() as int + 1) == seq!['\n']);
    assert(normalized_paste_prefix(t, s.len() as int + 1) =~= normalized_paste_prefix(t, s.len() as int));
    let u = s.push('\r');
    lemma_paste_prefix_same(s, u, s.len() as int);
    assert(paste_piece(u, s.len() as int) == seq!['\n']);
}

/// The normalized prefix of length `n` is the same for a longer text that
/// agrees on the first characters, as long as a final `\r` is not followed
/// by a `\n` in the longer one.
proof fn lemma_paste_prefix_same(s: Seq<char>, t: Seq<char>, n: int)
    requires
        0 <= n <= s.len(),
        s.len() <= t.len(),
        forall|i: int| 0 <= i < s.len() ==> #[trigger] s[i] == t[i],
        n == s.len() && n > 0 && s[n - 1] == '\r' && n < t.len() ==> t[n] != '\n',
    ensures
        normalized_paste_prefix(s, n) == normalized_paste_prefix(t, n),
    decreases n,
{
    if n > 0 {
        lemma_paste_prefix_same(s, t, n - 1);
        assert(s[n - 1] == t[n - 1]);
        if n < s.len() {
            assert(s[n] == t[n]);
        }
        assert(paste_piece(s, n - 1) == paste_piece(t, n - 1));
    }
}

proof fn lemma_ascii_prefix_bytes(id: Seq<char>, k: int)
    requires
        0 <= k <= id.len(),
        forall|i: int| 0 <= i < k ==> (#[trigger] id[i] as u32) < 128,
    ensures
        utf8_len(id.take(k)) == k,
    decreases k,
{
    if k == 0 {
        assert(id.take(0) =~= Seq::<char>::empty());
        assert(vstd::utf8::encode_utf8(Seq::<char>::empty()).len() == 0);
    } else {
        lemma_ascii_prefix_bytes(id, k - 1);
        assert(id.take(k) =~= id.take(k - 1).push(id[k - 1]));
        crate::utf8_len::lemma_utf8_len_push(id.take(k - 1), id[k - 1]);
        assert((id[k - 1] as u32) < 128);
    }
}

/// A session id is shortened to a prefix of itself: its first eight
/// characters when those are ASCII, and the whole id when it is at most
/// eight bytes long.
pub proof fn law_short_id(id: Seq<char>)
    ensures
        short_id_of(id).len() <= id.len(),
        id.take(short_id_of(id).len() as int) == short_id_of(id),
        id.len() >= 8 && (forall|i: int| 0 <= i < 8 ==> (#[trigger] id[i] as u32) < 128) ==> short_id_of(id) == id.take(8),
        utf8_len(id) <= 8 ==> short_id_of(id) == id,
{
    if exists|k: int| 0 <= k <= id.len() && utf8_len(#[trigger] id.take(k)) == 8 {
        let c = choose|k: int| 0 <= k <= id.len() && utf8_len(#[trigger] id.take(k)) == 8;
        assert(id.take(c).len() == c);
        assert(id.take(c).take(c) =~= id.take(c));
        if id.len() >= 8 && (forall|i: int| 0 <= i < 8 ==> (#[trigger] id[i] as u32) < 128) {
            lemma_ascii_prefix_bytes(id, 8);
            if c < 8 {
                lemma_prefix_bytes_unique(id, c, 8);
            } else if c > 8 {
                lemma_prefix_bytes_unique(id, 8, c);
            }
        }
        if utf8_len(id) <= 8 {
            assert(id.take(id.len() as int) =~= id);
            if c < id.len() {
                lemma_prefix_bytes_unique(id, c, id.len() as int);
            }
        }
    } else {
        assert(id.take(id.len() as int) =~= id);
        if id.len() >= 8 && (forall|i: int| 0 <= i < 8 ==> (#[trigger] id[i] as u32) < 128) {
            lemma_ascii_prefix_bytes(id, 8);
            assert(utf8_len(id.take(8)) == 8);
        }
    }
}

} // verus!
