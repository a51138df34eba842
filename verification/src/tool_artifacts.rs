//! Tool-result artifact names, paging of stored results, and the byte
//! budget of background task output files.

use vstd::prelude::*;
use crate::text::{chars_of, decimal, push_char, push_str, string_from_range, to_string, usize_to_decimal};
use crate::utf8_len::{char_len_utf8, lemma_utf8_len_prefix_monotone, lemma_utf8_len_push, prefix_within_bytes, str_byte_len, utf8_len};

verus! {

/// A character allowed in artifact file names.
pub open spec fn filename_char(c: char) -> bool {
    ('a' <= c && c <= 'z') || ('A' <= c && c <= 'Z') || ('0' <= c && c <= '9') || c == '-' || c == '_'
}

/// The allowed characters of `s`, in order.
pub open spec fn filename_chars(s: Seq<char>) -> Seq<char>
    decreases s.len(),
{
    if s.len() == 0 {
        seq![]
    } else if filename_char(s.last()) {
        filename_chars(s.drop_last()).push(s.last())
    } else {
        filename_chars(s.drop_last())
    }
}

/// The first 64 allowed characters of `s`, or `result` when there are none.
pub open spec fn sanitized(s: Seq<char>) -> Seq<char> {
    let kept = filename_chars(s);
    if kept.len() == 0 {
        "result"@
    } else if kept.len() <= 64 {
        kept
    } else {
        kept.take(64)
    }
}

/// `{tool}-{call}` with both parts sanitized.
pub open spec fn artifact_stem(tool_name: Seq<char>, call_id: Seq<char>) -> Seq<char> {
    sanitized(tool_name) + "-"@ + sanitized(call_id)
}

/// `{tool}-{call}.txt`, or `{tool}-{call}-{suffix}.txt` for a suffix above 0.
pub open spec fn artifact_name(tool_name: Seq<char>, call_id: Seq<char>, suffix: nat) -> Seq<char> {
    if suffix == 0 {
        artifact_stem(tool_name, call_id) + ".txt"@
    } else {
        artifact_stem(tool_name, call_id) + "-"@ + decimal(suffix) + ".txt"@
    }
}

proof fn lemma_filename_chars_allowed(s: Seq<char>)
    ensures
        forall|i: int| 0 <= i < filename_chars(s).len() ==> filename_char(#[trigger] filename_chars(s)[i]),
    decreases s.len(),
{
    if s.len() > 0 {
        lemma_filename_chars_allowed(s.drop_last());
        let p = filename_chars(s.drop_last());
        assert forall|i: int| 0 <= i < filename_chars(s).len() implies filename_char(#[trigger] filename_chars(s)[i]) by {
            if i < p.len() {
                assert(filename_chars(s)[i] == p[i]);
            }
        }
    }
}

proof fn lemma_sanitized_allowed(s: Seq<char>)
    ensures
        sanitized(s).len() > 0,
        forall|i: int| 0 <= i < sanitized(s).len() ==> filename_char(#[trigger] sanitized(s)[i]),
{
    lemma_filename_chars_allowed(s);
    reveal_strlit("result");
    let k = filename_chars(s);
    if k.len() > 64 {
        assert forall|i: int| 0 <= i < sanitized(s).len() implies filename_char(#[trigger] sanitized(s)[i]) by {
            assert(sanitized(s)[i] == k[i]);
        }
    }
}

proof fn lemma_decimal_allowed(n: nat)
    ensures
        forall|i: int| 0 <= i < decimal(n).len() ==> filename_char(#[trigger] decimal(n)[i]),
    decreases n,
{
    if n >= 10 {
        lemma_decimal_allowed(n / 10);
        let d = decimal(n);
        assert forall|i: int| 0 <= i < d.len() implies filename_char(#[trigger] d[i]) by {
            if i < d.len() - 1 {
                assert(d[i] == decimal(n / 10)[i]);
            }
        }
    }
}

/// Stored result files stay in their directory: a result file name is
/// made of ASCII letters, digits, `-` and `_`, followed by `.txt`, so it
/// holds no path separator and no `..`, whatever the tool name and call id.
pub proof fn law_artifact_names_stay_in_directory(tool_name: Seq<char>, call_id: Seq<char>, suffix: nat)
    ensures
        artifact_name(tool_name, call_id, suffix).len() > 4,
        forall|i: int| 0 <= i < artifact_name(tool_name, call_id, suffix).len() - 4
            ==> filename_char(#[trigger] artifact_name(tool_name, call_id, suffix)[i]),
        artifact_name(tool_name, call_id, suffix).subrange(
            artifact_name(tool_name, call_id, suffix).len() - 4,
            artifact_name(tool_name, call_id, suffix).len() as int,
        ) == ".txt"@,
{
    lemma_sanitized_allowed(tool_name);
    lemma_sanitized_allowed(call_id);
    lemma_decimal_allowed(suffix);
    reveal_strlit("-");
    reveal_strlit(".txt");
    let a = sanitized(tool_name);
    let b = sanitized(call_id);
    let stem = artifact_stem(tool_name, call_id);
    assert forall|i: int| 0 <= i < stem.len() implies filename_char(#[trigger] stem[i]) by {
        if i < a.len() {
            assert(stem[i] == a[i]);
        } else if i == a.len() {
            assert(stem[i] == '-');
        } else {
            assert(stem[i] == b[i - a.len() - 1]);
        }
    }
    let n = artifact_name(tool_name, call_id, suffix);
    if suffix == 0 {
        assert(n.subrange(n.len() - 4, n.len() as int) =~= ".txt"@);
        assert forall|i: int| 0 <= i < n.len() - 4 implies filename_char(#[trigger] n[i]) by {
            assert(n[i] == stem[i]);
        }
    } else {
        let d = decimal(suffix);
        assert(n.subrange(n.len() - 4, n.len() as int) =~= ".txt"@);
        assert forall|i: int| 0 <= i < n.len() - 4 implies filename_char(#[trigger] n[i]) by {
            if i < stem.len() {
                assert(n[i] == stem[i]);
            } else if i == stem.len() {
                assert(n[i] == '-');
            } else {
                assert(n[i] == d[i - stem.len() - 1]);
            }
        }
    }
}

fn is_filename_char(c: char) -> (r: bool)
    ensures
        r == filename_char(c),
{
    ('a' <= c && c <= 'z') || ('A' <= c && c <= 'Z') || ('0' <= c && c <= '9') || c == '-' || c == '_'
}

/// Keeps ASCII letters, digits, `-` and `_`, at most 64 of them; an empty
/// result becomes `result`.
pub fn sanitize_for_filename(input: &str) -> (r: String)
    ensures
        r@ == sanitized(input@),
{
    let v = chars_of(input);
    let mut kept = String::new();
    let mut count: usize = 0;
    let mut i: usize = 0;
    proof {
        assert(kept@ =~= filename_chars(v@.take(0)));
    }
    while i < v.len()
        invariant
            0 <= i <= v.len(),
            v@ == input@,
            count == filename_chars(v@.take(i as int)).len(),
            count <= i,
            count <= 64 ==> kept@ == filename_chars(v@.take(i as int)),
            count > 64 ==> kept@ == filename_chars(v@.take(i as int)).take(64),
        decreases v.len() - i,
    {
        proof {
            assert(v@.take(i + 1).drop_last() =~= v@.take(i as int));
            assert(v@.take(i + 1).last() == v@[i as int]);
        }
        let c = v[i];
        if is_filename_char(c) {
            let ghost f = filename_chars(v@.take(i as int));
            if count < 64 {
                push_char(&mut kept, c);
            }
            proof {
                if count >= 64 {
                    assert(f.push(c).take(64) =~= f.take(64));
                    if count == 64 {
                        assert(f.take(64) =~= f);
                    }
                }
            }
            count = count + 1;
        }
        i = i + 1;
    }
    proof {
        assert(v@.take(i as int) =~= v@);
    }
    if count == 0 {
        to_string("result")
    } else {
        kept
    }
}

/// `{tool}-{call}.txt` with both parts sanitized.
pub fn tool_result_file_name(tool_name: &str, call_id: &str) -> (r: String)
    ensures
        r@ == artifact_name(tool_name@, call_id@, 0),
{
    let mut r = sanitize_for_filename(tool_name);
    push_str(&mut r, "-");
    let call = sanitize_for_filename(call_id);
    push_str(&mut r, call.as_str());
    push_str(&mut r, ".txt");
    r
}

/// The artifact name for collision attempt `suffix`: the plain name for 0,
/// otherwise the number inserted before `.txt`.
pub fn tool_result_file_name_with_suffix(tool_name: &str, call_id: &str, suffix: usize) -> (r: String)
    ensures
        r@ == artifact_name(tool_name@, call_id@, suffix as nat),
{
    if suffix == 0 {
        return tool_result_file_name(tool_name, call_id);
    }
    let mut r = sanitize_for_filename(tool_name);
    push_str(&mut r, "-");
    let call = sanitize_for_filename(call_id);
    push_str(&mut r, call.as_str());
    push_str(&mut r, "-");
    push_str(&mut r, usize_to_decimal(suffix).as_str());
    push_str(&mut r, ".txt");
    r
}

/// The file holding a background task's output: `{task}.output` with the
/// task id sanitized.
pub fn background_output_file_name(task_id: &str) -> (r: String)
    ensures
        r@ == sanitized(task_id@) + ".output"@,
{
    let mut r = sanitize_for_filename(task_id);
    push_str(&mut r, ".output");
    r
}

// ─── Paging ─────────────────────────────────────────────────────────────

/// Up to `max_chars` characters of `s` starting at character `offset`.
pub open spec fn page(s: Seq<char>, offset: nat, max_chars: nat) -> Seq<char> {
    if offset >= s.len() {
        seq![]
    } else if s.len() - offset <= max_chars {
        s.skip(offset as int)
    } else {
        s.subrange(offset as int, (offset + max_chars) as int)
    }
}

/// Characters remain after the page.
pub open spec fn page_has_more(s: Seq<char>, offset: nat, max_chars: nat) -> bool {
    offset + max_chars < s.len()
}

/// A page of a stored tool result.
#[derive(Debug, Clone)]
pub struct ToolResultArtifactSlice {
    pub path: String,
    pub bytes: usize,
    pub char_offset: usize,
    pub returned_chars: usize,
    pub next_char_offset: Option<usize>,
    pub has_more: bool,
    pub content: String,
}

/// A page of a background task's output file.
#[derive(Debug, Clone)]
pub struct BackgroundTaskOutputSlice {
    pub task_id: String,
    pub bytes: usize,
    pub char_offset: usize,
    pub returned_chars: usize,
    pub next_char_offset: Option<usize>,
    pub has_more: bool,
    pub content: String,
}

/// The page, its length, and whether more follows.
fn page_of(content: &str, char_offset: usize, max_chars: usize) -> (r: (String, usize, bool))
    ensures
        r.0@ == page(content@, char_offset as nat, max_chars as nat),
        r.1 == r.0@.len(),
        r.2 == page_has_more(content@, char_offset as nat, max_chars as nat),
        r.2 ==> char_offset + r.1 < content@.len() && char_offset + r.1 <= usize::MAX,
{
    let v = chars_of(content);
    if char_offset >= v.len() {
        return (String::new(), 0, false);
    }
    if v.len() - char_offset <= max_chars {
        let text = string_from_range(&v, char_offset, v.len());
        proof {
            assert(v@.subrange(char_offset as int, v@.len() as int) =~= v@.skip(char_offset as int));
        }
        return (text, v.len() - char_offset, false);
    }
    let text = string_from_range(&v, char_offset, char_offset + max_chars);
    (text, max_chars, true)
}

/// Reads `max_chars` characters of a stored tool result from character
/// `char_offset`; `next_char_offset` is set exactly when more follows.
pub fn slice_tool_result(path: &str, content: &str, char_offset: usize, max_chars: usize) -> (r: ToolResultArtifactSlice)
    ensures
        r.path@ == path@,
        r.bytes == utf8_len(content@),
        r.char_offset == char_offset,
        r.content@ == page(content@, char_offset as nat, max_chars as nat),
        r.returned_chars == r.content@.len(),
        r.has_more == page_has_more(content@, char_offset as nat, max_chars as nat),
        r.has_more ==> r.next_char_offset is Some && r.next_char_offset->0 == char_offset + r.returned_chars,
        !r.has_more ==> r.next_char_offset is None,
{
    let (text, returned_chars, has_more) = page_of(content, char_offset, max_chars);
    let next_char_offset = if has_more { Some(char_offset + returned_chars) } else { None };
    ToolResultArtifactSlice {
        path: to_string(path),
        bytes: str_byte_len(content),
        char_offset,
        returned_chars,
        next_char_offset,
        has_more,
        content: text,
    }
}

/// A page of background task output held in memory (files up to the small
/// file threshold are read whole and paged here).
pub fn background_output_slice(task_id: &str, total_bytes: usize, content: &str, char_offset: usize, max_chars: usize) -> (r: BackgroundTaskOutputSlice)
    ensures
        r.task_id@ == task_id@,
        r.bytes == total_bytes,
        r.char_offset == char_offset,
        r.content@ == page(content@, char_offset as nat, max_chars as nat),
        r.returned_chars == r.content@.len(),
        r.has_more == page_has_more(content@, char_offset as nat, max_chars as nat),
        r.has_more ==> r.next_char_offset is Some && r.next_char_offset->0 == char_offset + r.returned_chars,
        !r.has_more ==> r.next_char_offset is None,
{
    let (text, returned_chars, has_more) = page_of(content, char_offset, max_chars);
    let next_char_offset = if has_more { Some(char_offset + returned_chars) } else { None };
    BackgroundTaskOutputSlice {
        task_id: to_string(task_id),
        bytes: total_bytes,
        char_offset,
        returned_chars,
        next_char_offset,
        has_more,
        content: text,
    }
}

/// A page of a background task's output file too large to read whole:
/// `window` is the text decoded from the `bytes_read` bytes read at byte
/// `byte_start` of the `total_bytes`-byte file, its first character being
/// character `char_offset` of the output.  The page is the window's first
/// `max_chars` characters; more follows when the window holds more or the
/// file goes on past the bytes read.
pub fn background_window_slice(
    task_id: &str,
    total_bytes: usize,
    char_offset: usize,
    window: &str,
    byte_start: usize,
    bytes_read: usize,
    max_chars: usize,
) -> (r: BackgroundTaskOutputSlice)
    ensures
        r.task_id@ == task_id@,
        r.bytes == total_bytes,
        r.char_offset == char_offset,
        r.content@ == page(window@, 0, max_chars as nat),
        r.returned_chars == r.content@.len(),
        r.has_more == (page_has_more(window@, 0, max_chars as nat) || byte_start + bytes_read < total_bytes),
        r.has_more ==> r.next_char_offset == Some(
            if char_offset + r.returned_chars <= usize::MAX {
                (char_offset + r.returned_chars) as usize
            } else {
                usize::MAX
            },
        ),
        !r.has_more ==> r.next_char_offset is None,
{
    let (text, returned_chars, window_has_more) = page_of(window, 0, max_chars);
    let more_on_disk = bytes_read < total_bytes && byte_start < total_bytes - bytes_read;
    let has_more = window_has_more || more_on_disk;
    let next_char_offset = if has_more { Some(char_offset.saturating_add(returned_chars)) } else { None };
    BackgroundTaskOutputSlice {
        task_id: to_string(task_id),
        bytes: total_bytes,
        char_offset,
        returned_chars,
        next_char_offset,
        has_more,
        content: text,
    }
}

/// Skipping characters of a file read in chunks: of `count` characters
/// still to skip, the ones in `chunk` (the text decoded at the start of the
/// buffered bytes).  Returns the bytes to consume and the characters
/// skipped: the first `count` characters of the chunk, or all of them.
pub fn chars_in_chunk(chunk: &str, count: usize) -> (r: (usize, usize))
    ensures
        r.1 == if count < chunk@.len() { count as nat } else { chunk@.len() },
        r.0 == utf8_len(chunk@.take(r.1 as int)),
{
    let total = str_byte_len(chunk);
    let v = chars_of(chunk);
    let k = if count < v.len() { count } else { v.len() };
    let mut bytes: usize = 0;
    let mut i: usize = 0;
    while i < k
        invariant
            0 <= i <= k <= v@.len(),
            v@ == chunk@,
            total == utf8_len(chunk@),
            bytes == utf8_len(chunk@.take(i as int)),
        decreases k - i,
    {
        proof {
            assert(chunk@.take(i + 1) =~= chunk@.take(i as int).push(chunk@[i as int]));
            lemma_utf8_len_push(chunk@.take(i as int), chunk@[i as int]);
            lemma_utf8_len_prefix_monotone(chunk@, i + 1, chunk@.len() as int);
            assert(chunk@.take(chunk@.len() as int) =~= chunk@);
        }
        bytes = bytes + char_len_utf8(v[i]);
        i = i + 1;
    }
    (bytes, k)
}

// ─── Writing a tool result file ─────────────────────────────────────────

/// File names tried for one tool result before giving up.
pub const MAX_ARTIFACT_NAME_ATTEMPTS: usize = 1000;

/// What creating a tool result file under a name found.
#[derive(Clone, Copy, Debug, PartialEq, Eq, Structural)]
pub enum ArtifactCreate {
    /// The file was created and written.
    Created,
    /// A file of that name already holds exactly this content.
    ExistsSame,
    /// A file of that name holds other content.
    ExistsDifferent,
}

/// What the writer does next.
#[derive(Clone, Copy, Debug, PartialEq, Eq, Structural)]
pub enum ArtifactWriteStep {
    /// The content is stored under the name just tried.
    Stored,
    /// Try the name with this suffix.
    TryNext(usize),
    /// Every name was taken by other content.
    GiveUp,
}

/// The next step after trying the name with `suffix`: a created file, or
/// one that already holds the same content, stores the result; a name
/// taken by other content moves on to the next suffix, until
/// `MAX_ARTIFACT_NAME_ATTEMPTS` names were tried.
pub fn artifact_write_step(suffix: usize, found: ArtifactCreate) -> (r: ArtifactWriteStep)
    requires
        suffix < MAX_ARTIFACT_NAME_ATTEMPTS,
    ensures
        found != ArtifactCreate::ExistsDifferent ==> r == ArtifactWriteStep::Stored,
        found == ArtifactCreate::ExistsDifferent && suffix + 1 < MAX_ARTIFACT_NAME_ATTEMPTS ==> r
            == ArtifactWriteStep::TryNext((suffix + 1) as usize),
        found == ArtifactCreate::ExistsDifferent && suffix + 1 >= MAX_ARTIFACT_NAME_ATTEMPTS ==> r
            == ArtifactWriteStep::GiveUp,
{
    match found {
        ArtifactCreate::Created => ArtifactWriteStep::Stored,
        ArtifactCreate::ExistsSame => ArtifactWriteStep::Stored,
        ArtifactCreate::ExistsDifferent => if suffix + 1 < MAX_ARTIFACT_NAME_ATTEMPTS {
            ArtifactWriteStep::TryNext(suffix + 1)
        } else {
            ArtifactWriteStep::GiveUp
        },
    }
}

/// A character a stored file name may hold besides its extension: an
/// ASCII letter or digit, `-` or `_` (so never `/`, `\\` or `.`).
pub open spec fn plain_name_char(c: char) -> bool {
    ('a' <= c && c <= 'z') || ('A' <= c && c <= 'Z') || ('0' <= c && c <= '9') || c == '-' || c == '_'
}

proof fn lemma_plain_chars_kept(s: Seq<char>)
    requires
        forall|i: int| 0 <= i < s.len() ==> plain_name_char(#[trigger] s[i]),
    ensures
        filename_chars(s) == s,
    decreases s.len(),
{
    if s.len() > 0 {
        let p = s.drop_last();
        assert forall|i: int| 0 <= i < p.len() implies plain_name_char(#[trigger] p[i]) by {
            assert(p[i] == s[i]);
        }
        lemma_plain_chars_kept(p);
        assert(s.last() == s[s.len() - 1]);
        assert(p.push(s.last()) =~= s);
    }
}

/// A sanitized part keeps only ASCII letters, digits, `-` and `_`, at most
/// 64 of them and never none (`result` stands in); a part already made of
/// at most 64 such characters is kept as it is.
pub proof fn law_sanitized_parts(s: Seq<char>)
    ensures
        0 < sanitized(s).len() <= 64,
        forall|i: int| 0 <= i < sanitized(s).len() ==> plain_name_char(#[trigger] sanitized(s)[i]),
        0 < s.len() <= 64 && (forall|i: int| 0 <= i < s.len() ==> plain_name_char(#[trigger] s[i])) ==> sanitized(s)
            == s,
{
    lemma_sanitized_allowed(s);
    reveal_strlit("result");
    if 0 < s.len() <= 64 && (forall|i: int| 0 <= i < s.len() ==> plain_name_char(#[trigger] s[i])) {
        lemma_plain_chars_kept(s);
    }
}

/// Stored result and output files stay in their directory: apart from
/// their `.txt` or `.output` extension their names are made of ASCII
/// letters, digits, `-` and `_` only.
pub proof fn law_stored_names_plain(tool_name: Seq<char>, call_id: Seq<char>, suffix: nat, task_id: Seq<char>)
    ensures
        forall|i: int| 0 <= i < artifact_name(tool_name, call_id, suffix).len() - 4
            ==> plain_name_char(#[trigger] artifact_name(tool_name, call_id, suffix)[i]),
        forall|i: int| 0 <= i < sanitized(task_id).len() ==> plain_name_char(#[trigger] (sanitized(task_id)
            + ".output"@)[i]),
{
    law_artifact_names_stay_in_directory(tool_name, call_id, suffix);
    law_sanitized_parts(task_id);
    assert forall|i: int| 0 <= i < sanitized(task_id).len() implies plain_name_char(#[trigger] (sanitized(task_id)
        + ".output"@)[i]) by {
        assert((sanitized(task_id) + ".output"@)[i] == sanitized(task_id)[i]);
    }
}

/// Paging continues where the previous page ended: a page that has more
/// followed by the page at its next offset is the page of both lengths.
pub proof fn law_pages_concatenate(s: Seq<char>, offset: nat, first: nat, second: nat)
    requires
        page_has_more(s, offset, first),
    ensures
        page(s, offset, first) + page(s, offset + first, second) == page(s, offset, first + second),
{
    let a = page(s, offset, first);
    let b = page(s, offset + first, second);
    assert(a =~= s.subrange(offset as int, (offset + first) as int));
    if s.len() - (offset + first) <= second {
        assert(a + b =~= s.skip(offset as int));
    } else {
        assert(a + b =~= s.subrange(offset as int, (offset + first + second) as int));
    }
}

/// A page never holds more than asked for, and the pages of a result read
/// from offset 0 onward hold its characters in order.
pub proof fn law_page_bounds(s: Seq<char>, offset: nat, max_chars: nat)
    ensures
        page(s, offset, max_chars).len() <= max_chars,
        offset <= s.len() ==> page(s, offset, max_chars) == s.subrange(
            offset as int,
            (offset + page(s, offset, max_chars).len()) as int,
        ),
        !page_has_more(s, offset, max_chars) && offset <= s.len() ==> page(s, offset, max_chars) == s.skip(offset as int),
{
    if offset <= s.len() {
        if offset == s.len() {
            assert(s.skip(offset as int) =~= seq![]);
            assert(s.subrange(offset as int, offset as int) =~= seq![]);
        } else if s.len() - offset <= max_chars {
            assert(s.skip(offset as int) =~= s.subrange(offset as int, s.len() as int));
        }
    }
}

// ─── Byte budgets ───────────────────────────────────────────────────────

/// Default size cap of a background task output file (100 MB).
pub const DEFAULT_BG_TASK_OUTPUT_LIMIT: usize = 104857600;

/// `s` cut to its longest prefix of at most `max_bytes` UTF-8 bytes (at a
/// character boundary); `s` itself when it fits.
pub open spec fn fits_prefix(s: Seq<char>, max_bytes: nat, r: Seq<char>) -> bool {
    if utf8_len(s) <= max_bytes {
        r == s
    } else {
        exists|k: int| 0 <= k < s.len() && r == #[trigger] s.take(k) && utf8_len(s.take(k)) <= max_bytes
            && utf8_len(s.take(k + 1)) > max_bytes
    }
}

/// `s` cut at the last character boundary at or before byte `max_bytes`.
pub fn truncate_to_char_boundary(s: &str, max_bytes: usize) -> (r: String)
    ensures
        fits_prefix(s@, max_bytes as nat, r@),
        utf8_len(r@) <= utf8_len(s@),
{
    let v = chars_of(s);
    if str_byte_len(s) <= max_bytes {
        return to_string(s);
    }
    let (k, _bytes) = prefix_within_bytes(&v, max_bytes);
    proof {
        crate::utf8_len::lemma_utf8_len_prefix_monotone(v@, k as int, v@.len() as int);
        assert(v@.take(v@.len() as int) =~= v@);
    }
    let r = string_from_range(&v, 0, k);
    proof {
        assert(v@.subrange(0, k as int) =~= v@.take(k as int));
    }
    r
}

/// Text of a background task output file and how many bytes of the output
/// it keeps: output over `max_bytes` is cut at a character boundary and a
/// truncation note with the kept and total sizes in KB is appended.
pub open spec fn background_file_text(content: Seq<char>, kept: Seq<char>) -> Seq<char> {
    if utf8_len(kept) == utf8_len(content) {
        kept
    } else {
        kept + "\n\n[output truncated: "@ + decimal(utf8_len(kept) / 1024) + "KB retained of "@ + decimal(
            utf8_len(content) / 1024,
        ) + "KB total]"@
    }
}

/// The text to write for a background task's output and the number of
/// output bytes it keeps.
pub fn background_task_output(content: &str, max_bytes: usize) -> (r: (String, usize))
    ensures
        exists|kept: Seq<char>| fits_prefix(content@, max_bytes as nat, kept) && r.1 == utf8_len(kept)
            && r.0@ == (if utf8_len(content@) <= max_bytes { content@ } else { background_file_text(content@, kept) }),
{
    let total = str_byte_len(content);
    if total <= max_bytes {
        proof {
            assert(fits_prefix(content@, max_bytes as nat, content@));
        }
        return (to_string(content), total);
    }
    let v = chars_of(content);
    let (k, kept_bytes) = prefix_within_bytes(&v, max_bytes);
    proof {
        crate::utf8_len::lemma_utf8_len_prefix_monotone(v@, k as int, v@.len() as int);
        assert(v@.take(v@.len() as int) =~= v@);
    }
    let mut out = string_from_range(&v, 0, k);
    proof {
        assert(v@.subrange(0, k as int) =~= v@.take(k as int));
    }
    let ghost kept = out@;
    push_str(&mut out, "\n\n[output truncated: ");
    push_str(&mut out, usize_to_decimal(kept_bytes / 1024).as_str());
    push_str(&mut out, "KB retained of ");
    push_str(&mut out, usize_to_decimal(total / 1024).as_str());
    push_str(&mut out, "KB total]");
    proof {
        assert(fits_prefix(content@, max_bytes as nat, kept));
        assert(utf8_len(kept) != utf8_len(content@));
    }
    (out, kept_bytes)
}

} // verus!
