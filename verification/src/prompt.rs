//! System prompt assembly.
//!
//! [`build_system_prompt`] renders structured input into a fixed sequence
//! of `[Title]` sections.  Stable identity and policy text come first so
//! that changes to the environment leave the prompt prefix unchanged.

use vstd::prelude::*;
use crate::extension::ExecutionMode;
use crate::text::{chars_of, collapse_ws, is_blank, is_blank_str, join, join_strings, lemma_join_cons, lemma_join_starts_with_first, one_line, push_char, push_str, starts_with, str_eq, str_starts_with, to_string, trim, trim_end, trim_end_string, trim_string, views};

verus! {

// ─── Input types ────────────────────────────────────────────────────────

/// Where a tool comes from.
#[derive(Clone, Copy, Debug, PartialEq, Eq, Structural)]
pub enum ToolOrigin {
    Builtin,
    Bundled,
    Extension,
}

/// A tool as advertised to the model.
pub struct ToolDefinition {
    pub name: String,
    pub description: String,
    pub parameters: serde_json::Value,
    pub origin: ToolOrigin,
    pub execution_mode: ExecutionMode,
}

impl Clone for ToolDefinition {
    fn clone(&self) -> (r: Self)
        ensures
            r == *self,
    {
        ToolDefinition {
            name: self.name.clone(),
            description: self.description.clone(),
            parameters: crate::json::json_clone(&self.parameters),
            origin: self.origin,
            execution_mode: self.execution_mode,
        }
    }
}

/// The fixed section an extension's prompt block lands in.
#[derive(Clone, Copy, Debug, PartialEq, Eq, Structural)]
pub enum ExtensionSection {
    PlatformInstructions,
    Skills,
    Agents,
}

/// Prompt text contributed by an extension.
pub struct ExtensionPromptBlock {
    pub section: ExtensionSection,
    pub content: String,
}

/// Everything the system prompt is built from.
pub struct SystemPromptInput {
    pub working_dir: String,
    pub os: String,
    pub shell: String,
    pub date: String,
    pub identity: Option<String>,
    pub user_rules: Option<String>,
    pub project_rules: Option<String>,
    pub tools: Vec<ToolDefinition>,
    pub extension_blocks: Vec<ExtensionPromptBlock>,
    pub extra_instructions: Option<String>,
}

// ─── Fixed text ─────────────────────────────────────────────────────────

pub const DEFAULT_IDENTITY: &'static str =
    "You are AstrCode, a genius-level engineer and team leader. Code is your expression — \
     correct, maintainable. Thoroughly understand before precisely executing; pursue perfect and \
     elegant best practices, root-causing problems rather than patching symptoms. In complex \
     tasks, orchestrate agent-tool collaboration to coordinate resources and drive projects to \
     success.";

pub const RESPONSE_STYLE: &'static str =
    "Write for the user, not for a console log. Lead with the answer, action, or next step when \
     it is clear.\n\nWhen the task needs tools, multiple steps, or noticeable wait time:\n- \
     Before the first tool call, briefly state what you are going to do.\n- Give short progress \
     updates when you confirm something important, change direction, or make meaningful progress \
     after a stretch of silence.\n- Use complete sentences and enough context that the user can \
     resume cold.\n\nDo not present a guess, lead, or partial result as if it were confirmed. \
     Distinguish a suspicion from a supported finding, and distinguish both from the final \
     conclusion.\n\nPrefer clear prose over running debug-log narration. Use light structure only \
     when it improves readability.\n\nWhen closing out implementation work, briefly cover:\n- \
     what changed,\n- why this shape is correct,\n- what you verified,\n- any remaining risk or \
     next step if verification was partial.";

pub const SUMMARY_NARROWEST: &'static str =
    "Use the narrowest tool that can answer the request. Prefer read-only inspection before \
     mutation.";

pub const SUMMARY_PATHS: &'static str =
    "All file paths passed to builtin file tools must stay inside the working directory \
     unless the tool explicitly accepts a persisted result reference.";

pub const SUMMARY_PERSISTED: &'static str =
    "When a tool returns a persisted-result reference for large output, keep the reference in \
     context and inspect it with `read` chunks instead of asking the tool to inline the whole \
     result again.";

pub const AGENT_TOOLS_HINT: &'static str =
    "- Use these tools to spawn and inspect child agents. Keep the original agent \
     identifier byte-for-byte across related calls.";

pub const SEARCH_HINT_BUILTIN: &'static str =
    "- Builtin tools do not need discovery through `tool_search_tool`.";

pub const SEARCH_HINT_WHEN: &'static str =
    "- Use `tool_search_tool` when builtin tools are not enough and you need the schema \
     of an external MCP/plugin tool from its rough summary.";

pub const SEARCH_HINT_AFTER: &'static str =
    "- After `tool_search_tool` returns candidate tools and schemas, call the matching \
     concrete tool directly.";

pub const EXAMPLE_WORKFLOW: &'static str =
    "1. Check whether builtin tools already solve the task.\n2. If an external tool is needed \
     or a visible `mcp__...` tool has unclear parameters, call `tool_search_tool` first with \
     part of the tool name or the task purpose, for example `{ \"query\": \"webReader\" }` or \
     `{ \"query\": \"github repo structure\" }`.\n3. Read the returned input schema from \
     `tool_search_tool` before making the external tool call.\n4. Pick the matching concrete \
     tool from the search results, such as `mcp__...`, and call it directly. Do not guess \
     argument names when schema is available.";

// ─── Sections and indentation ───────────────────────────────────────────

/// Pieces of `cur + s` cut at each `'\n'`.
pub open spec fn split_acc(cur: Seq<char>, s: Seq<char>) -> Seq<Seq<char>>
    decreases s.len(),
{
    if s.len() == 0 {
        seq![cur]
    } else if s[0] == '\n' {
        seq![cur] + split_acc(seq![], s.drop_first())
    } else {
        split_acc(cur.push(s[0]), s.drop_first())
    }
}

/// `str::lines`: pieces cut at `'\n'`, with no piece after a final newline.
/// (A `'\r'` before the newline stays in the piece; every use below trims
/// line ends, and `'\r'` is whitespace, so the result is the same.)
pub open spec fn lines(s: Seq<char>) -> Seq<Seq<char>> {
    if s.len() == 0 {
        seq![]
    } else if s.last() == '\n' {
        split_acc(seq![], s.drop_last())
    } else {
        split_acc(seq![], s)
    }
}

/// One indented line: blank lines become empty, others get two spaces and
/// lose trailing whitespace.
pub open spec fn indent_line(l: Seq<char>) -> Seq<char> {
    if is_blank(l) {
        seq![]
    } else {
        "  "@ + trim_end(l)
    }
}

/// Every line of `body` indented.
pub open spec fn indent_body_spec(body: Seq<char>) -> Seq<char> {
    join(lines(body).map_values(|l: Seq<char>| indent_line(l)), "\n"@)
}

/// `[title]` followed by the trimmed, indented body.
pub open spec fn section(title: Seq<char>, body: Seq<char>) -> Seq<char> {
    "["@ + title + "]\n"@ + indent_body_spec(trim(body))
}

fn indent_line_exec(l: &str) -> (r: String)
    ensures
        r@ == indent_line(l@),
{
    if is_blank_str(l) {
        return String::new();
    }
    let mut r = to_string("  ");
    let t = trim_end_string(l);
    push_str(&mut r, t.as_str());
    r
}

fn indent_body(body: &str) -> (r: String)
    ensures
        r@ == indent_body_spec(body@),
{
    let v = chars_of(body);
    if v.len() == 0 {
        proof {
            assert(lines(body@).map_values(|l: Seq<char>| indent_line(l)) =~= Seq::<Seq<char>>::empty());
        }
        return String::new();
    }
    let n: usize = if v[v.len() - 1] == '\n' { v.len() - 1 } else { v.len() };
    let ghost src = v@.take(n as int);
    proof {
        if v@.last() == '\n' {
            assert(src =~= v@.drop_last());
        } else {
            assert(src =~= v@);
        }
    }
    let mut out: Vec<String> = Vec::new();
    let mut cur = String::new();
    let mut i: usize = 0;
    proof {
        assert(src.skip(0) =~= src);
        assert(cur@ =~= seq![]);
    }
    while i < n
        invariant
            0 <= i <= n <= v.len(),
            src == v@.take(n as int),
            lines(body@) == split_acc(seq![], src),
            split_acc(seq![], src).map_values(|l: Seq<char>| indent_line(l)) == views(out@)
                + split_acc(cur@, src.skip(i as int)).map_values(|l: Seq<char>| indent_line(l)),
        decreases n - i,
    {
        let c = v[i];
        proof {
            assert(src.skip(i as int)[0] == c);
            assert(src.skip(i as int).drop_first() =~= src.skip(i + 1));
        }
        if c == '\n' {
            let line = indent_line_exec(cur.as_str());
            let ghost before = views(out@);
            let ghost rest = split_acc(seq![], src.skip(i + 1)).map_values(|l: Seq<char>| indent_line(l));
            out.push(line);
            proof {
                assert(views(out@) =~= before.push(line@));
                assert((seq![cur@] + split_acc(seq![], src.skip(i + 1))).map_values(
                    |l: Seq<char>| indent_line(l),
                ) =~= seq![indent_line(cur@)] + rest);
                assert(before + (seq![indent_line(cur@)] + rest) =~= views(out@) + rest);
            }
            cur = String::new();
            proof {
                assert(cur@ =~= seq![]);
            }
        } else {
            push_char(&mut cur, c);
        }
        i = i + 1;
    }
    let line = indent_line_exec(cur.as_str());
    let ghost before = views(out@);
    out.push(line);
    proof {
        assert(src.skip(i as int).len() == 0);
        assert(views(out@) =~= before.push(line@));
        assert(seq![cur@].map_values(|l: Seq<char>| indent_line(l)) =~= seq![indent_line(cur@)]);
        assert(before + seq![indent_line(cur@)] =~= views(out@));
    }
    let sep = "\n";
    join_strings(&out, sep)
}

/// Renders `[title]` and the indented, trimmed body.
fn render_section(title: &str, body: &str) -> (r: String)
    ensures
        r@ == section(title@, body@),
{
    let mut r = to_string("[");
    push_str(&mut r, title);
    push_str(&mut r, "]\n");
    let trimmed = trim_string(body);
    let indented = indent_body(trimmed.as_str());
    push_str(&mut r, indented.as_str());
    r
}

// ─── Ordering tools by name ─────────────────────────────────────────────

/// `a <= b` in lexicographic character order (the order of `String`'s `Ord`,
/// since UTF-8 keeps code-point order).
pub open spec fn name_le(a: Seq<char>, b: Seq<char>) -> bool
    decreases a.len(),
{
    if a.len() == 0 {
        true
    } else if b.len() == 0 {
        false
    } else if (a[0] as u32) < (b[0] as u32) {
        true
    } else if (a[0] as u32) > (b[0] as u32) {
        false
    } else {
        name_le(a.drop_first(), b.drop_first())
    }
}

/// `s` with `t` placed after every entry whose name is at most `t`'s.
pub open spec fn insert_by_name(s: Seq<ToolDefinition>, t: ToolDefinition) -> Seq<ToolDefinition>
    decreases s.len(),
{
    if s.len() == 0 {
        seq![t]
    } else if name_le(s.last().name@, t.name@) {
        s.push(t)
    } else {
        insert_by_name(s.drop_last(), t).push(s.last())
    }
}

/// `s` stably sorted by name.
pub open spec fn sort_by_name(s: Seq<ToolDefinition>) -> Seq<ToolDefinition>
    decreases s.len(),
{
    if s.len() == 0 {
        seq![]
    } else {
        insert_by_name(sort_by_name(s.drop_last()), s.last())
    }
}

/// `a > b` by name.
fn name_gt(a: &str, b: &str) -> (r: bool)
    ensures
        r == !name_le(a@, b@),
{
    let x = chars_of(a);
    let y = chars_of(b);
    let mut i: usize = 0;
    proof {
        assert(x@.skip(0) =~= x@);
        assert(y@.skip(0) =~= y@);
    }
    while i < x.len() && i < y.len() && x[i] == y[i]
        invariant
            0 <= i <= x.len(),
            i <= y.len(),
            x@ == a@,
            y@ == b@,
            name_le(a@, b@) == name_le(x@.skip(i as int), y@.skip(i as int)),
        decreases x.len() - i,
    {
        proof {
            assert(x@.skip(i as int).drop_first() =~= x@.skip(i + 1));
            assert(y@.skip(i as int).drop_first() =~= y@.skip(i + 1));
            assert(x@.skip(i as int)[0] == x@[i as int]);
            assert(y@.skip(i as int)[0] == y@[i as int]);
        }
        i = i + 1;
    }
    proof {
        if i < x.len() {
            assert(x@.skip(i as int)[0] == x@[i as int]);
        }
        if i < y.len() {
            assert(y@.skip(i as int)[0] == y@[i as int]);
        }
    }
    if i == x.len() {
        false
    } else if i == y.len() {
        true
    } else {
        let cx = x[i];
        let cy = y[i];
        proof {
            let ux = cx as u32;
            let uy = cy as u32;
            vstd::utf8::char_u32_cast(cx, ux);
            vstd::utf8::char_u32_cast(cy, uy);
            assert(ux != uy);
        }
        (cx as u32) > (cy as u32)
    }
}

/// Inserting at the first position after which every name is greater.
proof fn lemma_insert_position(s: Seq<ToolDefinition>, t: ToolDefinition, p: int)
    requires
        0 <= p <= s.len(),
        forall|k: int| p <= k < s.len() ==> !name_le(#[trigger] s[k].name@, t.name@),
        p > 0 ==> name_le(s[p - 1].name@, t.name@),
    ensures
        insert_by_name(s, t) == s.insert(p, t),
    decreases s.len(),
{
    if s.len() == 0 {
        assert(s.insert(p, t) =~= seq![t]);
    } else if name_le(s.last().name@, t.name@) {
        assert(p == s.len());
        assert(s.insert(p, t) =~= s.push(t));
    } else {
        assert(p < s.len());
        lemma_insert_position(s.drop_last(), t, p);
        assert(s.drop_last().insert(p, t).push(s.last()) =~= s.insert(p, t));
    }
}

/// The tools at `idx`, in order.
pub open spec fn pick(tools: Seq<ToolDefinition>, idx: Seq<usize>) -> Seq<ToolDefinition> {
    idx.map_values(|k: usize| tools[k as int])
}

/// Indexes `idx` reordered so that the tools they pick are stably sorted by name.
fn sort_indexes_by_name(tools: &Vec<ToolDefinition>, idx: &Vec<usize>) -> (r: Vec<usize>)
    requires
        forall|j: int| 0 <= j < idx@.len() ==> #[trigger] idx@[j] < tools@.len(),
    ensures
        pick(tools@, r@) == sort_by_name(pick(tools@, idx@)),
        forall|j: int| 0 <= j < r@.len() ==> #[trigger] r@[j] < tools@.len(),
        r@.len() == idx@.len(),
{
    let mut sorted: Vec<usize> = Vec::new();
    let mut j: usize = 0;
    proof {
        assert(pick(tools@, sorted@) =~= sort_by_name(pick(tools@, idx@).take(0)));
    }
    while j < idx.len()
        invariant
            0 <= j <= idx.len(),
            forall|q: int| 0 <= q < idx@.len() ==> #[trigger] idx@[q] < tools@.len(),
            forall|q: int| 0 <= q < sorted@.len() ==> #[trigger] sorted@[q] < tools@.len(),
            sorted@.len() == j,
            pick(tools@, sorted@) == sort_by_name(pick(tools@, idx@).take(j as int)),
        decreases idx.len() - j,
    {
        let x = idx[j];
        let ghost s = pick(tools@, sorted@);
        let ghost t = tools@[x as int];
        let mut p: usize = sorted.len();
        while p > 0 && name_gt(tools[sorted[p - 1]].name.as_str(), tools[x].name.as_str())
            invariant
                0 <= p <= sorted@.len(),
                x < tools@.len(),
                t == tools@[x as int],
                s == pick(tools@, sorted@),
                forall|q: int| 0 <= q < sorted@.len() ==> #[trigger] sorted@[q] < tools@.len(),
                forall|k: int| p <= k < s.len() ==> !name_le(#[trigger] s[k].name@, t.name@),
            decreases p,
        {
            p = p - 1;
        }
        proof {
            lemma_insert_position(s, t, p as int);
            let pre = pick(tools@, idx@).take(j + 1);
            assert(pre.drop_last() =~= pick(tools@, idx@).take(j as int));
            assert(pre.last() == t);
        }
        let ghost before = sorted@;
        sorted.insert(p, x);
        proof {
            assert(sorted@ == before.insert(p as int, x));
            assert(pick(tools@, sorted@) =~= s.insert(p as int, t));
            assert forall|q: int| 0 <= q < sorted@.len() implies #[trigger] sorted@[q] < tools@.len() by {
                if q < p {
                    assert(sorted@[q] == before[q]);
                } else if q > p {
                    assert(sorted@[q] == before[q - 1]);
                }
            }
        }
        j = j + 1;
    }
    proof {
        assert(pick(tools@, idx@).take(j as int) =~= pick(tools@, idx@));
    }
    sorted
}

// ─── Tool summary ───────────────────────────────────────────────────────

/// `Skill`, `agent` or `tool_search_tool`: bundled tools listed with the builtins.
pub open spec fn is_core_bundled_name(name: Seq<char>) -> bool {
    name == "Skill"@ || name == "agent"@ || name == "tool_search_tool"@
}

/// The groups of the tool summary.
#[derive(Clone, Copy, PartialEq, Eq, Structural)]
pub enum ToolGroup {
    /// Builtin tools plus `Skill`, `agent` and `tool_search_tool`.
    Builtin,
    /// The `agent` tool.
    Agent,
    /// Extension tools, `mcp__` tools and other bundled tools.
    External,
}

/// Membership of a tool in a group.
pub open spec fn in_group(g: ToolGroup, t: ToolDefinition) -> bool {
    match g {
        ToolGroup::Builtin => t.origin == ToolOrigin::Builtin || is_core_bundled_name(t.name@),
        ToolGroup::Agent => t.name@ == "agent"@,
        ToolGroup::External => t.origin == ToolOrigin::Extension || starts_with(t.name@, "mcp__"@)
            || (t.origin == ToolOrigin::Bundled && !is_core_bundled_name(t.name@)),
    }
}

/// The tools of group `g`, in input order.
pub open spec fn group_tools(s: Seq<ToolDefinition>, g: ToolGroup) -> Seq<ToolDefinition>
    decreases s.len(),
{
    if s.len() == 0 {
        seq![]
    } else if in_group(g, s.last()) {
        group_tools(s.drop_last(), g).push(s.last())
    } else {
        group_tools(s.drop_last(), g)
    }
}

/// "- `name`: description" with the description on one line.
pub open spec fn tool_line(t: ToolDefinition) -> Seq<char> {
    "- `"@ + t.name@ + "`: "@ + collapse_ws(t.description@)
}

/// One summary line per tool.
pub open spec fn tool_lines(s: Seq<ToolDefinition>) -> Seq<Seq<char>> {
    s.map_values(|t: ToolDefinition| tool_line(t))
}

/// Some tool is named `name`.
pub open spec fn has_tool(tools: Seq<ToolDefinition>, name: Seq<char>) -> bool {
    exists|i: int| 0 <= i < tools.len() && #[trigger] tools[i].name@ == name
}

/// `tool_search_tool` is offered and some external tool is visible.
pub open spec fn search_guidance(tools: Seq<ToolDefinition>) -> bool {
    has_tool(tools, "tool_search_tool"@) && group_tools(tools, ToolGroup::External).len() > 0
}

/// Header lines of the tool summary.
pub open spec fn summary_header() -> Seq<Seq<char>> {
    seq![SUMMARY_NARROWEST@, SUMMARY_PATHS@, SUMMARY_PERSISTED@, Seq::<char>::empty()]
}

/// The builtin block: a title and the builtin group sorted by name.
pub open spec fn builtin_block(tools: Seq<ToolDefinition>) -> Seq<Seq<char>> {
    let b = sort_by_name(group_tools(tools, ToolGroup::Builtin));
    if b.len() == 0 { seq![] } else { seq!["Builtin Tools"@] + tool_lines(b) }
}

/// The agent block, when an `agent` tool is offered.
pub open spec fn agent_block(tools: Seq<ToolDefinition>) -> Seq<Seq<char>> {
    let a = group_tools(tools, ToolGroup::Agent);
    if a.len() == 0 {
        seq![]
    } else {
        seq![Seq::<char>::empty(), "Agent Collaboration Tools"@, AGENT_TOOLS_HINT@] + tool_lines(a)
    }
}

/// The external block, when external tools are offered.
pub open spec fn external_block(tools: Seq<ToolDefinition>) -> Seq<Seq<char>> {
    let e = group_tools(tools, ToolGroup::External);
    if e.len() == 0 {
        seq![]
    } else {
        seq![Seq::<char>::empty(), "External MCP / Plugin Tools"@] + tool_lines(e)
    }
}

/// The `tool_search_tool` guidance block.
pub open spec fn search_block(tools: Seq<ToolDefinition>) -> Seq<Seq<char>> {
    if search_guidance(tools) {
        seq![Seq::<char>::empty(), "When To Use `tool_search_tool`"@, SEARCH_HINT_BUILTIN@, SEARCH_HINT_WHEN@, SEARCH_HINT_AFTER@]
    } else {
        seq![]
    }
}

/// The lines of the tool summary before trimming.
pub open spec fn summary_lines(tools: Seq<ToolDefinition>) -> Seq<Seq<char>> {
    summary_header() + builtin_block(tools) + agent_block(tools) + external_block(tools) + search_block(tools)
}

/// The `[Tool Summary]` body; none when there are no tools.
pub open spec fn tool_summary(tools: Seq<ToolDefinition>) -> Option<Seq<char>> {
    if tools.len() == 0 {
        None
    } else {
        Some(trim(join(summary_lines(tools), "\n"@)))
    }
}

/// The `[Example Workflow]` body; only when search guidance applies.
pub open spec fn example_workflow(tools: Seq<ToolDefinition>) -> Option<Seq<char>> {
    if search_guidance(tools) {
        Some(EXAMPLE_WORKFLOW@)
    } else {
        None
    }
}

fn is_core_bundled(name: &str) -> (r: bool)
    ensures
        r == is_core_bundled_name(name@),
{
    str_eq(name, "Skill") || str_eq(name, "agent") || str_eq(name, "tool_search_tool")
}

/// Membership of `t` in `g`.
fn tool_in_group(g: ToolGroup, t: &ToolDefinition) -> (r: bool)
    ensures
        r == in_group(g, *t),
{
    match g {
        ToolGroup::Builtin => t.origin == ToolOrigin::Builtin || is_core_bundled(t.name.as_str()),
        ToolGroup::Agent => str_eq(t.name.as_str(), "agent"),
        ToolGroup::External => t.origin == ToolOrigin::Extension || str_starts_with(
            t.name.as_str(),
            "mcp__",
        ) || (t.origin == ToolOrigin::Bundled && !is_core_bundled(t.name.as_str())),
    }
}

/// Indexes of the tools of group `g`, in order.
fn group_indexes(tools: &Vec<ToolDefinition>, g: ToolGroup) -> (r: Vec<usize>)
    ensures
        pick(tools@, r@) == group_tools(tools@, g),
        forall|j: int| 0 <= j < r@.len() ==> #[trigger] r@[j] < tools@.len(),
{
    let mut r: Vec<usize> = Vec::new();
    let mut i: usize = 0;
    proof {
        assert(pick(tools@, r@) =~= group_tools(tools@.take(0), g));
    }
    while i < tools.len()
        invariant
            0 <= i <= tools.len(),
            pick(tools@, r@) == group_tools(tools@.take(i as int), g),
            forall|j: int| 0 <= j < r@.len() ==> #[trigger] r@[j] < tools@.len(),
        decreases tools.len() - i,
    {
        proof {
            assert(tools@.take(i + 1).drop_last() =~= tools@.take(i as int));
            assert(tools@.take(i + 1).last() == tools@[i as int]);
        }
        if tool_in_group(g, &tools[i]) {
            let ghost before = r@;
            r.push(i);
            proof {
                assert(pick(tools@, r@) =~= pick(tools@, before).push(tools@[i as int]));
            }
        }
        i = i + 1;
    }
    proof {
        assert(tools@.take(i as int) =~= tools@);
    }
    r
}

/// Appends one summary line per picked tool.
fn push_tool_lines(lines: &mut Vec<String>, tools: &Vec<ToolDefinition>, idx: &Vec<usize>)
    requires
        forall|j: int| 0 <= j < idx@.len() ==> #[trigger] idx@[j] < tools@.len(),
    ensures
        views(final(lines)@) == views(old(lines)@) + tool_lines(pick(tools@, idx@)),
{
    let ghost start = views(lines@);
    let mut j: usize = 0;
    while j < idx.len()
        invariant
            0 <= j <= idx.len(),
            forall|q: int| 0 <= q < idx@.len() ==> #[trigger] idx@[q] < tools@.len(),
            views(lines@) == start + tool_lines(pick(tools@, idx@).take(j as int)),
        decreases idx.len() - j,
    {
        let t = &tools[idx[j]];
        let mut line = to_string("- `");
        push_str(&mut line, t.name.as_str());
        push_str(&mut line, "`: ");
        let d = one_line(t.description.as_str());
        push_str(&mut line, d.as_str());
        let ghost before = views(lines@);
        lines.push(line);
        proof {
            assert(views(lines@) =~= before.push(line@));
            assert(tool_lines(pick(tools@, idx@).take(j + 1)) =~= tool_lines(
                pick(tools@, idx@).take(j as int),
            ).push(tool_line(tools@[idx@[j as int] as int])));
        }
        j = j + 1;
    }
    proof {
        assert(pick(tools@, idx@).take(j as int) =~= pick(tools@, idx@));
    }
}

/// Whether some tool is named `name`.
fn has_tool_exec(tools: &Vec<ToolDefinition>, name: &str) -> (r: bool)
    ensures
        r == has_tool(tools@, name@),
{
    let mut i: usize = 0;
    while i < tools.len()
        invariant
            0 <= i <= tools.len(),
            forall|j: int| 0 <= j < i ==> tools@[j].name@ != name@,
        decreases tools.len() - i,
    {
        if str_eq(tools[i].name.as_str(), name) {
            proof {
                assert(tools@[i as int].name@ == name@);
            }
            return true;
        }
        i = i + 1;
    }
    false
}

/// Appends the literal `text` as a line.
fn push_line(lines: &mut Vec<String>, text: &str)
    ensures
        views(final(lines)@) == views(old(lines)@).push(text@),
{
    let ghost before = views(lines@);
    lines.push(to_string(text));
    proof {
        assert(views(lines@) =~= before.push(text@));
    }
}

/// Whether search guidance applies.
fn search_guidance_exec(tools: &Vec<ToolDefinition>) -> (r: bool)
    ensures
        r == search_guidance(tools@),
{
    let external = group_indexes(tools, ToolGroup::External);
    has_tool_exec(tools, "tool_search_tool") && external.len() > 0
}

fn push_empty_line(lines: &mut Vec<String>)
    ensures
        views(final(lines)@) == views(old(lines)@).push(Seq::<char>::empty()),
{
    let ghost b = views(lines@);
    lines.push(String::new());
    proof {
        assert(views(lines@) =~= b.push(Seq::<char>::empty()));
    }
}

fn push_builtin_block(lines: &mut Vec<String>, tools: &Vec<ToolDefinition>)
    ensures
        views(final(lines)@) == views(old(lines)@) + builtin_block(tools@),
{
    let ghost p0 = views(lines@);
    let builtin_idx = group_indexes(tools, ToolGroup::Builtin);
    let builtin = sort_indexes_by_name(tools, &builtin_idx);
    if builtin.len() > 0 {
        push_line(lines, "Builtin Tools");
        push_tool_lines(lines, tools, &builtin);
    }
    proof {
        let b = sort_by_name(group_tools(tools@, ToolGroup::Builtin));
        assert(views(lines@) =~= p0 + builtin_block(tools@));
    }
}

fn push_agent_block(lines: &mut Vec<String>, tools: &Vec<ToolDefinition>)
    ensures
        views(final(lines)@) == views(old(lines)@) + agent_block(tools@),
{
    let ghost p0 = views(lines@);
    let agents = group_indexes(tools, ToolGroup::Agent);
    if agents.len() > 0 {
        push_empty_line(lines);
        push_line(lines, "Agent Collaboration Tools");
        push_line(lines, AGENT_TOOLS_HINT);
        push_tool_lines(lines, tools, &agents);
    }
    proof {
        assert(views(lines@) =~= p0 + agent_block(tools@));
    }
}

fn push_external_block(lines: &mut Vec<String>, tools: &Vec<ToolDefinition>)
    ensures
        views(final(lines)@) == views(old(lines)@) + external_block(tools@),
{
    let ghost p0 = views(lines@);
    let external = group_indexes(tools, ToolGroup::External);
    if external.len() > 0 {
        push_empty_line(lines);
        push_line(lines, "External MCP / Plugin Tools");
        push_tool_lines(lines, tools, &external);
    }
    proof {
        assert(views(lines@) =~= p0 + external_block(tools@));
    }
}

fn push_search_block(lines: &mut Vec<String>, tools: &Vec<ToolDefinition>)
    ensures
        views(final(lines)@) == views(old(lines)@) + search_block(tools@),
{
    let ghost p0 = views(lines@);
    if search_guidance_exec(tools) {
        push_empty_line(lines);
        push_line(lines, "When To Use `tool_search_tool`");
        push_line(lines, SEARCH_HINT_BUILTIN);
        push_line(lines, SEARCH_HINT_WHEN);
        push_line(lines, SEARCH_HINT_AFTER);
    }
    proof {
        assert(views(lines@) =~= p0 + search_block(tools@));
    }
}

/// The `[Tool Summary]` body.
fn tool_summary_section(tools: &Vec<ToolDefinition>) -> (r: Option<String>)
    ensures
        match tool_summary(tools@) {
            None => r is None,
            Some(s) => r matches Some(x) && x@ == s,
        },
{
    if tools.len() == 0 {
        return None;
    }
    let mut lines: Vec<String> = Vec::new();
    push_line(&mut lines, SUMMARY_NARROWEST);
    push_line(&mut lines, SUMMARY_PATHS);
    push_line(&mut lines, SUMMARY_PERSISTED);
    push_empty_line(&mut lines);
    proof {
        assert(views(lines@) =~= summary_header());
    }
    push_builtin_block(&mut lines, tools);
    push_agent_block(&mut lines, tools);
    push_external_block(&mut lines, tools);
    push_search_block(&mut lines, tools);
    let joined = join_strings(&lines, "\n");
    Some(trim_string(joined.as_str()))
}

/// The `[Example Workflow]` body.
fn example_workflow_section(tools: &Vec<ToolDefinition>) -> (r: Option<String>)
    ensures
        match example_workflow(tools@) {
            None => r is None,
            Some(s) => r matches Some(x) && x@ == s,
        },
{
    if !search_guidance_exec(tools) {
        return None;
    }
    Some(to_string(EXAMPLE_WORKFLOW))
}

// ─── Whole prompt ───────────────────────────────────────────────────────

/// Trimmed, non-empty contents of the blocks of section `kind`, in order.
pub open spec fn extension_parts(blocks: Seq<ExtensionPromptBlock>, kind: ExtensionSection) -> Seq<Seq<char>>
    decreases blocks.len(),
{
    if blocks.len() == 0 {
        seq![]
    } else if blocks.last().section == kind && trim(blocks.last().content@).len() != 0 {
        extension_parts(blocks.drop_last(), kind).push(trim(blocks.last().content@))
    } else {
        extension_parts(blocks.drop_last(), kind)
    }
}

/// The section holding the extension blocks of `kind`, when their joined
/// text is not empty.
pub open spec fn extension_section(title: Seq<char>, blocks: Seq<ExtensionPromptBlock>, kind: ExtensionSection) -> Seq<Seq<char>> {
    let body = join(extension_parts(blocks, kind), "\n\n"@);
    if body.len() == 0 {
        seq![]
    } else {
        seq![section(title, body)]
    }
}

/// A section for an optional body.
pub open spec fn optional_section(title: Seq<char>, body: Option<Seq<char>>) -> Seq<Seq<char>> {
    match body {
        None => seq![],
        Some(b) => seq![section(title, b)],
    }
}

/// The view of an optional string.
pub open spec fn opt_view(o: Option<String>) -> Option<Seq<char>> {
    match o {
        None => None,
        Some(s) => Some(s@),
    }
}

/// The optional text trimmed.
pub open spec fn opt_trimmed(o: Option<String>) -> Option<Seq<char>> {
    match o {
        None => None,
        Some(s) => Some(trim(s@)),
    }
}

/// The `[Environment]` body.
pub open spec fn environment_body(input: SystemPromptInput) -> Seq<char> {
    "Working directory: "@ + input.working_dir@ + "\nOS: "@ + input.os@ + "\nShell: "@ + input.shell@
        + "\nDate: "@ + input.date@
}

/// The identity text: the given one, or [`DEFAULT_IDENTITY`].
pub open spec fn identity_text(input: SystemPromptInput) -> Seq<char> {
    match input.identity {
        Some(i) => i@,
        None => DEFAULT_IDENTITY@,
    }
}

/// The sections that never change with the environment.
pub open spec fn leading_sections(input: SystemPromptInput) -> Seq<Seq<char>> {
    seq![
        section("Identity"@, trim(identity_text(input))),
        section("Environment"@, environment_body(input)),
        section("Response Style"@, RESPONSE_STYLE@),
    ]
}

/// The sections after the response style, in their fixed order.
pub open spec fn trailing_sections(input: SystemPromptInput) -> Seq<Seq<char>> {
    optional_section("User Rules"@, opt_trimmed(input.user_rules))
        + optional_section("Project Rules"@, opt_trimmed(input.project_rules))
        + optional_section("Tool Summary"@, tool_summary(input.tools@))
        + optional_section("Example Workflow"@, example_workflow(input.tools@))
        + extension_section("SystemPromptInstruction"@, input.extension_blocks@, ExtensionSection::PlatformInstructions)
        + extension_section("Skills"@, input.extension_blocks@, ExtensionSection::Skills)
        + extension_section("Agents"@, input.extension_blocks@, ExtensionSection::Agents)
        + optional_section("Additional Instructions"@, opt_trimmed(input.extra_instructions))
}

/// All sections of the system prompt.
pub open spec fn prompt_sections(input: SystemPromptInput) -> Seq<Seq<char>> {
    leading_sections(input) + trailing_sections(input)
}

/// The system prompt: its sections separated by blank lines.
pub open spec fn system_prompt(input: SystemPromptInput) -> Seq<char> {
    join(prompt_sections(input), "\n\n"@)
}

/// Appends a rendered section.
fn push_section(sections: &mut Vec<String>, title: &str, body: &str)
    ensures
        views(final(sections)@) == views(old(sections)@).push(section(title@, body@)),
{
    let ghost b = views(sections@);
    let r = render_section(title, body);
    sections.push(r);
    proof {
        assert(views(sections@) =~= b.push(section(title@, body@)));
    }
}

/// Appends the section for an optional text, trimmed.
fn push_optional_trimmed(sections: &mut Vec<String>, title: &str, body: &Option<String>)
    ensures
        views(final(sections)@) == views(old(sections)@) + optional_section(title@, opt_trimmed(*body)),
{
    let ghost b = views(sections@);
    match body {
        Some(text) => {
            let t = trim_string(text.as_str());
            push_section(sections, title, t.as_str());
        },
        None => {},
    }
    proof {
        assert(views(sections@) =~= b + optional_section(title@, opt_trimmed(*body)));
    }
}

/// Appends the section for an optional body.
fn push_optional(sections: &mut Vec<String>, title: &str, body: &Option<String>)
    ensures
        views(final(sections)@) == views(old(sections)@) + optional_section(title@, opt_view(*body)),
{
    let ghost b = views(sections@);
    match body {
        Some(text) => {
            push_section(sections, title, text.as_str());
        },
        None => {},
    }
    proof {
        assert(views(sections@) =~= b + optional_section(title@, opt_view(*body)));
    }
}

/// Groups the blocks of `kind` into one section when there is any text.
fn push_extension_section(
    sections: &mut Vec<String>,
    title: &str,
    blocks: &Vec<ExtensionPromptBlock>,
    kind: ExtensionSection,
)
    ensures
        views(final(sections)@) == views(old(sections)@) + extension_section(title@, blocks@, kind),
{
    let mut parts: Vec<String> = Vec::new();
    let mut i: usize = 0;
    proof {
        assert(views(parts@) =~= extension_parts(blocks@.take(0), kind));
    }
    while i < blocks.len()
        invariant
            0 <= i <= blocks.len(),
            views(parts@) == extension_parts(blocks@.take(i as int), kind),
        decreases blocks.len() - i,
    {
        proof {
            assert(blocks@.take(i + 1).drop_last() =~= blocks@.take(i as int));
            assert(blocks@.take(i + 1).last() == blocks@[i as int]);
        }
        let b = &blocks[i];
        if b.section == kind {
            let t = trim_string(b.content.as_str());
            if !t.as_str().is_empty() {
                let ghost before = views(parts@);
                parts.push(t);
                proof {
                    assert(views(parts@) =~= before.push(trim(blocks@[i as int].content@)));
                }
            }
        }
        i = i + 1;
    }
    proof {
        assert(blocks@.take(i as int) =~= blocks@);
    }
    let body = join_strings(&parts, "\n\n");
    let ghost b = views(sections@);
    if !body.as_str().is_empty() {
        push_section(sections, title, body.as_str());
    }
    proof {
        assert(views(sections@) =~= b + extension_section(title@, blocks@, kind));
    }
}

/// The `[Environment]` body.
fn environment_text(input: &SystemPromptInput) -> (r: String)
    ensures
        r@ == environment_body(*input),
{
    let mut r = to_string("Working directory: ");
    push_str(&mut r, input.working_dir.as_str());
    push_str(&mut r, "\nOS: ");
    push_str(&mut r, input.os.as_str());
    push_str(&mut r, "\nShell: ");
    push_str(&mut r, input.shell.as_str());
    push_str(&mut r, "\nDate: ");
    push_str(&mut r, input.date.as_str());
    r
}

fn push_leading_sections(sections: &mut Vec<String>, input: &SystemPromptInput)
    ensures
        views(final(sections)@) == views(old(sections)@) + leading_sections(*input),
{
    let ghost b = views(sections@);
    let identity = match &input.identity {
        Some(i) => trim_string(i.as_str()),
        None => trim_string(DEFAULT_IDENTITY),
    };
    push_section(sections, "Identity", identity.as_str());
    let env = environment_text(input);
    push_section(sections, "Environment", env.as_str());
    push_section(sections, "Response Style", RESPONSE_STYLE);
    proof {
        assert(views(sections@) =~= b + leading_sections(*input));
    }
}

#[verifier::spinoff_prover]
#[verifier::rlimit(40)]
fn push_trailing_sections(sections: &mut Vec<String>, input: &SystemPromptInput)
    ensures
        views(final(sections)@) == views(old(sections)@) + trailing_sections(*input),
{
    let ghost b = views(sections@);
    push_optional_trimmed(sections, "User Rules", &input.user_rules);
    push_optional_trimmed(sections, "Project Rules", &input.project_rules);
    let summary = tool_summary_section(&input.tools);
    push_optional(sections, "Tool Summary", &summary);
    let workflow = example_workflow_section(&input.tools);
    push_optional(sections, "Example Workflow", &workflow);
    proof {
        assert(opt_view(summary) == tool_summary(input.tools@));
        assert(opt_view(workflow) == example_workflow(input.tools@));
    }
    push_extension_section(
        sections,
        "SystemPromptInstruction",
        &input.extension_blocks,
        ExtensionSection::PlatformInstructions,
    );
    push_extension_section(sections, "Skills", &input.extension_blocks, ExtensionSection::Skills);
    push_extension_section(sections, "Agents", &input.extension_blocks, ExtensionSection::Agents);
    push_optional_trimmed(sections, "Additional Instructions", &input.extra_instructions);
    proof {
        assert(views(sections@) =~= b + trailing_sections(*input));
    }
}

/// Builds the complete system prompt from structured input.
///
/// Sections come in a fixed order: `[Identity]` (the given identity or the
/// default one), `[Environment]`, `[Response Style]`, then, when present,
/// `[User Rules]`, `[Project Rules]`, `[Tool Summary]`, `[Example Workflow]`,
/// the extension sections `[SystemPromptInstruction]`, `[Skills]`,
/// `[Agents]`, and `[Additional Instructions]`.
pub fn build_system_prompt(input: &SystemPromptInput) -> (r: String)
    ensures
        r@ == system_prompt(*input),
{
    let mut sections: Vec<String> = Vec::new();
    push_leading_sections(&mut sections, input);
    push_trailing_sections(&mut sections, input);
    proof {
        assert(views(sections@) =~= prompt_sections(*input));
    }
    join_strings(&sections, "\n\n")
}

// ─── Laws ───────────────────────────────────────────────────────────────

/// The prompt always opens with the identity section followed by the
/// environment header, so changing only the environment (working
/// directory, OS, shell, date) leaves everything before `[Environment]`
/// unchanged: two inputs with the same identity share that prefix.
pub proof fn law_identity_prefix_stable(a: SystemPromptInput, b: SystemPromptInput)
    requires
        identity_text(a) == identity_text(b),
    ensures
        starts_with(system_prompt(a), section("Identity"@, trim(identity_text(a))) + "\n\n"@ + "["@ + "Environment"@ + "]\n"@),
        starts_with(system_prompt(b), section("Identity"@, trim(identity_text(a))) + "\n\n"@ + "["@ + "Environment"@ + "]\n"@),
{
    lemma_prompt_prefix(a);
    lemma_prompt_prefix(b);
}

proof fn lemma_prompt_prefix(x: SystemPromptInput)
    ensures
        starts_with(system_prompt(x), section("Identity"@, trim(identity_text(x))) + "\n\n"@ + "["@ + "Environment"@ + "]\n"@),
{
    let secs = prompt_sections(x);
    let sep = "\n\n"@;
    let id = section("Identity"@, trim(identity_text(x)));
    let env = section("Environment"@, environment_body(x));
    assert(secs[0] == id);
    assert(secs[1] == env);
    lemma_join_cons(secs, sep);
    let rest = secs.drop_first();
    assert(rest[0] == env);
    lemma_join_starts_with_first(rest, sep);
    let jr = join(rest, sep);
    let head = "["@ + "Environment"@ + "]\n"@;
    assert(env == head + indent_body_spec(trim(environment_body(x))));
    assert(jr.take(env.len() as int) == env);
    assert(jr.take(head.len() as int) =~= head) by {
        assert forall|k: int| 0 <= k < head.len() implies jr.take(head.len() as int)[k] == head[k] by {
            assert(jr[k] == jr.take(env.len() as int)[k]);
            assert(env[k] == head[k]);
        }
    }
    let p = id + sep + head;
    assert(p =~= id + sep + "["@ + "Environment"@ + "]\n"@);
    let whole = id + sep + jr;
    assert(system_prompt(x) == whole);
    assert(whole.take(p.len() as int) =~= p) by {
        assert forall|k: int| 0 <= k < p.len() implies whole.take(p.len() as int)[k] == p[k] by {
            if k >= id.len() + sep.len() {
                assert(whole[k] == jr[k - id.len() - sep.len()]);
                assert(jr[k - id.len() - sep.len()] == jr.take(head.len() as int)[k - id.len() - sep.len()]);
            }
        }
    }
}

/// A tool the model has to discover through `tool_search_tool`: an
/// extension tool, an MCP tool (named `mcp__…`), or a bundled tool other
/// than `Skill`, `agent` and `tool_search_tool`.
pub open spec fn discoverable_tool(t: ToolDefinition) -> bool {
    ||| t.origin == ToolOrigin::Extension
    ||| (t.name@.len() >= 5 && t.name@.take(5) == seq!['m', 'c', 'p', '_', '_'])
    ||| (t.origin == ToolOrigin::Bundled && t.name@ != "Skill"@ && t.name@ != "agent"@ && t.name@
        != "tool_search_tool"@)
}

proof fn lemma_group_nonempty(s: Seq<ToolDefinition>, g: ToolGroup)
    ensures
        group_tools(s, g).len() > 0 <==> exists|i: int| 0 <= i < s.len() && in_group(g, #[trigger] s[i]),
    decreases s.len(),
{
    if s.len() > 0 {
        lemma_group_nonempty(s.drop_last(), g);
        if exists|i: int| 0 <= i < s.len() && in_group(g, #[trigger] s[i]) {
            let i = choose|i: int| 0 <= i < s.len() && in_group(g, #[trigger] s[i]);
            if i < s.len() - 1 {
                assert(s.drop_last()[i] == s[i]);
            }
        }
        if exists|i: int| 0 <= i < s.drop_last().len() && in_group(g, #[trigger] s.drop_last()[i]) {
            let i = choose|i: int| 0 <= i < s.drop_last().len() && in_group(g, #[trigger] s.drop_last()[i]);
            assert(s[i] == s.drop_last()[i]);
        }
    }
}

/// The `tool_search_tool` guidance and the example workflow belong to the
/// prompt exactly when `tool_search_tool` is offered and some offered tool
/// has to be discovered with it; with only builtin tools (every MCP tool
/// still deferred) neither appears.
pub proof fn law_search_guidance_needs_discoverable_tool(tools: Seq<ToolDefinition>)
    ensures
        example_workflow(tools) is Some <==> ((exists|i: int| 0 <= i < tools.len() && #[trigger] tools[i].name@
            == "tool_search_tool"@) && (exists|j: int| 0 <= j < tools.len() && discoverable_tool(#[trigger] tools[j]))),
        search_block(tools).len() > 0 <==> example_workflow(tools) is Some,
{
    lemma_group_nonempty(tools, ToolGroup::External);
    reveal_strlit("mcp__");
    assert("mcp__"@ == seq!['m', 'c', 'p', '_', '_']);
    assert forall|t: ToolDefinition| in_group(ToolGroup::External, t) <==> discoverable_tool(t) by {
    }
    if exists|j: int| 0 <= j < tools.len() && discoverable_tool(#[trigger] tools[j]) {
        let j = choose|j: int| 0 <= j < tools.len() && discoverable_tool(#[trigger] tools[j]);
        assert(in_group(ToolGroup::External, tools[j]));
    }
    if exists|j: int| 0 <= j < tools.len() && in_group(ToolGroup::External, #[trigger] tools[j]) {
        let j = choose|j: int| 0 <= j < tools.len() && in_group(ToolGroup::External, #[trigger] tools[j]);
        assert(discoverable_tool(tools[j]));
    }
}

} // verus!
