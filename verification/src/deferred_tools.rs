//! Deferred tool visibility for provider requests.
//!
//! A deferred tool belongs to a discovery group: the provider sees it only
//! after a discovery tool (a gate) reported it by name.  Until then the
//! model gets a reminder listing the hidden tools by name.

use vstd::prelude::*;
use crate::json_value::{entries_lookup, json_get, json_get_member, JsonValue};
use crate::llm::{LlmMessage, LlmRole};
use crate::text::is_blank_str;
use crate::text::is_blank;
use crate::prompt::ToolDefinition;
use crate::text::{push_str, str_eq, to_string, views};
use crate::tool_result::ToolResult;
use crate::json_value::entries_get;

verus! {

/// The metadata key under which a discovery tool reports its matches.
pub const DEFERRED_TOOLS_METADATA_KEY: &'static str = "deferredTools";

/// Prompt metadata of a tool that governs its visibility.
pub struct ToolPromptMetadata {
    /// Set for a deferred tool: the discovery group it belongs to.
    pub deferred_discovery_group: Option<String>,
    /// Set for a discovery tool: the group it reveals.
    pub deferred_discovery_gate: Option<String>,
}

/// A tool definition together with its prompt metadata.
pub struct ToolSnapshot {
    pub definition: ToolDefinition,
    pub prompt_metadata: Option<ToolPromptMetadata>,
}

impl Clone for ToolPromptMetadata {
    fn clone(&self) -> (r: Self)
        ensures
            r == *self,
    {
        ToolPromptMetadata {
            deferred_discovery_group: match &self.deferred_discovery_group {
                Some(g) => Some(g.clone()),
                None => None,
            },
            deferred_discovery_gate: match &self.deferred_discovery_gate {
                Some(g) => Some(g.clone()),
                None => None,
            },
        }
    }
}

impl Clone for ToolSnapshot {
    fn clone(&self) -> (r: Self)
        ensures
            r == *self,
    {
        ToolSnapshot {
            definition: self.definition.clone(),
            prompt_metadata: match &self.prompt_metadata {
                Some(m) => Some(m.clone()),
                None => None,
            },
        }
    }
}

/// The tool is deferred: it belongs to a discovery group.
pub open spec fn is_deferred(t: ToolSnapshot) -> bool {
    t.prompt_metadata matches Some(m) && m.deferred_discovery_group is Some
}

/// The tool is a discovery gate.
pub open spec fn is_gate(t: ToolSnapshot) -> bool {
    t.prompt_metadata matches Some(m) && m.deferred_discovery_gate is Some
}

/// The provider sees the tool: it is not deferred, it was activated, or it
/// is a gate.
pub open spec fn provider_visible(t: ToolSnapshot, active: Set<Seq<char>>) -> bool {
    !is_deferred(t) || active.contains(t.definition.name@) || is_gate(t)
}

/// Indexes of the visible tools, in order.
pub open spec fn visible_indexes(tools: Seq<ToolSnapshot>, active: Set<Seq<char>>) -> Seq<usize>
    decreases tools.len(),
{
    if tools.len() == 0 {
        seq![]
    } else if provider_visible(tools.last(), active) {
        visible_indexes(tools.drop_last(), active).push((tools.len() - 1) as usize)
    } else {
        visible_indexes(tools.drop_last(), active)
    }
}

/// Names of the deferred tools that are still hidden, in order.
pub open spec fn hidden_deferred_names(tools: Seq<ToolSnapshot>, active: Set<Seq<char>>) -> Seq<Seq<char>>
    decreases tools.len(),
{
    if tools.len() == 0 {
        seq![]
    } else if is_deferred(tools.last()) && !active.contains(tools.last().definition.name@) {
        hidden_deferred_names(tools.drop_last(), active).push(tools.last().definition.name@)
    } else {
        hidden_deferred_names(tools.drop_last(), active)
    }
}

/// Names of the deferred tools, in order.
pub open spec fn deferred_name_seq(tools: Seq<ToolSnapshot>) -> Seq<Seq<char>>
    decreases tools.len(),
{
    if tools.len() == 0 {
        seq![]
    } else if is_deferred(tools.last()) {
        deferred_name_seq(tools.drop_last()).push(tools.last().definition.name@)
    } else {
        deferred_name_seq(tools.drop_last())
    }
}

/// Names of all deferred tools.
pub open spec fn deferred_names(tools: Seq<ToolSnapshot>) -> Set<Seq<char>> {
    deferred_name_seq(tools).to_set()
}

/// The active set after activating the `discovered` names: those that name
/// a deferred tool are added.
pub open spec fn activated(active: Set<Seq<char>>, tools: Seq<ToolSnapshot>, discovered: Seq<Seq<char>>) -> Set<Seq<char>> {
    active.union(discovered.to_set().intersect(deferred_names(tools)))
}

/// The set of activated deferred tool names.
pub struct DeferredToolSet {
    names: Vec<String>,
}

impl View for DeferredToolSet {
    type V = Set<Seq<char>>;

    closed spec fn view(&self) -> Set<Seq<char>> {
        self.name_seq().to_set()
    }
}

impl DeferredToolSet {
    spec fn name_seq(&self) -> Seq<Seq<char>> {
        views(self.names@)
    }

    /// No tool activated.
    pub fn new() -> (r: Self)
        ensures
            r@ == Set::<Seq<char>>::empty(),
    {
        let r = DeferredToolSet { names: Vec::new() };
        proof {
            assert(r@ =~= Set::<Seq<char>>::empty());
        }
        r
    }

    /// Whether `name` was activated.
    pub fn contains(&self, name: &str) -> (r: bool)
        ensures
            r == self@.contains(name@),
    {
        let mut i: usize = 0;
        while i < self.names.len()
            invariant
                0 <= i <= self.names.len(),
                forall|j: int| 0 <= j < i ==> self.names@[j]@ != name@,
            decreases self.names.len() - i,
        {
            if str_eq(self.names[i].as_str(), name) {
                proof {
                    assert(self.name_seq()[i as int] == name@);
                }
                return true;
            }
            i = i + 1;
        }
        proof {
            if self@.contains(name@) {
                let j = choose|j: int| 0 <= j < self.name_seq().len() && #[trigger] self.name_seq()[j] == name@;
                assert(self.names@[j]@ == name@);
            }
        }
        false
    }

    /// Adds `name`; true when it was not there before.
    pub fn insert(&mut self, name: String) -> (r: bool)
        ensures
            r == !old(self)@.contains(name@),
            final(self)@ == old(self)@.insert(name@),
    {
        if self.contains(name.as_str()) {
            proof {
                assert(self@.insert(name@) =~= self@);
            }
            return false;
        }
        let ghost before = self.names@;
        self.names.push(name);
        proof {
            assert(self.name_seq() =~= views(before).push(name@));
            views(before).lemma_push_to_set_commute(name@);
        }
        true
    }
}

fn is_deferred_tool(tool: &ToolSnapshot) -> (r: bool)
    ensures
        r == is_deferred(*tool),
{
    match &tool.prompt_metadata {
        Some(m) => m.deferred_discovery_group.is_some(),
        None => false,
    }
}

fn is_deferred_gate(tool: &ToolSnapshot) -> (r: bool)
    ensures
        r == is_gate(*tool),
{
    match &tool.prompt_metadata {
        Some(m) => m.deferred_discovery_gate.is_some(),
        None => false,
    }
}

/// Indexes of the tools the provider may see: every tool that is not
/// deferred, the activated deferred tools, and the discovery gates.
pub fn provider_visible_tool_indexes(tools: &[ToolSnapshot], active_deferred_tools: &DeferredToolSet) -> (r: Vec<usize>)
    ensures
        r@ == visible_indexes(tools@, active_deferred_tools@),
{
    let mut r: Vec<usize> = Vec::new();
    let mut i: usize = 0;
    while i < tools.len()
        invariant
            0 <= i <= tools@.len(),
            r@ == visible_indexes(tools@.take(i as int), active_deferred_tools@),
        decreases tools@.len() - i,
    {
        proof {
            assert(tools@.take(i + 1).drop_last() =~= tools@.take(i as int));
            assert(tools@.take(i + 1).last() == tools@[i as int]);
        }
        let tool = &tools[i];
        if !is_deferred_tool(tool) || active_deferred_tools.contains(tool.definition.name.as_str()) || is_deferred_gate(tool) {
            r.push(i);
        }
        i = i + 1;
    }
    proof {
        assert(tools@.take(tools@.len() as int) =~= tools@);
    }
    r
}

/// The tools at `indexes`, in that order; indexes out of range are skipped.
pub open spec fn tools_at(tools: Seq<ToolSnapshot>, indexes: Seq<usize>) -> Seq<ToolSnapshot>
    decreases indexes.len(),
{
    if indexes.len() == 0 {
        seq![]
    } else if indexes.last() < tools.len() {
        tools_at(tools, indexes.drop_last()).push(tools[indexes.last() as int])
    } else {
        tools_at(tools, indexes.drop_last())
    }
}

/// Copies of the tools at `indexes`, in that order, skipping indexes out
/// of range.
pub fn clone_tools_by_index(tools: &[ToolSnapshot], indexes: &[usize]) -> (r: Vec<ToolSnapshot>)
    ensures
        r@ == tools_at(tools@, indexes@),
{
    let mut r: Vec<ToolSnapshot> = Vec::new();
    let mut i: usize = 0;
    while i < indexes.len()
        invariant
            0 <= i <= indexes@.len(),
            r@ == tools_at(tools@, indexes@.take(i as int)),
        decreases indexes@.len() - i,
    {
        proof {
            assert(indexes@.take(i + 1).drop_last() =~= indexes@.take(i as int));
            assert(indexes@.take(i + 1).last() == indexes@[i as int]);
        }
        let index = indexes[i];
        if index < tools.len() {
            r.push(tools[index].clone());
        }
        i = i + 1;
    }
    proof {
        assert(indexes@.take(indexes@.len() as int) =~= indexes@);
    }
    r
}

/// Opening line of the deferred tools reminder.
pub const DEFERRED_REMINDER_HEADER: &'static str =
    "<available-deferred-tools>\nDeferred tools are listed by name only. Use the matching discovery tool to fetch full schemas before calling one of these tools.\n";

/// Each name on a line of its own.
pub open spec fn name_lines(names: Seq<Seq<char>>) -> Seq<char>
    decreases names.len(),
{
    if names.len() == 0 {
        seq![]
    } else {
        name_lines(names.drop_last()) + names.last() + "\n"@
    }
}

/// The reminder text listing `names`.
pub open spec fn deferred_reminder(names: Seq<Seq<char>>) -> Seq<char> {
    DEFERRED_REMINDER_HEADER@ + name_lines(names) + "</available-deferred-tools>"@
}

/// Some tool is a discovery gate.
pub open spec fn has_gate(tools: Seq<ToolSnapshot>) -> bool {
    exists|i: int| 0 <= i < tools.len() && #[trigger] is_gate(tools[i])
}

/// When deferred tools are still hidden and a discovery gate exists,
/// appends a system message that lists the hidden tools by name; otherwise
/// leaves the messages as they are.
pub fn append_deferred_tools_reminder(messages: &mut Vec<LlmMessage>, tools: &[ToolSnapshot], active_deferred_tools: &DeferredToolSet)
    ensures
        ({
            let hidden = hidden_deferred_names(tools@, active_deferred_tools@);
            if hidden.len() == 0 || !has_gate(tools@) {
                final(messages)@ == old(messages)@
            } else {
                &&& final(messages)@.len() == old(messages)@.len() + 1
                &&& final(messages)@.drop_last() == old(messages)@
                &&& final(messages)@.last().is_text_message(LlmRole::System, deferred_reminder(hidden))
            }
        }),
{
    let ghost active = active_deferred_tools@;
    let mut names: Vec<String> = Vec::new();
    let mut any_gate = false;
    let mut i: usize = 0;
    while i < tools.len()
        invariant
            0 <= i <= tools@.len(),
            active == active_deferred_tools@,
            views(names@) == hidden_deferred_names(tools@.take(i as int), active),
            any_gate == (exists|j: int| 0 <= j < i && #[trigger] is_gate(tools@[j])),
        decreases tools@.len() - i,
    {
        proof {
            assert(tools@.take(i + 1).drop_last() =~= tools@.take(i as int));
            assert(tools@.take(i + 1).last() == tools@[i as int]);
        }
        let tool = &tools[i];
        if is_deferred_tool(tool) && !active_deferred_tools.contains(tool.definition.name.as_str()) {
            let ghost before = names@;
            names.push(tool.definition.name.clone());
            proof {
                assert(views(names@) =~= views(before).push(tools@[i as int].definition.name@));
            }
        }
        if is_deferred_gate(tool) {
            any_gate = true;
        }
        i = i + 1;
    }
    proof {
        assert(tools@.take(tools@.len() as int) =~= tools@);
    }
    if names.len() == 0 || !any_gate {
        return;
    }
    let mut text = to_string(DEFERRED_REMINDER_HEADER);
    let mut k: usize = 0;
    while k < names.len()
        invariant
            0 <= k <= names@.len(),
            text@ == DEFERRED_REMINDER_HEADER@ + name_lines(views(names@).take(k as int)),
        decreases names@.len() - k,
    {
        proof {
            let nv = views(names@);
            assert(nv.take(k + 1).drop_last() =~= nv.take(k as int));
            assert(nv.take(k + 1).last() == names@[k as int]@);
        }
        push_str(&mut text, names[k].as_str());
        push_str(&mut text, "\n");
        k = k + 1;
    }
    proof {
        let nv = views(names@);
        assert(nv.take(names@.len() as int) =~= nv);
    }
    push_str(&mut text, "</available-deferred-tools>");
    messages.push(LlmMessage::system(text));
}

/// The names of the deferred tools in `tools`, in order.
fn deferred_tool_names(tools: &[ToolSnapshot]) -> (r: Vec<String>)
    ensures
        views(r@) == deferred_name_seq(tools@),
{
    let mut r: Vec<String> = Vec::new();
    let mut i: usize = 0;
    proof {
        assert(views(r@) =~= deferred_name_seq(tools@.take(0)));
    }
    while i < tools.len()
        invariant
            0 <= i <= tools@.len(),
            views(r@) == deferred_name_seq(tools@.take(i as int)),
        decreases tools@.len() - i,
    {
        proof {
            assert(tools@.take(i + 1).drop_last() =~= tools@.take(i as int));
            assert(tools@.take(i + 1).last() == tools@[i as int]);
        }
        let tool = &tools[i];
        if is_deferred_tool(tool) {
            let ghost before = r@;
            r.push(tool.definition.name.clone());
            proof {
                assert(views(r@) =~= views(before).push(tools@[i as int].definition.name@));
            }
        }
        i = i + 1;
    }
    proof {
        assert(tools@.take(tools@.len() as int) =~= tools@);
    }
    r
}

fn contains_name(names: &Vec<String>, name: &str) -> (r: bool)
    ensures
        r == views(names@).contains(name@),
{
    let mut i: usize = 0;
    while i < names.len()
        invariant
            0 <= i <= names@.len(),
            forall|j: int| 0 <= j < i ==> names@[j]@ != name@,
        decreases names@.len() - i,
    {
        if str_eq(names[i].as_str(), name) {
            proof {
                assert(views(names@)[i as int] == name@);
            }
            return true;
        }
        i = i + 1;
    }
    proof {
        if views(names@).contains(name@) {
            let j = choose|j: int| 0 <= j < names@.len() && views(names@)[j] == name@;
            assert(names@[j]@ == name@);
        }
    }
    false
}

/// Activates the `discovered` names that belong to deferred tools; true
/// when the active set grew.
pub fn activate_deferred_tools(active_deferred_tools: &mut DeferredToolSet, tools: &[ToolSnapshot], discovered: Vec<String>) -> (changed: bool)
    ensures
        final(active_deferred_tools)@ == activated(old(active_deferred_tools)@, tools@, views(discovered@)),
        changed == (final(active_deferred_tools)@ != old(active_deferred_tools)@),
{
    let ghost a0 = active_deferred_tools@;
    let ghost dv = views(discovered@);
    let available = deferred_tool_names(tools);
    let mut changed = false;
    let mut rest = discovered;
    let n = rest.len();
    let mut i: usize = 0;
    proof {
        assert(rest@ =~= discovered@.skip(0));
        assert(activated(a0, tools@, dv.take(0)) =~= a0);
    }
    while i < n
        invariant
            n == dv.len(),
            dv == views(discovered@),
            0 <= i <= n,
            rest@ == discovered@.skip(i as int),
            a0 == old(active_deferred_tools)@,
            active_deferred_tools@ == activated(a0, tools@, dv.take(i as int)),
            changed == (active_deferred_tools@ != a0),
            a0.subset_of(active_deferred_tools@),
            views(available@) == deferred_name_seq(tools@),
        decreases n - i,
    {
        let name = rest.remove(0);
        proof {
            assert(name == discovered@[i as int]);
            assert(rest@ =~= discovered@.skip(i + 1));
            assert(dv.take(i + 1) =~= dv.take(i as int).push(name@));
        }
        let ghost before = active_deferred_tools@;
        if contains_name(&available, name.as_str()) {
            let added = active_deferred_tools.insert(name);
            changed = changed || added;
            proof {
                dv.take(i as int).lemma_push_to_set_commute(name@);
                assert(deferred_names(tools@).contains(name@));
                assert(activated(a0, tools@, dv.take(i + 1)) =~= before.insert(dv[i as int]));
                if !added {
                    assert(active_deferred_tools@ =~= before);
                } else {
                    assert(active_deferred_tools@.contains(dv[i as int]) && !a0.contains(dv[i as int]));
                }
            }
        } else {
            proof {
                dv.take(i as int).lemma_push_to_set_commute(name@);
                assert(!deferred_names(tools@).contains(name@));
                assert(activated(a0, tools@, dv.take(i + 1)) =~= before);
            }
        }
        i = i + 1;
    }
    proof {
        assert(dv.take(n as int) =~= dv);
    }
    changed
}

/// Strings among `items`, in order.
pub open spec fn string_items(items: Seq<JsonValue>) -> Seq<Seq<char>>
    decreases items.len(),
{
    if items.len() == 0 {
        seq![]
    } else {
        match items.last() {
            JsonValue::String(s) => string_items(items.drop_last()).push(s@),
            _ => string_items(items.drop_last()),
        }
    }
}

/// The tool names a discovery result reported under
/// `deferredTools.matches`; empty when that is not an array.
pub open spec fn discovered_names(metadata: Seq<(String, JsonValue)>) -> Seq<Seq<char>> {
    match entries_get(metadata, DEFERRED_TOOLS_METADATA_KEY@) {
        Some(v) => match json_get(v, "matches"@) {
            Some(JsonValue::Array(items)) => string_items(items@),
            _ => seq![],
        },
        None => seq![],
    }
}

/// The string entries of `deferredTools.matches` in a discovery tool's
/// result metadata.
pub fn discovered_deferred_tool_names(result: &ToolResult) -> (r: Vec<String>)
    ensures
        views(r@) == discovered_names(result.metadata@),
{
    let mut r: Vec<String> = Vec::new();
    let entry = entries_lookup(&result.metadata, DEFERRED_TOOLS_METADATA_KEY);
    let v = match entry {
        Some(v) => v,
        None => {
            proof {
                assert(views(r@) =~= Seq::<Seq<char>>::empty());
            }
            return r;
        },
    };
    let items = match json_get_member(v, "matches") {
        Some(JsonValue::Array(items)) => items,
        _ => {
            proof {
                assert(views(r@) =~= Seq::<Seq<char>>::empty());
            }
            return r;
        },
    };
    let mut i: usize = 0;
    proof {
        assert(views(r@) =~= string_items(items@.take(0)));
    }
    while i < items.len()
        invariant
            0 <= i <= items@.len(),
            views(r@) == string_items(items@.take(i as int)),
        decreases items@.len() - i,
    {
        proof {
            assert(items@.take(i + 1).drop_last() =~= items@.take(i as int));
            assert(items@.take(i + 1).last() == items@[i as int]);
        }
        match &items[i] {
            JsonValue::String(s) => {
                let ghost before = r@;
                r.push(s.clone());
                proof {
                    assert(views(r@) =~= views(before).push(s@));
                }
            },
            _ => {},
        }
        i = i + 1;
    }
    proof {
        assert(items@.take(items@.len() as int) =~= items@);
    }
    r
}

/// Whether a tool named `name` is among `tools`.
pub fn tool_is_visible(tools: &[ToolDefinition], name: &str) -> (r: bool)
    ensures
        r == exists|i: int| 0 <= i < tools@.len() && #[trigger] tools@[i].name@ == name@,
{
    let mut i: usize = 0;
    while i < tools.len()
        invariant
            0 <= i <= tools@.len(),
            forall|j: int| 0 <= j < i ==> tools@[j].name@ != name@,
        decreases tools@.len() - i,
    {
        if str_eq(tools[i].name.as_str(), name) {
            return true;
        }
        i = i + 1;
    }
    false
}

// ─── Laws ───────────────────────────────────────────────────────────────

/// Activation never hides a tool: every name active before stays active.
pub proof fn law_activation_only_grows(active: Set<Seq<char>>, tools: Seq<ToolSnapshot>, discovered: Seq<Seq<char>>)
    ensures
        active.subset_of(activated(active, tools, discovered)),
{
}

/// Activating the same discovery twice changes nothing the second time.
pub proof fn law_activation_idempotent(active: Set<Seq<char>>, tools: Seq<ToolSnapshot>, discovered: Seq<Seq<char>>)
    ensures
        activated(activated(active, tools, discovered), tools, discovered) == activated(active, tools, discovered),
{
    assert(activated(activated(active, tools, discovered), tools, discovered) =~= activated(active, tools, discovered));
}

/// An index is visible exactly when it is in range and its tool is
/// visible; the indexes come in increasing order.
pub proof fn lemma_visible_indexes(tools: Seq<ToolSnapshot>, active: Set<Seq<char>>)
    requires
        tools.len() <= usize::MAX,
    ensures
        forall|i: int| 0 <= i < tools.len() ==> (visible_indexes(tools, active).contains(i as usize) <==> provider_visible(
            #[trigger] tools[i],
            active,
        )),
        forall|k: int| 0 <= k < visible_indexes(tools, active).len() ==> #[trigger] visible_indexes(tools, active)[k] < tools.len(),
        forall|k: int, l: int| 0 <= k < l < visible_indexes(tools, active).len() ==> #[trigger] visible_indexes(tools, active)[k]
            < #[trigger] visible_indexes(tools, active)[l],
    decreases tools.len(),
{
    if tools.len() > 0 {
        let pre = tools.drop_last();
        lemma_visible_indexes(pre, active);
        let v = visible_indexes(pre, active);
        let w = visible_indexes(tools, active);
        let last = (tools.len() - 1) as usize;
        if provider_visible(tools.last(), active) {
            assert(w == v.push(last));
            assert forall|k: int| 0 <= k < w.len() implies #[trigger] w[k] < tools.len() by {
                if k < v.len() {
                    assert(w[k] == v[k]);
                }
            }
            assert forall|k: int, l: int| 0 <= k < l < w.len() implies #[trigger] w[k] < #[trigger] w[l] by {
                assert(w[k] == v[k]);
                if l < v.len() {
                    assert(w[l] == v[l]);
                } else {
                    assert(v[k] < pre.len());
                }
            }
        } else {
            assert(w == v);
        }
        assert forall|i: int| 0 <= i < tools.len() implies (w.contains(i as usize) <==> provider_visible(#[trigger] tools[i], active)) by {
            if i < tools.len() - 1 {
                assert(pre[i] == tools[i]);
                if w.contains(i as usize) {
                    let k = choose|k: int| 0 <= k < w.len() && w[k] == i as usize;
                    if k < v.len() {
                        assert(v[k] == i as usize);
                        assert(v.contains(i as usize));
                    }
                }
                if v.contains(i as usize) {
                    let k = choose|k: int| 0 <= k < v.len() && v[k] == i as usize;
                    assert(w[k] == i as usize);
                }
            } else {
                if provider_visible(tools.last(), active) {
                    assert(w[v.len() as int] == i as usize);
                } else {
                    if w.contains(i as usize) {
                        let k = choose|k: int| 0 <= k < v.len() && v[k] == i as usize;
                        assert(v[k] < pre.len());
                    }
                }
            }
        }
    }
}

/// A deferred tool named by a discovery is visible to the provider after
/// the activation.
pub proof fn law_discovered_tool_becomes_visible(active: Set<Seq<char>>, tools: Seq<ToolSnapshot>, discovered: Seq<Seq<char>>, i: int)
    requires
        tools.len() <= usize::MAX,
        0 <= i < tools.len(),
        discovered.contains(tools[i].definition.name@),
    ensures
        visible_indexes(tools, activated(active, tools, discovered)).contains(i as usize),
{
    lemma_deferred_name_seq(tools);
    lemma_visible_indexes(tools, activated(active, tools, discovered));
    if is_deferred(tools[i]) {
        assert(deferred_names(tools).contains(tools[i].definition.name@));
    }
}

/// Every deferred tool's name is among the deferred names, and every
/// deferred name belongs to a deferred tool.
pub proof fn lemma_deferred_name_seq(tools: Seq<ToolSnapshot>)
    ensures
        forall|i: int| 0 <= i < tools.len() && is_deferred(#[trigger] tools[i]) ==> deferred_name_seq(tools).contains(
            tools[i].definition.name@,
        ),
    decreases tools.len(),
{
    if tools.len() > 0 {
        lemma_deferred_name_seq(tools.drop_last());
        assert forall|i: int| 0 <= i < tools.len() && is_deferred(#[trigger] tools[i]) implies deferred_name_seq(tools).contains(
            tools[i].definition.name@,
        ) by {
            let d = deferred_name_seq(tools.drop_last());
            if i < tools.len() - 1 {
                assert(tools.drop_last()[i] == tools[i]);
                let k = choose|k: int| 0 <= k < d.len() && d[k] == tools[i].definition.name@;
                if is_deferred(tools.last()) {
                    assert(deferred_name_seq(tools)[k] == tools[i].definition.name@);
                }
            } else {
                assert(deferred_name_seq(tools)[d.len() as int] == tools[i].definition.name@);
            }
        }
    }
}

/// The reminder never lists an active tool: after a discovery, the
/// discovered deferred tools are no longer among the hidden names.
pub proof fn law_reminder_omits_active(active: Set<Seq<char>>, tools: Seq<ToolSnapshot>, n: Seq<char>)
    requires
        active.contains(n),
    ensures
        !hidden_deferred_names(tools, active).contains(n),
    decreases tools.len(),
{
    if tools.len() > 0 {
        law_reminder_omits_active(active, tools.drop_last(), n);
        let h = hidden_deferred_names(tools.drop_last(), active);
        if hidden_deferred_names(tools, active).contains(n) {
            let k = choose|k: int| 0 <= k < hidden_deferred_names(tools, active).len() && hidden_deferred_names(tools, active)[k] == n;
            if k < h.len() {
                assert(h[k] == n);
            }
        }
    }
}

/// The visible tools, in order.
pub open spec fn visible_tools(tools: Seq<ToolSnapshot>, active: Set<Seq<char>>) -> Seq<ToolSnapshot>
    decreases tools.len(),
{
    if tools.len() == 0 {
        seq![]
    } else if provider_visible(tools.last(), active) {
        visible_tools(tools.drop_last(), active).push(tools.last())
    } else {
        visible_tools(tools.drop_last(), active)
    }
}

proof fn lemma_tools_at_prefix(tools: Seq<ToolSnapshot>, x: ToolSnapshot, idx: Seq<usize>)
    requires
        forall|k: int| 0 <= k < idx.len() ==> #[trigger] idx[k] < tools.len(),
    ensures
        tools_at(tools.push(x), idx) == tools_at(tools, idx),
    decreases idx.len(),
{
    if idx.len() > 0 {
        lemma_tools_at_prefix(tools, x, idx.drop_last());
        assert(idx[idx.len() - 1] < tools.len());
    }
}

/// Selecting the visible indexes picks exactly the visible tools, in
/// their order.
pub proof fn law_visible_selection(tools: Seq<ToolSnapshot>, active: Set<Seq<char>>)
    requires
        tools.len() <= usize::MAX,
    ensures
        tools_at(tools, visible_indexes(tools, active)) == visible_tools(tools, active),
    decreases tools.len(),
{
    if tools.len() > 0 {
        let pre = tools.drop_last();
        law_visible_selection(pre, active);
        lemma_visible_indexes(pre, active);
        assert(pre.push(tools.last()) =~= tools);
        lemma_tools_at_prefix(pre, tools.last(), visible_indexes(pre, active));
        let v = visible_indexes(tools, active);
        if provider_visible(tools.last(), active) {
            assert(v.drop_last() =~= visible_indexes(pre, active));
            assert(v.last() == (tools.len() - 1) as usize);
            assert(tools_at(tools, v) == tools_at(tools, v.drop_last()).push(tools.last()));
        } else {
            assert(v == visible_indexes(pre, active));
        }
    }
}

// ─── Turn state ─────────────────────────────────────────────────────────

impl ToolSnapshot {
    /// The definitions of `tools`, in order.
    pub fn definitions(tools: &[ToolSnapshot]) -> (r: Vec<ToolDefinition>)
        ensures
            r@.len() == tools@.len(),
            forall|i: int| 0 <= i < tools@.len() ==> r@[i] == (#[trigger] tools@[i]).definition,
    {
        let mut r: Vec<ToolDefinition> = Vec::new();
        let mut i: usize = 0;
        while i < tools.len()
            invariant
                0 <= i <= tools@.len(),
                r@.len() == i,
                forall|j: int| 0 <= j < i ==> r@[j] == (#[trigger] tools@[j]).definition,
            decreases tools@.len() - i,
        {
            r.push(tools[i].definition.clone());
            i = i + 1;
        }
        r
    }
}

/// The non-system messages of `history`, in order.
pub open spec fn non_system(history: Seq<LlmMessage>) -> Seq<LlmMessage>
    decreases history.len(),
{
    if history.len() == 0 {
        seq![]
    } else if history.last().role == LlmRole::System {
        non_system(history.drop_last())
    } else {
        non_system(history.drop_last()).push(history.last())
    }
}

/// Snapshots of tool definitions paired with their prompt metadata.
pub open spec fn snapshots_of(tools: Seq<(ToolDefinition, Option<ToolPromptMetadata>)>) -> Seq<ToolSnapshot> {
    tools.map_values(|t: (ToolDefinition, Option<ToolPromptMetadata>)| ToolSnapshot { definition: t.0, prompt_metadata: t.1 })
}

/// The conversation and tool visibility of one turn.  The tools offered
/// to the provider are always the visible ones among all tools.
pub struct TurnState {
    pub messages: Vec<LlmMessage>,
    pub final_text: String,
    pub tool_results: Vec<ToolResult>,
    pub active_deferred_tools: DeferredToolSet,
    pub all_tools: Vec<ToolSnapshot>,
    pub visible_tools: Vec<ToolSnapshot>,
}

impl TurnState {
    /// The offered tools are the visible ones.
    pub open spec fn wf(&self) -> bool {
        &&& self.all_tools@.len() <= usize::MAX
        &&& self.visible_tools@ == visible_tools(self.all_tools@, self.active_deferred_tools@)
    }

    /// All tools of the turn.
    pub open spec fn all_tools_view(&self) -> Seq<ToolSnapshot> {
        self.all_tools@
    }

    /// The activated deferred tool names.
    pub open spec fn active_view(&self) -> Set<Seq<char>> {
        self.active_deferred_tools@
    }

    /// The tools offered to the provider.
    pub open spec fn visible_view(&self) -> Seq<ToolSnapshot> {
        self.visible_tools@
    }

    /// Starts a turn: the system prompt (unless blank), the history without
    /// its system messages, and the user's text; no deferred tool is active.
    pub fn new(
        initial_history: Vec<LlmMessage>,
        system_prompt: &str,
        user_text: &str,
        all_tools: Vec<(ToolDefinition, Option<ToolPromptMetadata>)>,
    ) -> (r: Self)
        ensures
            r.wf(),
            r.final_text@.len() == 0,
            r.tool_results@.len() == 0,
            r.active_view() == Set::<Seq<char>>::empty(),
            r.all_tools_view() == snapshots_of(all_tools@),
            r.visible_view() == visible_tools(snapshots_of(all_tools@), Set::<Seq<char>>::empty()),
            ({
                let head = if is_blank(system_prompt@) { 0int } else { 1int };
                let body = non_system(initial_history@);
                &&& r.messages@.len() == head + body.len() + 1
                &&& head == 1 ==> r.messages@[0].is_text_message(LlmRole::System, system_prompt@)
                &&& r.messages@.subrange(head, head + body.len()) == body
                &&& r.messages@.last().is_text_message(LlmRole::User, user_text@)
            }),
    {
        let mut messages: Vec<LlmMessage> = Vec::new();
        let blank = is_blank_str(system_prompt);
        if !blank {
            messages.push(LlmMessage::system(crate::text::to_string(system_prompt)));
        }
        let ghost head: int = if blank { 0 } else { 1 };
        let ghost h0 = initial_history@;
        let mut rest = initial_history;
        let n = rest.len();
        let mut i: usize = 0;
        proof {
            assert(rest@ =~= h0.skip(0));
            assert(messages@.subrange(head, messages@.len() as int) =~= non_system(h0.take(0)));
        }
        while i < n
            invariant
                n == h0.len(),
                0 <= i <= n,
                rest@ == h0.skip(i as int),
                head == (if blank { 0int } else { 1int }),
                messages@.len() >= head,
                head == 1 ==> messages@[0].is_text_message(LlmRole::System, system_prompt@),
                messages@.subrange(head, messages@.len() as int) == non_system(h0.take(i as int)),
            decreases n - i,
        {
            let m = rest.remove(0);
            proof {
                assert(m == h0[i as int]);
                assert(rest@ =~= h0.skip(i + 1));
                assert(h0.take(i + 1).drop_last() =~= h0.take(i as int));
                assert(h0.take(i + 1).last() == h0[i as int]);
            }
            let ghost before = messages@;
            if m.role != LlmRole::System {
                messages.push(m);
                proof {
                    assert(messages@.subrange(head, messages@.len() as int) =~= before.subrange(head, before.len() as int).push(h0[i as int]));
                }
            }
            i = i + 1;
        }
        proof {
            assert(h0.take(n as int) =~= h0);
        }
        let ghost before = messages@;
        messages.push(LlmMessage::user(user_text));
        proof {
            assert(messages@.subrange(head, head + non_system(h0).len()) =~= before.subrange(head, before.len() as int));
        }
        let mut snapshots: Vec<ToolSnapshot> = Vec::new();
        let ghost t0 = all_tools@;
        let mut tools = all_tools;
        let m = tools.len();
        let mut j: usize = 0;
        proof {
            assert(tools@ =~= t0.skip(0));
        }
        while j < m
            invariant
                m == t0.len(),
                0 <= j <= m,
                tools@ == t0.skip(j as int),
                snapshots@ == snapshots_of(t0.take(j as int)),
            decreases m - j,
        {
            let (definition, prompt_metadata) = tools.remove(0);
            proof {
                assert(tools@ =~= t0.skip(j + 1));
            }
            snapshots.push(ToolSnapshot { definition, prompt_metadata });
            proof {
                assert(snapshots@ =~= snapshots_of(t0.take(j + 1)));
            }
            j = j + 1;
        }
        proof {
            assert(t0.take(m as int) =~= t0);
        }
        let active = DeferredToolSet::new();
        let indexes = provider_visible_tool_indexes(snapshots.as_slice(), &active);
        let visible = clone_tools_by_index(snapshots.as_slice(), indexes.as_slice());
        proof {
            law_visible_selection(snapshots@, active@);
        }
        TurnState {
            messages,
            final_text: String::new(),
            tool_results: Vec::new(),
            active_deferred_tools: active,
            all_tools: snapshots,
            visible_tools: visible,
        }
    }

    /// All tools of the turn.
    pub fn all_tool_snapshots(&self) -> (r: &[ToolSnapshot])
        ensures
            r@ == self.all_tools_view(),
    {
        self.all_tools.as_slice()
    }

    /// The definitions of the tools offered to the provider.
    pub fn visible_tools(&self) -> (r: Vec<ToolDefinition>)
        requires
            self.wf(),
        ensures
            r@.len() == visible_tools(self.all_tools_view(), self.active_view()).len(),
            forall|i: int| 0 <= i < r@.len() ==> r@[i] == (#[trigger] visible_tools(self.all_tools_view(), self.active_view())[i]).definition,
    {
        ToolSnapshot::definitions(self.visible_tools.as_slice())
    }

    /// The activated deferred tools.
    pub fn active_deferred_tools(&self) -> (r: &DeferredToolSet)
        ensures
            r@ == self.active_view(),
    {
        &self.active_deferred_tools
    }

    /// Activates discovered deferred tools and, when that changed anything,
    /// recomputes the tools offered to the provider.
    pub fn activate_deferred_tools(&mut self, discovered_tools: Vec<String>) -> (changed: bool)
        requires
            old(self).wf(),
        ensures
            final(self).wf(),
            final(self).all_tools_view() == old(self).all_tools_view(),
            final(self).active_view() == activated(old(self).active_view(), old(self).all_tools_view(), views(discovered_tools@)),
            changed == (final(self).active_view() != old(self).active_view()),
            final(self).messages == old(self).messages,
    {
        let changed = activate_deferred_tools(&mut self.active_deferred_tools, self.all_tools.as_slice(), discovered_tools);
        if changed {
            let indexes = provider_visible_tool_indexes(self.all_tools.as_slice(), &self.active_deferred_tools);
            self.visible_tools = clone_tools_by_index(self.all_tools.as_slice(), indexes.as_slice());
            proof {
                law_visible_selection(self.all_tools@, self.active_deferred_tools@);
            }
        }
        changed
    }
}

} // verus!
