//! Provider-facing names of MCP tools: `mcp__{server}__{tool}` with both
//! parts normalized to lowercase ASCII words joined by `_`.

use vstd::prelude::*;
use crate::text::{chars_of, push_char, push_str, to_string};

verus! {

/// An ASCII letter or digit.
pub open spec fn ascii_alnum(c: char) -> bool {
    ('a' <= c && c <= 'z') || ('A' <= c && c <= 'Z') || ('0' <= c && c <= '9')
}

/// `c` with an ASCII capital turned to lowercase.
pub open spec fn ascii_lower(c: char) -> char {
    if 'A' <= c && c <= 'Z' {
        ((c as u32) + 32) as char
    } else {
        c
    }
}

/// Letters and digits lowercased; every run of other characters becomes
/// one `_`.
pub open spec fn collapse_separators(s: Seq<char>) -> Seq<char>
    decreases s.len(),
{
    if s.len() == 0 {
        seq![]
    } else {
        let p = collapse_separators(s.drop_last());
        let c = s.last();
        if ascii_alnum(c) {
            p.push(ascii_lower(c))
        } else if p.len() > 0 && p.last() == '_' {
            p
        } else {
            p.push('_')
        }
    }
}

/// Number of leading `c` in `s`.
pub open spec fn lead_count(s: Seq<char>, c: char) -> nat
    decreases s.len(),
{
    if s.len() > 0 && s[0] == c {
        1 + lead_count(s.drop_first(), c)
    } else {
        0
    }
}

/// Number of trailing `c` in `s`.
pub open spec fn trail_count(s: Seq<char>, c: char) -> nat
    decreases s.len(),
{
    if s.len() > 0 && s.last() == c {
        1 + trail_count(s.drop_last(), c)
    } else {
        0
    }
}

/// `s` without leading and trailing `c`.
pub open spec fn trim_char(s: Seq<char>, c: char) -> Seq<char> {
    let a = lead_count(s, c);
    if a == s.len() {
        seq![]
    } else {
        s.subrange(a as int, s.len() - trail_count(s, c))
    }
}

/// The normalized form of one name part.
pub open spec fn normalized(s: Seq<char>) -> Seq<char> {
    trim_char(collapse_separators(s), '_')
}

proof fn lemma_lead_count_bound(s: Seq<char>, c: char)
    ensures
        lead_count(s, c) <= s.len(),
        forall|i: int| 0 <= i < lead_count(s, c) ==> s[i] == c,
        lead_count(s, c) < s.len() ==> s[lead_count(s, c) as int] != c,
    decreases s.len(),
{
    if s.len() > 0 && s[0] == c {
        lemma_lead_count_bound(s.drop_first(), c);
        assert forall|i: int| 0 <= i < lead_count(s, c) implies s[i] == c by {
            if i > 0 {
                assert(s[i] == s.drop_first()[i - 1]);
            }
        }
    }
}

proof fn lemma_trail_count_bound(s: Seq<char>, c: char)
    ensures
        trail_count(s, c) <= s.len(),
        forall|i: int| s.len() - trail_count(s, c) <= i < s.len() ==> s[i] == c,
        trail_count(s, c) < s.len() ==> s[s.len() - 1 - trail_count(s, c)] != c,
    decreases s.len(),
{
    if s.len() > 0 && s.last() == c {
        lemma_trail_count_bound(s.drop_last(), c);
        assert forall|i: int| s.len() - trail_count(s, c) <= i < s.len() implies s[i] == c by {
            if i < s.len() - 1 {
                assert(s[i] == s.drop_last()[i]);
            }
        }
    }
}

fn is_ascii_alnum(c: char) -> (r: bool)
    ensures
        r == ascii_alnum(c),
{
    ('a' <= c && c <= 'z') || ('A' <= c && c <= 'Z') || ('0' <= c && c <= '9')
}

fn to_ascii_lower(c: char) -> (r: char)
    ensures
        r == ascii_lower(c),
{
    if 'A' <= c && c <= 'Z' {
        let b: u8 = (c as u32 + 32) as u8;
        proof {
            assert((c as u32 + 32) as u8 as char == ((c as u32) + 32) as char);
        }
        b as char
    } else {
        c
    }
}

/// Normalizes one part of an MCP tool name: ASCII letters and digits are
/// kept in lowercase, each run of other characters becomes one `_`, and
/// `_` at either end is removed.
pub fn normalize_component(input: &str) -> (r: String)
    ensures
        r@ == normalized(input@),
{
    let v = chars_of(input);
    let mut out: Vec<char> = Vec::new();
    let mut last_sep = false;
    let mut i: usize = 0;
    while i < v.len()
        invariant
            0 <= i <= v@.len(),
            v@ == input@,
            out@ == collapse_separators(v@.take(i as int)),
            last_sep == (out@.len() > 0 && out@.last() == '_'),
        decreases v@.len() - i,
    {
        proof {
            assert(v@.take(i + 1).drop_last() =~= v@.take(i as int));
            assert(v@.take(i + 1).last() == v@[i as int]);
        }
        let ch = v[i];
        if is_ascii_alnum(ch) {
            let l = to_ascii_lower(ch);
            out.push(l);
            last_sep = false;
            proof {
                assert(l != '_');
            }
        } else if !last_sep {
            out.push('_');
            last_sep = true;
        }
        i = i + 1;
    }
    proof {
        assert(v@.take(v@.len() as int) =~= v@);
        lemma_lead_count_bound(out@, '_');
        lemma_trail_count_bound(out@, '_');
    }
    let ghost t = out@;
    let mut start: usize = 0;
    while start < out.len() && out[start] == '_'
        invariant
            0 <= start <= out@.len(),
            out@ == t,
            forall|j: int| 0 <= j < start ==> t[j] == '_',
        decreases out@.len() - start,
    {
        start = start + 1;
    }
    proof {
        lemma_lead_exact(t, '_', start as int);
    }
    let mut r = String::new();
    if start == out.len() {
        return r;
    }
    let mut end: usize = out.len();
    while end > start && out[end - 1] == '_'
        invariant
            start < out@.len(),
            t[start as int] != '_',
            start < end <= out@.len(),
            out@ == t,
            start == lead_count(t, '_'),
            forall|j: int| end <= j < t.len() ==> t[j] == '_',
        decreases end,
    {
        end = end - 1;
    }
    proof {
        lemma_trail_exact_plain(t, '_', end as int);
    }
    let mut k = start;
    while k < end
        invariant
            start <= k <= end <= out@.len(),
            out@ == t,
            r@ == t.subrange(start as int, k as int),
        decreases end - k,
    {
        push_char(&mut r, out[k]);
        proof {
            assert(t.subrange(start as int, k + 1) =~= t.subrange(start as int, k as int).push(t[k as int]));
        }
        k = k + 1;
    }
    r
}

proof fn lemma_lead_exact(s: Seq<char>, c: char, k: int)
    requires
        0 <= k <= s.len(),
        forall|j: int| 0 <= j < k ==> s[j] == c,
        k == s.len() || s[k] != c,
    ensures
        lead_count(s, c) == k,
    decreases k,
{
    if k > 0 {
        assert forall|j: int| 0 <= j < k - 1 implies s.drop_first()[j] == c by {
            assert(s.drop_first()[j] == s[j + 1]);
        }
        if k < s.len() {
            assert(s.drop_first()[k - 1] == s[k]);
        }
        lemma_lead_exact(s.drop_first(), c, k - 1);
    }
}

proof fn lemma_trail_exact_plain(s: Seq<char>, c: char, e: int)
    requires
        0 < e <= s.len(),
        forall|j: int| e <= j < s.len() ==> s[j] == c,
        s[e - 1] != c,
    ensures
        trail_count(s, c) == s.len() - e,
    decreases s.len() - e,
{
    if e < s.len() {
        let d = s.drop_last();
        assert forall|j: int| e <= j < d.len() implies d[j] == c by {
            assert(d[j] == s[j]);
        }
        assert(d[e - 1] == s[e - 1]);
        lemma_trail_exact_plain(d, c, e);
    } else {
        assert(s.last() == s[e - 1]);
    }
}

/// The provider name of tool `tool` of MCP server `server`, or nothing
/// when either part normalizes to an empty string.
pub open spec fn mcp_tool_name(server: Seq<char>, tool: Seq<char>) -> Option<Seq<char>> {
    if normalized(server).len() > 0 && normalized(tool).len() > 0 {
        Some("mcp__"@ + normalized(server) + "__"@ + normalized(tool))
    } else {
        None
    }
}

/// Builds `mcp__{server}__{tool}` from normalized parts; `None` when a part
/// normalizes to nothing.
pub fn build_tool_name(server: &str, tool: &str) -> (r: Option<String>)
    ensures
        match r {
            Some(s) => mcp_tool_name(server@, tool@) == Some(s@),
            None => mcp_tool_name(server@, tool@) is None,
        },
{
    let server = normalize_component(server);
    let tool = normalize_component(tool);
    if server.as_str().is_empty() || tool.as_str().is_empty() {
        return None;
    }
    let mut r = to_string("mcp__");
    push_str(&mut r, server.as_str());
    push_str(&mut r, "__");
    push_str(&mut r, tool.as_str());
    Some(r)
}

/// No two `_` in a row.
pub open spec fn no_double_sep(s: Seq<char>) -> bool {
    forall|i: int| 0 <= i < s.len() - 1 ==> !(#[trigger] s[i] == '_' && s[i + 1] == '_')
}

proof fn lemma_collapse_no_double(s: Seq<char>)
    ensures
        no_double_sep(collapse_separators(s)),
    decreases s.len(),
{
    if s.len() > 0 {
        lemma_collapse_no_double(s.drop_last());
        let p = collapse_separators(s.drop_last());
        let r = collapse_separators(s);
        assert forall|i: int| 0 <= i < r.len() - 1 implies !(#[trigger] r[i] == '_' && r[i + 1] == '_') by {
            if i < p.len() - 1 {
                assert(r[i] == p[i] && r[i + 1] == p[i + 1]);
            } else if r.len() > p.len() {
                assert(r[i] == p[i]);
                if ascii_alnum(s.last()) {
                    assert(r[i + 1] == ascii_lower(s.last()));
                    assert(ascii_lower(s.last()) != '_');
                }
            }
        }
    }
}

/// A normalized part has no `_` at either end and none doubled.
proof fn lemma_normalized_shape(s: Seq<char>)
    ensures
        no_double_sep(normalized(s)),
        normalized(s).len() > 0 ==> normalized(s)[0] != '_' && normalized(s).last() != '_',
{
    let c = collapse_separators(s);
    lemma_collapse_no_double(s);
    lemma_lead_count_bound(c, '_');
    lemma_trail_count_bound(c, '_');
    let n = normalized(s);
    if lead_count(c, '_') < c.len() {
        let a = lead_count(c, '_') as int;
        let e = c.len() - trail_count(c, '_');
        assert(c[c.len() - 1 - trail_count(c, '_')] != '_');
        assert(a < e) by {
            if e <= a {
                assert(c[a] != '_');
                assert(c[a] == '_');
            }
        }
        assert(n == c.subrange(a, e));
        assert forall|i: int| 0 <= i < n.len() - 1 implies !(#[trigger] n[i] == '_' && n[i + 1] == '_') by {
            assert(n[i] == c[a + i] && n[i + 1] == c[a + i + 1]);
        }
    }
}

/// Provider names of MCP tools are unambiguous: the name of a server's tool
/// determines both normalized parts, since a part never holds `__` nor
/// starts or ends with `_`.
pub proof fn law_tool_names_unambiguous(server1: Seq<char>, tool1: Seq<char>, server2: Seq<char>, tool2: Seq<char>)
    requires
        mcp_tool_name(server1, tool1) is Some,
        mcp_tool_name(server1, tool1) == mcp_tool_name(server2, tool2),
    ensures
        normalized(server1) == normalized(server2),
        normalized(tool1) == normalized(tool2),
{
    let a1 = normalized(server1);
    let b1 = normalized(tool1);
    let a2 = normalized(server2);
    let b2 = normalized(tool2);
    lemma_normalized_shape(server1);
    lemma_normalized_shape(server2);
    let p = "mcp__"@;
    assert(p.len() == 5) by {
        reveal_strlit("mcp__");
    }
    assert("__"@ == seq!['_', '_']) by {
        reveal_strlit("__");
    }
    let x = p + a1 + "__"@ + b1;
    let y = p + a2 + "__"@ + b2;
    assert(x == y);
    assert(a1.len() == a2.len()) by {
        if a1.len() < a2.len() {
            let k = a1.len() as int;
            assert(x[5 + k] == '_' && x[5 + k + 1] == '_');
            assert(y[5 + k] == a2[k]);
            if k + 1 < a2.len() {
                assert(y[5 + k + 1] == a2[k + 1]);
                assert(!(a2[k] == '_' && a2[k + 1] == '_'));
            } else {
                assert(a2.last() == a2[k]);
            }
        } else if a2.len() < a1.len() {
            let k = a2.len() as int;
            assert(y[5 + k] == '_' && y[5 + k + 1] == '_');
            assert(x[5 + k] == a1[k]);
            if k + 1 < a1.len() {
                assert(x[5 + k + 1] == a1[k + 1]);
                assert(!(a1[k] == '_' && a1[k + 1] == '_'));
            } else {
                assert(a1.last() == a1[k]);
            }
        }
    }
    assert(a1 =~= a2) by {
        assert forall|i: int| 0 <= i < a1.len() implies a1[i] == a2[i] by {
            assert(x[5 + i] == a1[i]);
            assert(y[5 + i] == a2[i]);
        }
    }
    assert(b1 =~= b2) by {
        assert(x.len() == 5 + a1.len() + 2 + b1.len());
        assert(y.len() == 5 + a2.len() + 2 + b2.len());
        assert(b1.len() == b2.len());
        assert forall|i: int| 0 <= i < b1.len() implies b1[i] == b2[i] by {
            assert(x[5 + a1.len() + 2 + i] == b1[i]);
            assert(y[5 + a2.len() + 2 + i] == b2[i]);
        }
    }
}

/// A character a normalized name part may hold: a lowercase ASCII letter,
/// an ASCII digit, or `_`.
pub open spec fn name_part_char(c: char) -> bool {
    ('a' <= c && c <= 'z') || ('0' <= c && c <= '9') || c == '_'
}

proof fn lemma_collapse_charset(s: Seq<char>)
    ensures
        forall|i: int| 0 <= i < collapse_separators(s).len() ==> name_part_char(#[trigger] collapse_separators(s)[i]),
    decreases s.len(),
{
    if s.len() > 0 {
        lemma_collapse_charset(s.drop_last());
        let c = s.last();
        if 'A' <= c && c <= 'Z' {
            assert(65 <= c as u32 <= 90);
            let l = ((c as u32) + 32) as char;
            assert(97 <= l as u32 <= 122);
        }
        let p = collapse_separators(s.drop_last());
        let r = collapse_separators(s);
        assert forall|i: int| 0 <= i < r.len() implies name_part_char(#[trigger] r[i]) by {
            if i < p.len() {
                assert(r[i] == p[i]);
            }
        }
    }
}

/// Provider tool names use only lowercase ASCII letters, digits and `_`:
/// every other character of a server or tool name (a dot, a space, a
/// non-ASCII letter) becomes a separator, and letters are lowercased.
pub proof fn law_normalized_charset(s: Seq<char>)
    ensures
        forall|i: int| 0 <= i < normalized(s).len() ==> name_part_char(#[trigger] normalized(s)[i]),
{
    lemma_collapse_charset(s);
    let c = collapse_separators(s);
    lemma_lead_count_bound(c, '_');
    lemma_trail_count_bound(c, '_');
    let n = normalized(s);
    if lead_count(c, '_') < c.len() {
        let a = lead_count(c, '_') as int;
        assert forall|i: int| 0 <= i < n.len() implies name_part_char(#[trigger] n[i]) by {
            assert(n[i] == c[a + i]);
        }
    }
}

/// A built provider name is `mcp__`, the server part, `__` and the tool
/// part, each part non-empty and made of lowercase ASCII letters, digits
/// and `_` only.
pub proof fn law_tool_name_charset(server: Seq<char>, tool: Seq<char>)
    ensures
        mcp_tool_name(server, tool) matches Some(n) ==> {
            &&& n.len() >= 9
            &&& n.take(5) == seq!['m', 'c', 'p', '_', '_']
            &&& forall|i: int| 5 <= i < n.len() ==> name_part_char(#[trigger] n[i])
        },
{
    law_normalized_charset(server);
    law_normalized_charset(tool);
    if let Some(n) = mcp_tool_name(server, tool) {
        reveal_strlit("mcp__");
        reveal_strlit("__");
        let a = normalized(server);
        let b = normalized(tool);
        assert(n == "mcp__"@ + a + "__"@ + b);
        assert(n.take(5) =~= seq!['m', 'c', 'p', '_', '_']);
        assert forall|i: int| 5 <= i < n.len() implies name_part_char(#[trigger] n[i]) by {
            if i < 5 + a.len() {
                assert(n[i] == a[i - 5]);
            } else if i < 7 + a.len() {
                assert(n[i] == '_');
            } else {
                assert(n[i] == b[i - 7 - a.len()]);
            }
        }
    }
}

/// A part already made of lowercase ASCII letters and digits is kept as it
/// is: letters and digits are never dropped or changed.
pub proof fn law_plain_words_kept(s: Seq<char>)
    requires
        forall|i: int| 0 <= i < s.len() ==> ('a' <= #[trigger] s[i] && s[i] <= 'z') || ('0' <= s[i] && s[i] <= '9'),
    ensures
        normalized(s) == s,
{
    lemma_collapse_identity(s);
    if s.len() > 0 {
        assert(s[0] != '_');
        assert(s.last() != '_');
        assert(lead_count(s, '_') == 0);
        assert(trail_count(s, '_') == 0);
        assert(s.subrange(0, s.len() as int) =~= s);
    }
}

proof fn lemma_collapse_identity(s: Seq<char>)
    requires
        forall|i: int| 0 <= i < s.len() ==> ('a' <= #[trigger] s[i] && s[i] <= 'z') || ('0' <= s[i] && s[i] <= '9'),
    ensures
        collapse_separators(s) == s,
    decreases s.len(),
{
    if s.len() > 0 {
        let p = s.drop_last();
        assert forall|i: int| 0 <= i < p.len() implies ('a' <= #[trigger] p[i] && p[i] <= 'z') || ('0' <= p[i] && p[i]
            <= '9') by {
            assert(p[i] == s[i]);
        }
        lemma_collapse_identity(p);
        assert(s.last() == s[s.len() - 1]);
        assert(p.push(s.last()) =~= s);
    }
}

/// Any character other than an ASCII letter or digit between two plain
/// words becomes one `_`: `my.server` gives `my_server`.
pub proof fn law_separator_between_words(a: Seq<char>, sep: char, b: Seq<char>)
    requires
        a.len() > 0,
        b.len() > 0,
        forall|i: int| 0 <= i < a.len() ==> ('a' <= #[trigger] a[i] && a[i] <= 'z') || ('0' <= a[i] && a[i] <= '9'),
        forall|i: int| 0 <= i < b.len() ==> ('a' <= #[trigger] b[i] && b[i] <= 'z') || ('0' <= b[i] && b[i] <= '9'),
        !(('a' <= sep && sep <= 'z') || ('A' <= sep && sep <= 'Z') || ('0' <= sep && sep <= '9')),
    ensures
        normalized(a.push(sep) + b) == a.push('_') + b,
{
    lemma_collapse_identity(a);
    assert(a.push(sep).drop_last() =~= a);
    assert(collapse_separators(a.push(sep)) == a.push('_'));
    lemma_collapse_append_words(a.push(sep), b);
    let r = a.push('_') + b;
    assert(r[0] == a[0]);
    assert(r.last() == b.last());
    assert(r[0] != '_');
    assert(r.last() != '_');
    assert(lead_count(r, '_') == 0);
    assert(trail_count(r, '_') == 0);
    assert(r.subrange(0, r.len() as int) =~= r);
}

proof fn lemma_collapse_append_words(x: Seq<char>, b: Seq<char>)
    requires
        forall|i: int| 0 <= i < b.len() ==> ('a' <= #[trigger] b[i] && b[i] <= 'z') || ('0' <= b[i] && b[i] <= '9'),
    ensures
        collapse_separators(x + b) == collapse_separators(x) + b,
    decreases b.len(),
{
    if b.len() == 0 {
        assert(x + b =~= x);
        assert(collapse_separators(x) + b =~= collapse_separators(x));
    } else {
        let b0 = b.drop_last();
        assert forall|i: int| 0 <= i < b0.len() implies ('a' <= #[trigger] b0[i] && b0[i] <= 'z') || ('0' <= b0[i]
            && b0[i] <= '9') by {
            assert(b0[i] == b[i]);
        }
        lemma_collapse_append_words(x, b0);
        assert((x + b).drop_last() =~= x + b0);
        assert((x + b).last() == b.last());
        assert(b.last() == b[b.len() - 1]);
        assert(collapse_separators(x) + b =~= (collapse_separators(x) + b0).push(b.last()));
    }
}

} // verus!
