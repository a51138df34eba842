//! The text the prompt takes from instruction files: the user's identity
//! file, user-wide rules, and the project's `AGENTS.md` files.  Reading
//! the files is the caller's part; this module decides what their content
//! becomes.

use vstd::prelude::*;
use crate::text::{ends_with, is_blank, is_blank_str, push_str, str_ends_with, to_string, trim, trim_string};
use crate::tool_artifacts::{fits_prefix, truncate_to_char_boundary};

verus! {

/// Most bytes of identity text kept.
pub const MAX_IDENTITY_SIZE: usize = 8192;

/// Opening line of the merged project rules.
pub const PROJECT_RULES_HEADER: &'static str =
    "以下内容来自 AGENTS.md。必须遵守；如果规则冲突，目录更深的 AGENTS.md 优先。\n";

/// The identity an identity file provides: its trimmed content cut to
/// `MAX_IDENTITY_SIZE` bytes at a character boundary; nothing when blank.
pub fn identity_from_content(content: &str) -> (r: Option<String>)
    ensures
        is_blank(content@) ==> r is None,
        !is_blank(content@) ==> (r matches Some(s) && fits_prefix(trim(content@), MAX_IDENTITY_SIZE as nat, s@)),
{
    let trimmed = trim_string(content);
    proof {
        crate::text::lemma_trim_empty_iff_blank(content@);
    }
    if trimmed.as_str().is_empty() {
        return None;
    }
    Some(truncate_to_char_boundary(trimmed.as_str(), MAX_IDENTITY_SIZE))
}

/// User-wide rules read from `path`: a heading naming the file, then the
/// trimmed content; nothing when blank.
pub fn user_rules_text(path_display: &str, content: &str) -> (r: Option<String>)
    ensures
        is_blank(content@) ==> r is None,
        !is_blank(content@) ==> (r matches Some(s) && s@ == "User-wide instructions from "@ + path_display@ + ":\n"@ + trim(
            content@,
        )),
{
    let trimmed = trim_string(content);
    proof {
        crate::text::lemma_trim_empty_iff_blank(content@);
    }
    if trimmed.as_str().is_empty() {
        return None;
    }
    let mut r = to_string("User-wide instructions from ");
    push_str(&mut r, path_display);
    push_str(&mut r, ":\n");
    push_str(&mut r, trimmed.as_str());
    Some(r)
}

/// `text` unless it is blank.
pub fn non_empty_string(text: String) -> (r: Option<String>)
    ensures
        is_blank(text@) ==> r is None,
        !is_blank(text@) ==> r == Some(text),
{
    if is_blank_str(text.as_str()) {
        None
    } else {
        Some(text)
    }
}

/// The block of one `AGENTS.md` file in the merged rules: a header line
/// with its path, its text, and a final newline when the text lacks one.
pub open spec fn rules_block(path: Seq<char>, text: Seq<char>) -> Seq<char> {
    "\n--- "@ + path + " ---\n"@ + text + if ends_with(text, "\n"@) {
        seq![]
    } else {
        "\n"@
    }
}

/// The blocks of the readable files among `files` (path, content if read).
pub open spec fn rules_blocks(files: Seq<(String, Option<String>)>) -> Seq<char>
    decreases files.len(),
{
    if files.len() == 0 {
        seq![]
    } else {
        rules_blocks(files.drop_last()) + match files.last().1 {
            Some(text) => rules_block(files.last().0@, text@),
            None => seq![],
        }
    }
}

/// Merges the project's `AGENTS.md` files, outermost directory first, into
/// one rules text; nothing when there are no files.  A file that could not
/// be read (`None`) is left out.
pub fn project_rules_text(files: &[(String, Option<String>)]) -> (r: Option<String>)
    ensures
        files@.len() == 0 ==> r is None,
        files@.len() > 0 ==> (r matches Some(s) && s@ == PROJECT_RULES_HEADER@ + rules_blocks(files@)),
{
    if files.len() == 0 {
        return None;
    }
    let mut content = to_string(PROJECT_RULES_HEADER);
    let mut i: usize = 0;
    while i < files.len()
        invariant
            0 <= i <= files@.len(),
            content@ == PROJECT_RULES_HEADER@ + rules_blocks(files@.take(i as int)),
        decreases files@.len() - i,
    {
        proof {
            assert(files@.take(i + 1).drop_last() =~= files@.take(i as int));
            assert(files@.take(i + 1).last() == files@[i as int]);
        }
        match &files[i].1 {
            Some(text) => {
                push_str(&mut content, "\n--- ");
                push_str(&mut content, files[i].0.as_str());
                push_str(&mut content, " ---\n");
                push_str(&mut content, text.as_str());
                if !str_ends_with(text.as_str(), "\n") {
                    push_str(&mut content, "\n");
                } else {
                    proof {
                        assert(content@ + seq![] =~= content@);
                    }
                }
            },
            None => {
                proof {
                    assert(content@ + seq![] =~= content@);
                }
            },
        }
        i = i + 1;
    }
    proof {
        assert(files@.take(files@.len() as int) =~= files@);
        reveal_strlit("以下内容来自 AGENTS.md。必须遵守；如果规则冲突，目录更深的 AGENTS.md 优先。\n");
        let h = PROJECT_RULES_HEADER@;
        assert(content@[0] == h[0]);
        assert(!crate::text::is_ws(content@[0]));
    }
    non_empty_string(content)
}

// ─── Where the files are ────────────────────────────────────────────────

/// What `std::path::Path::parent` returns for `path`: the path without its
/// final component, or nothing when it ends in a root or prefix or is
/// empty.
pub uninterp spec fn parent_path(path: Seq<char>) -> Option<Seq<char>>;

/// What `std::path::Path::join` gives for `dir` and `name`.
pub uninterp spec fn joined_path(dir: Seq<char>, name: Seq<char>) -> Seq<char>;

/// `Path::new(path).parent()` as text, the result named (`parent_path`).
/// A parent is the path without its final component, so it is shorter.
#[verifier::external_body]
fn path_parent(path: &str) -> (r: Option<String>)
    ensures
        match r {
            Some(p) => parent_path(path@) == Some(p@) && p@.len() < path@.len(),
            None => parent_path(path@) is None,
        },
{
    std::path::Path::new(path).parent().map(|p| p.to_string_lossy().into_owned())
}

/// `Path::new(dir).join(name)` as text, the result named (`joined_path`).
#[verifier::external_body]
fn path_join(dir: &str, name: &str) -> (r: String)
    ensures
        r@ == joined_path(dir@, name@),
{
    std::path::Path::new(dir).join(name).to_string_lossy().into_owned()
}

/// `chain` is `path` and its ancestors, outermost first: it ends with
/// `path`, each entry is the parent of the next, and the first has none.
pub open spec fn ancestor_chain(chain: Seq<Seq<char>>, path: Seq<char>) -> bool {
    &&& chain.len() > 0
    &&& chain.last() == path
    &&& parent_path(chain[0]) is None
    &&& forall|i: int| 0 <= i < chain.len() - 1 ==> parent_path(#[trigger] chain[i + 1]) == Some(chain[i])
}

/// Where `AGENTS.md` files may lie for `working_dir`: one in each of its
/// ancestors and in itself, outermost first, so that deeper (more
/// specific) rules come later.  Which of them exist is for the caller to
/// find out.
pub fn agents_file_candidates(working_dir: &str) -> (r: Vec<String>)
    ensures
        exists|chain: Seq<Seq<char>>| #[trigger] ancestor_chain(chain, working_dir@) && r@.len() == chain.len()
            && forall|i: int| 0 <= i < chain.len() ==> #[trigger] r@[i]@ == joined_path(chain[i], "AGENTS.md"@),
{
    // Innermost first: dirs[0] is working_dir, each entry's parent follows it.
    let mut dirs: Vec<String> = Vec::new();
    let mut current = to_string(working_dir);
    loop
        invariant_except_break
            dirs@.len() == 0 ==> current@ == working_dir@,
            dirs@.len() > 0 ==> dirs@[0]@ == working_dir@,
            dirs@.len() > 0 ==> parent_path(dirs@.last()@) == Some(current@),
            forall|i: int| 0 <= i < dirs@.len() - 1 ==> parent_path(#[trigger] dirs@[i]@) == Some(dirs@[i + 1]@),
        ensures
            dirs@.len() > 0,
            dirs@[0]@ == working_dir@,
            parent_path(dirs@.last()@) is None,
            forall|i: int| 0 <= i < dirs@.len() - 1 ==> parent_path(#[trigger] dirs@[i]@) == Some(dirs@[i + 1]@),
        decreases current@.len(),
    {
        let parent = path_parent(current.as_str());
        let ghost before = dirs@;
        match parent {
            Some(p) => {
                dirs.push(current);
                current = p;
                proof {
                    assert forall|i: int| 0 <= i < dirs@.len() - 1 implies parent_path(#[trigger] dirs@[i]@) == Some(
                        dirs@[i + 1]@,
                    ) by {
                        if i < before.len() - 1 {
                            assert(dirs@[i] == before[i] && dirs@[i + 1] == before[i + 1]);
                        }
                    }
                }
            },
            None => {
                dirs.push(current);
                proof {
                    assert forall|i: int| 0 <= i < dirs@.len() - 1 implies parent_path(#[trigger] dirs@[i]@) == Some(
                        dirs@[i + 1]@,
                    ) by {
                        if i < before.len() - 1 {
                            assert(dirs@[i] == before[i] && dirs@[i + 1] == before[i + 1]);
                        }
                    }
                }
                break;
            },
        }
    }
    let ghost n = dirs@.len() as int;
    let ghost chain = Seq::new(n as nat, |k: int| dirs@[n - 1 - k]@);
    let mut r: Vec<String> = Vec::new();
    let mut i: usize = dirs.len();
    while i > 0
        invariant
            0 <= i <= dirs@.len(),
            n == dirs@.len(),
            chain == Seq::new(n as nat, |k: int| dirs@[n - 1 - k]@),
            r@.len() == n - i,
            forall|k: int| 0 <= k < r@.len() ==> #[trigger] r@[k]@ == joined_path(chain[k], "AGENTS.md"@),
        decreases i,
    {
        i = i - 1;
        let file = path_join(dirs[i].as_str(), "AGENTS.md");
        r.push(file);
    }
    proof {
        assert(chain.last() == working_dir@);
        assert forall|k: int| 0 <= k < chain.len() - 1 implies parent_path(#[trigger] chain[k + 1]) == Some(chain[k]) by {
            let j = n - 2 - k;
            assert(parent_path(dirs@[j]@) == Some(dirs@[j + 1]@));
        }
        assert(ancestor_chain(chain, working_dir@));
    }
    r
}

/// The entries of `items` whose flag is set, in their order.
pub open spec fn kept_where(items: Seq<Seq<char>>, flags: Seq<bool>) -> Seq<Seq<char>>
    decreases items.len(),
{
    if items.len() == 0 {
        seq![]
    } else {
        let earlier = kept_where(items.drop_last(), flags.drop_last());
        if flags.last() {
            earlier.push(items.last())
        } else {
            earlier
        }
    }
}

/// The `AGENTS.md` files found: the candidates (from
/// `agents_file_candidates`) that the caller found to be files, outermost
/// first.
pub fn find_agents_files(candidates: Vec<String>, is_file: &[bool]) -> (r: Vec<String>)
    requires
        candidates@.len() == is_file@.len(),
    ensures
        r@.map_values(|s: String| s@) == kept_where(candidates@.map_values(|s: String| s@), is_file@),
{
    let ghost items = candidates@.map_values(|s: String| s@);
    let mut r: Vec<String> = Vec::new();
    let mut rest = candidates;
    // Walk from the front by reversing once, so each candidate moves without a copy.
    let mut reversed: Vec<String> = Vec::new();
    while rest.len() > 0
        invariant
            rest@.len() + reversed@.len() == items.len(),
            forall|k: int| 0 <= k < rest@.len() ==> #[trigger] rest@[k]@ == items[k],
            forall|k: int| 0 <= k < reversed@.len() ==> #[trigger] reversed@[k]@ == items[items.len() - 1 - k],
            items == candidates@.map_values(|s: String| s@),
        decreases rest@.len(),
    {
        let last = rest.pop().unwrap();
        reversed.push(last);
    }
    let mut i: usize = 0;
    while reversed.len() > 0
        invariant
            i + reversed@.len() == items.len(),
            items.len() == is_file@.len(),
            forall|k: int| 0 <= k < reversed@.len() ==> #[trigger] reversed@[k]@ == items[items.len() - 1 - k],
            r@.map_values(|s: String| s@) == kept_where(items.take(i as int), is_file@.take(i as int)),
        decreases reversed@.len(),
    {
        let item = reversed.pop().unwrap();
        proof {
            assert(item@ == items[i as int]);
            assert(items.take(i + 1).drop_last() =~= items.take(i as int));
            assert(is_file@.take(i + 1).drop_last() =~= is_file@.take(i as int));
        }
        if is_file[i] {
            r.push(item);
            proof {
                assert(r@.map_values(|s: String| s@) =~= kept_where(items.take(i as int), is_file@.take(i as int)).push(item@));
            }
        }
        i = i + 1;
    }
    proof {
        assert(items.take(i as int) =~= items);
        assert(is_file@.take(i as int) =~= is_file@);
    }
    r
}

/// Where the user's identity file lies in the AstrCode directory.
pub fn user_identity_md_path(astrcode_dir: &str) -> (r: String)
    ensures
        r@ == joined_path(astrcode_dir@, "IDENTITY.md"@),
{
    path_join(astrcode_dir, "IDENTITY.md")
}

/// Where the user's rules file lies in the AstrCode directory.
pub fn user_agents_md_path(astrcode_dir: &str) -> (r: String)
    ensures
        r@ == joined_path(astrcode_dir@, "AGENTS.md"@),
{
    path_join(astrcode_dir, "AGENTS.md")
}

} // verus!
