//! Character-level text utilities shared by the rest of the crate:
//! Unicode whitespace, trimming, whitespace splitting, joining and
//! bounded prefixes, each stated over `Seq<char>`.

use vstd::prelude::*;

verus! {

// ─── Specifications ─────────────────────────────────────────────────────

/// Unicode `White_Space`, the property behind `char::is_whitespace`.
pub open spec fn is_ws(c: char) -> bool {
    let u = c as u32;
    ||| 0x09 <= u <= 0x0D
    ||| u == 0x20
    ||| u == 0x85
    ||| u == 0xA0
    ||| u == 0x1680
    ||| 0x2000 <= u <= 0x200A
    ||| u == 0x2028
    ||| u == 0x2029
    ||| u == 0x202F
    ||| u == 0x205F
    ||| u == 0x3000
}

/// Number of leading whitespace characters.
pub open spec fn lead_ws(s: Seq<char>) -> nat
    decreases s.len(),
{
    if s.len() > 0 && is_ws(s[0]) {
        1 + lead_ws(s.drop_first())
    } else {
        0
    }
}

/// Number of trailing whitespace characters.
pub open spec fn trail_ws(s: Seq<char>) -> nat
    decreases s.len(),
{
    if s.len() > 0 && is_ws(s.last()) {
        1 + trail_ws(s.drop_last())
    } else {
        0
    }
}

/// `str::trim_start`: drops leading whitespace.
pub open spec fn trim_start(s: Seq<char>) -> Seq<char> {
    s.skip(lead_ws(s) as int)
}

/// `str::trim_end`: drops trailing whitespace.
pub open spec fn trim_end(s: Seq<char>) -> Seq<char> {
    s.take(s.len() - trail_ws(s))
}

/// `str::trim`: drops whitespace on both ends.
pub open spec fn trim(s: Seq<char>) -> Seq<char> {
    trim_end(trim_start(s))
}

/// True when `s` holds only whitespace (or nothing).
pub open spec fn is_blank(s: Seq<char>) -> bool {
    forall|i: int| 0 <= i < s.len() ==> is_ws(#[trigger] s[i])
}

/// Words of `cur + s` where `cur` is the (non-whitespace) word being read.
pub open spec fn words_acc(cur: Seq<char>, s: Seq<char>) -> Seq<Seq<char>>
    decreases s.len(),
{
    if s.len() == 0 {
        if cur.len() == 0 {
            seq![]
        } else {
            seq![cur]
        }
    } else if is_ws(s[0]) {
        if cur.len() == 0 {
            words_acc(cur, s.drop_first())
        } else {
            seq![cur] + words_acc(seq![], s.drop_first())
        }
    } else {
        words_acc(cur.push(s[0]), s.drop_first())
    }
}

/// `str::split_whitespace`: the maximal runs of non-whitespace characters.
pub open spec fn words(s: Seq<char>) -> Seq<Seq<char>> {
    words_acc(seq![], s)
}

/// `parts` joined by `sep`.
pub open spec fn join(parts: Seq<Seq<char>>, sep: Seq<char>) -> Seq<char>
    decreases parts.len(),
{
    if parts.len() == 0 {
        seq![]
    } else if parts.len() == 1 {
        parts[0]
    } else {
        join(parts.drop_last(), sep) + sep + parts.last()
    }
}

/// Words of `s` joined by single spaces.
pub open spec fn collapse_ws(s: Seq<char>) -> Seq<char> {
    join(words(s), seq![' '])
}

/// `prefix` is a prefix of `s`.
pub open spec fn starts_with(s: Seq<char>, prefix: Seq<char>) -> bool {
    prefix.len() <= s.len() && s.take(prefix.len() as int) == prefix
}

/// `suffix` is a suffix of `s`.
pub open spec fn ends_with(s: Seq<char>, suffix: Seq<char>) -> bool {
    suffix.len() <= s.len() && s.skip(s.len() - suffix.len()) == suffix
}

/// The views of a sequence of strings.
pub open spec fn views(v: Seq<String>) -> Seq<Seq<char>> {
    v.map_values(|s: String| s@)
}

/// The decimal digit character for `d < 10`.
pub open spec fn digit_char(d: nat) -> char {
    if d == 0 { '0' }
    else if d == 1 { '1' }
    else if d == 2 { '2' }
    else if d == 3 { '3' }
    else if d == 4 { '4' }
    else if d == 5 { '5' }
    else if d == 6 { '6' }
    else if d == 7 { '7' }
    else if d == 8 { '8' }
    else { '9' }
}

/// Decimal rendering of `n` (as `format!("{n}")`).
pub open spec fn decimal(n: nat) -> Seq<char>
    decreases n,
{
    if n < 10 {
        seq![digit_char(n)]
    } else {
        decimal(n / 10).push(digit_char(n % 10))
    }
}

// ─── Lemmas ─────────────────────────────────────────────────────────────

pub proof fn lemma_lead_ws_bound(s: Seq<char>)
    ensures
        lead_ws(s) <= s.len(),
        forall|i: int| 0 <= i < lead_ws(s) ==> is_ws(#[trigger] s[i]),
        lead_ws(s) < s.len() ==> !is_ws(s[lead_ws(s) as int]),
    decreases s.len(),
{
    if s.len() > 0 && is_ws(s[0]) {
        lemma_lead_ws_bound(s.drop_first());
        assert forall|i: int| 0 <= i < lead_ws(s) implies is_ws(#[trigger] s[i]) by {
            if i > 0 {
                assert(s[i] == s.drop_first()[i - 1]);
            }
        }
        if lead_ws(s) < s.len() {
            assert(s[lead_ws(s) as int] == s.drop_first()[lead_ws(s.drop_first()) as int]);
        }
    }
}

pub proof fn lemma_trail_ws_bound(s: Seq<char>)
    ensures
        trail_ws(s) <= s.len(),
        forall|i: int| s.len() - trail_ws(s) <= i < s.len() ==> is_ws(#[trigger] s[i]),
        trail_ws(s) < s.len() ==> !is_ws(s[s.len() - trail_ws(s) - 1]),
    decreases s.len(),
{
    if s.len() > 0 && is_ws(s.last()) {
        lemma_trail_ws_bound(s.drop_last());
        assert forall|i: int| s.len() - trail_ws(s) <= i < s.len() implies is_ws(#[trigger] s[i]) by {
            if i < s.len() - 1 {
                assert(s[i] == s.drop_last()[i]);
            }
        }
        if trail_ws(s) < s.len() {
            assert(s[s.len() - trail_ws(s) - 1] == s.drop_last()[s.drop_last().len() - trail_ws(
                s.drop_last(),
            ) - 1]);
        }
    }
}

/// Skipping a whitespace prefix one character at a time.
proof fn lemma_lead_ws_step(s: Seq<char>, i: int)
    requires
        0 <= i < s.len(),
        is_ws(s[i]),
    ensures
        lead_ws(s.skip(i)) == 1 + lead_ws(s.skip(i + 1)),
{
    assert(s.skip(i).drop_first() =~= s.skip(i + 1));
}

proof fn lemma_trail_ws_step(s: Seq<char>, j: int)
    requires
        0 < j <= s.len(),
        is_ws(s[j - 1]),
    ensures
        trail_ws(s.take(j)) == 1 + trail_ws(s.take(j - 1)),
{
    assert(s.take(j).drop_last() =~= s.take(j - 1));
}

/// A blank sequence trims to nothing, and a trimmed sequence is empty only
/// when the input is blank.
pub proof fn lemma_trim_empty_iff_blank(s: Seq<char>)
    ensures
        (trim(s).len() == 0) == is_blank(s),
{
    lemma_lead_ws_bound(s);
    let t = trim_start(s);
    lemma_trail_ws_bound(t);
    if trim(s).len() == 0 {
        assert forall|i: int| 0 <= i < s.len() implies is_ws(#[trigger] s[i]) by {
            if i >= lead_ws(s) {
                assert(s[i] == t[i - lead_ws(s)]);
            }
        }
    } else {
        if lead_ws(s) < s.len() {
            assert(!is_ws(s[lead_ws(s) as int]));
        }
    }
}

pub proof fn lemma_words_acc_nonempty(cur: Seq<char>, s: Seq<char>)
    ensures
        forall|k: int| 0 <= k < words_acc(cur, s).len() ==> #[trigger] words_acc(cur, s)[k].len() > 0,
    decreases s.len(),
{
    if s.len() == 0 {
    } else if is_ws(s[0]) {
        if cur.len() == 0 {
            lemma_words_acc_nonempty(cur, s.drop_first());
            assert(words_acc(cur, s) == words_acc(cur, s.drop_first()));
        } else {
            lemma_words_acc_nonempty(seq![], s.drop_first());
            let r = words_acc(seq![], s.drop_first());
            assert forall|k: int| 0 <= k < words_acc(cur, s).len() implies #[trigger] words_acc(cur, s)[k].len() > 0 by {
                if k > 0 {
                    assert(words_acc(cur, s)[k] == r[k - 1]);
                }
            }
        }
    } else {
        lemma_words_acc_nonempty(cur.push(s[0]), s.drop_first());
        assert(words_acc(cur, s) == words_acc(cur.push(s[0]), s.drop_first()));
    }
}

/// Joining two or more parts: the first part, the separator, then the rest joined.
pub proof fn lemma_join_cons(parts: Seq<Seq<char>>, sep: Seq<char>)
    requires
        parts.len() >= 2,
    ensures
        join(parts, sep) == parts[0] + sep + join(parts.drop_first(), sep),
    decreases parts.len(),
{
    if parts.len() == 2 {
        assert(parts.drop_last().len() == 1);
        assert(parts.drop_first().len() == 1);
        assert(join(parts.drop_last(), sep) == parts[0]);
        assert(join(parts.drop_first(), sep) == parts[1]);
    } else {
        lemma_join_cons(parts.drop_last(), sep);
        assert(parts.drop_last().drop_first() =~= parts.drop_first().drop_last());
        assert(parts.drop_first().last() == parts.last());
        assert(join(parts.drop_first(), sep) == join(parts.drop_first().drop_last(), sep) + sep
            + parts.drop_first().last());
    }
}

/// A non-empty join starts with its first part.
pub proof fn lemma_join_starts_with_first(parts: Seq<Seq<char>>, sep: Seq<char>)
    requires
        parts.len() >= 1,
    ensures
        starts_with(join(parts, sep), parts[0]),
{
    if parts.len() == 1 {
        assert(join(parts, sep).take(parts[0].len() as int) =~= parts[0]);
    } else {
        lemma_join_cons(parts, sep);
        let rest = sep + join(parts.drop_first(), sep);
        assert(parts[0] + sep + join(parts.drop_first(), sep) =~= parts[0] + rest);
        assert((parts[0] + rest).take(parts[0].len() as int) =~= parts[0]);
    }
}

// ─── Executable helpers ─────────────────────────────────────────────────

/// Appends one character to a `String` (std's `String::push`).
/// The contract claims the string afterwards is the old one with `c` added at the end.
#[verifier::external_body]
pub(crate) fn push_char(s: &mut String, c: char)
    ensures
        final(s)@ == old(s)@.push(c),
{
    s.push(c);
}

/// Appends `t` to `s`.
pub fn push_str(s: &mut String, t: &str)
    ensures
        final(s)@ == old(s)@ + t@,
{
    s.append(t);
}

/// A fresh `String` holding `t`.
pub fn to_string(t: &str) -> (r: String)
    ensures
        r@ == t@,
{
    t.to_owned()
}

/// The characters of `s`, in order.
pub fn chars_of(s: &str) -> (v: Vec<char>)
    ensures
        v@ == s@,
{
    let mut v: Vec<char> = Vec::new();
    for c in it: s.chars()
        invariant
            v@ == it.seq().take(it.index()),
            it.seq() == s@,
    {
        v.push(c);
    }
    v
}

/// The characters `v[from..to]` as a `String`.
pub fn string_from_range(v: &Vec<char>, from: usize, to: usize) -> (r: String)
    requires
        from <= to <= v.len(),
    ensures
        r@ == v@.subrange(from as int, to as int),
{
    let mut r = String::new();
    let mut i = from;
    while i < to
        invariant
            from <= i <= to <= v.len(),
            r@ == v@.subrange(from as int, i as int),
        decreases to - i,
    {
        push_char(&mut r, v[i]);
        assert(v@.subrange(from as int, i + 1) =~= v@.subrange(from as int, i as int).push(v@[i as int]));
        i = i + 1;
    }
    r
}

/// `char::is_whitespace`.
pub fn is_whitespace(c: char) -> (r: bool)
    ensures
        r == is_ws(c),
{
    let u = c as u32;
    (0x09 <= u && u <= 0x0D) || u == 0x20 || u == 0x85 || u == 0xA0 || u == 0x1680 || (0x2000 <= u
        && u <= 0x200A) || u == 0x2028 || u == 0x2029 || u == 0x202F || u == 0x205F || u == 0x3000
}

/// Index of the first non-whitespace character (or the length).
fn lead_ws_exec(v: &Vec<char>) -> (k: usize)
    ensures
        k == lead_ws(v@),
{
    let mut i: usize = 0;
    proof {
        assert(v@.skip(0) =~= v@);
    }
    while i < v.len() && is_whitespace(v[i])
        invariant
            0 <= i <= v.len(),
            lead_ws(v@) == i + lead_ws(v@.skip(i as int)),
        decreases v.len() - i,
    {
        proof {
            lemma_lead_ws_step(v@, i as int);
        }
        i = i + 1;
    }
    proof {
        if i < v.len() {
            assert(v@.skip(i as int)[0] == v@[i as int]);
        } else {
            assert(v@.skip(i as int).len() == 0);
        }
    }
    i
}

/// Number of trailing whitespace characters.
fn trail_ws_exec(v: &Vec<char>) -> (k: usize)
    ensures
        k == trail_ws(v@),
{
    let mut j: usize = v.len();
    proof {
        assert(v@.take(v.len() as int) =~= v@);
    }
    while j > 0 && is_whitespace(v[j - 1])
        invariant
            0 <= j <= v.len(),
            trail_ws(v@) == (v.len() - j) + trail_ws(v@.take(j as int)),
        decreases j,
    {
        proof {
            lemma_trail_ws_step(v@, j as int);
        }
        j = j - 1;
    }
    proof {
        assert(v@.take(v.len() as int) =~= v@);
        if j > 0 {
            assert(v@.take(j as int).last() == v@[j - 1]);
        }
    }
    v.len() - j
}

/// `str::trim` as a fresh `String`.
pub fn trim_string(s: &str) -> (r: String)
    ensures
        r@ == trim(s@),
{
    let v = chars_of(s);
    let a = lead_ws_exec(&v);
    proof {
        lemma_lead_ws_bound(v@);
    }
    let rest = string_from_range(&v, a, v.len());
    let w = chars_of(rest.as_str());
    let b = trail_ws_exec(&w);
    proof {
        lemma_trail_ws_bound(w@);
        assert(v@.subrange(a as int, v.len() as int) =~= v@.skip(a as int));
    }
    string_from_range(&w, 0, w.len() - b)
}

/// `str::trim_start` as a fresh `String`.
pub fn trim_start_string(s: &str) -> (r: String)
    ensures
        r@ == trim_start(s@),
{
    let v = chars_of(s);
    let a = lead_ws_exec(&v);
    proof {
        lemma_lead_ws_bound(v@);
    }
    let r = string_from_range(&v, a, v.len());
    proof {
        assert(v@.subrange(a as int, v.len() as int) =~= v@.skip(a as int));
    }
    r
}

/// `str::trim_end` as a fresh `String`.
pub fn trim_end_string(s: &str) -> (r: String)
    ensures
        r@ == trim_end(s@),
{
    let w = chars_of(s);
    let b = trail_ws_exec(&w);
    proof {
        lemma_trail_ws_bound(w@);
    }
    let r = string_from_range(&w, 0, w.len() - b);
    proof {
        assert(w@.subrange(0, w.len() - b) =~= w@.take(w.len() - b));
    }
    r
}

/// True when `s` is empty or only whitespace (`s.trim().is_empty()`).
pub fn is_blank_str(s: &str) -> (r: bool)
    ensures
        r == is_blank(s@),
        r == (trim(s@).len() == 0),
{
    let v = chars_of(s);
    let a = lead_ws_exec(&v);
    proof {
        lemma_lead_ws_bound(v@);
        lemma_trim_empty_iff_blank(s@);
        if a < v.len() {
            assert(!is_ws(v@[a as int]));
        }
    }
    a == v.len()
}

/// `str::split_whitespace` collected into owned strings.
pub fn split_whitespace(s: &str) -> (r: Vec<String>)
    ensures
        views(r@) == words(s@),
{
    let v = chars_of(s);
    let mut out: Vec<String> = Vec::new();
    let mut cur = String::new();
    let mut i: usize = 0;
    proof {
        assert(v@.skip(0) =~= v@);
        assert(views(out@) =~= seq![]);
        assert(cur@ =~= seq![]);
    }
    while i < v.len()
        invariant
            0 <= i <= v.len(),
            v@ == s@,
            words(s@) == views(out@) + words_acc(cur@, v@.skip(i as int)),
        decreases v.len() - i,
    {
        let c = v[i];
        let ghost rest = v@.skip(i as int);
        proof {
            assert(rest[0] == c);
            assert(rest.drop_first() =~= v@.skip(i + 1));
        }
        if is_whitespace(c) {
            if !cur.as_str().is_empty() {
                proof {
                    assert(cur@.len() != 0);
                }
                let ghost old_out = out@;
                out.push(cur);
                cur = String::new();
                proof {
                    assert(views(out@) =~= views(old_out).push(out@.last()@));
                    assert(views(old_out) + (seq![out@.last()@] + words_acc(seq![], v@.skip(i + 1)))
                        =~= views(out@) + words_acc(cur@, v@.skip(i + 1)));
                }
            } else {
                proof {
                    assert(cur@.len() == 0);
                }
            }
        } else {
            push_char(&mut cur, c);
        }
        i = i + 1;
    }
    proof {
        assert(v@.skip(i as int).len() == 0);
    }
    if !cur.as_str().is_empty() {
        let ghost old_out = out@;
        out.push(cur);
        proof {
            assert(views(out@) =~= views(old_out).push(out@.last()@));
        }
    } else {
        proof {
            assert(views(out@) + words_acc(cur@, v@.skip(i as int)) =~= views(out@));
        }
    }
    out
}

/// `parts.join(sep)`.
pub fn join_strings(parts: &Vec<String>, sep: &str) -> (r: String)
    ensures
        r@ == join(views(parts@), sep@),
{
    let mut r = String::new();
    let mut i: usize = 0;
    while i < parts.len()
        invariant
            0 <= i <= parts.len(),
            r@ == join(views(parts@).take(i as int), sep@),
        decreases parts.len() - i,
    {
        let ghost vs = views(parts@);
        proof {
            assert(vs.take(i + 1).drop_last() =~= vs.take(i as int));
            assert(vs.take(i + 1).last() == parts@[i as int]@);
        }
        if i > 0 {
            push_str(&mut r, sep);
        } else {
            proof {
                assert(vs.take(0).len() == 0);
            }
        }
        push_str(&mut r, parts[i].as_str());
        i = i + 1;
    }
    proof {
        assert(views(parts@).take(i as int) =~= views(parts@));
    }
    r
}

/// `text.split_whitespace().collect::<Vec<_>>().join(" ")`.
pub fn one_line(text: &str) -> (r: String)
    ensures
        r@ == collapse_ws(text@),
{
    let words = split_whitespace(text);
    let sep = " ";
    proof {
        reveal_strlit(" ");
        assert(sep@ =~= seq![' ']);
    }
    join_strings(&words, sep)
}

/// Compacts `text` into a single-line preview.
///
/// Every whitespace run collapses into one space; when the result is longer
/// than `max_chars` characters it is cut to `max_chars` characters and `…`
/// is appended.
pub fn compact_inline(text: &str, max_chars: usize) -> (r: String)
    ensures
        collapse_ws(text@).len() <= max_chars ==> r@ == collapse_ws(text@),
        collapse_ws(text@).len() > max_chars ==> r@ == collapse_ws(text@).take(max_chars as int).push(
            '…',
        ),
{
    let compact = one_line(text);
    let v = chars_of(compact.as_str());
    if v.len() <= max_chars {
        return compact;
    }
    let mut preview = string_from_range(&v, 0, max_chars);
    push_char(&mut preview, '…');
    proof {
        assert(v@.subrange(0, max_chars as int) =~= v@.take(max_chars as int));
    }
    preview
}

/// `a == b` on string slices.
pub fn str_eq(a: &str, b: &str) -> (r: bool)
    ensures
        r == (a@ == b@),
{
    let x = chars_of(a);
    let y = chars_of(b);
    if x.len() != y.len() {
        proof {
            assert(a@.len() != b@.len());
        }
        return false;
    }
    let mut i: usize = 0;
    while i < x.len()
        invariant
            x.len() == y.len(),
            x@ == a@,
            y@ == b@,
            0 <= i <= x.len(),
            forall|j: int| 0 <= j < i ==> x@[j] == y@[j],
        decreases x.len() - i,
    {
        if x[i] != y[i] {
            proof {
                assert(a@[i as int] != b@[i as int]);
            }
            return false;
        }
        i = i + 1;
    }
    proof {
        assert(x@ =~= y@);
    }
    true
}

/// `s.starts_with(prefix)`.
pub fn str_starts_with(s: &str, prefix: &str) -> (r: bool)
    ensures
        r == starts_with(s@, prefix@),
{
    let x = chars_of(s);
    let p = chars_of(prefix);
    if p.len() > x.len() {
        return false;
    }
    let mut i: usize = 0;
    while i < p.len()
        invariant
            p.len() <= x.len(),
            x@ == s@,
            p@ == prefix@,
            0 <= i <= p.len(),
            forall|j: int| 0 <= j < i ==> x@[j] == p@[j],
        decreases p.len() - i,
    {
        if x[i] != p[i] {
            proof {
                assert(s@.take(prefix@.len() as int)[i as int] != prefix@[i as int]);
            }
            return false;
        }
        i = i + 1;
    }
    proof {
        assert(x@.take(p.len() as int) =~= p@);
    }
    true
}

/// `s.ends_with(suffix)`.
pub fn str_ends_with(s: &str, suffix: &str) -> (r: bool)
    ensures
        r == ends_with(s@, suffix@),
{
    let x = chars_of(s);
    let p = chars_of(suffix);
    if p.len() > x.len() {
        return false;
    }
    let off = x.len() - p.len();
    let mut i: usize = 0;
    while i < p.len()
        invariant
            p.len() <= x.len(),
            x@ == s@,
            p@ == suffix@,
            off == x.len() - p.len(),
            0 <= i <= p.len(),
            forall|j: int| 0 <= j < i ==> x@[off + j] == p@[j],
        decreases p.len() - i,
    {
        if x[off + i] != p[i] {
            proof {
                assert(s@.skip(s@.len() - suffix@.len())[i as int] != suffix@[i as int]);
            }
            return false;
        }
        i = i + 1;
    }
    proof {
        assert(x@.skip(off as int) =~= p@);
    }
    true
}

/// The digit character for `d`.
fn digit(d: usize) -> (c: char)
    requires
        d < 10,
    ensures
        c == digit_char(d as nat),
{
    if d == 0 { '0' }
    else if d == 1 { '1' }
    else if d == 2 { '2' }
    else if d == 3 { '3' }
    else if d == 4 { '4' }
    else if d == 5 { '5' }
    else if d == 6 { '6' }
    else if d == 7 { '7' }
    else if d == 8 { '8' }
    else { '9' }
}

/// Decimal rendering of `n`.
pub fn usize_to_decimal(n: usize) -> (r: String)
    ensures
        r@ == decimal(n as nat),
    decreases n,
{
    if n < 10 {
        let mut r = String::new();
        push_char(&mut r, digit(n));
        r
    } else {
        let mut r = usize_to_decimal(n / 10);
        push_char(&mut r, digit(n % 10));
        r
    }
}

/// Decimal rendering of `n`.
pub fn u64_to_decimal(n: u64) -> (r: String)
    ensures
        r@ == decimal(n as nat),
    decreases n,
{
    if n < 10 {
        let mut r = String::new();
        push_char(&mut r, digit(n as usize));
        r
    } else {
        let mut r = u64_to_decimal(n / 10);
        push_char(&mut r, digit((n % 10) as usize));
        r
    }
}

} // verus!
