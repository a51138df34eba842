//! Access rules of the HTTP server: whether a request carries the bearer
//! token, and which browser origins CORS admits.  Reading the environment
//! and building the router are the caller's part.

use vstd::prelude::*;
use crate::text::{chars_of, push_char, str_eq, to_string, trim, trim_string, views};

verus! {

/// A byte `HeaderValue` admits, seen as a character: a tab, or a visible
/// character or space other than DEL.  (A character outside ASCII is
/// encoded in bytes of 128 and above, which are all admitted.)
pub open spec fn header_char_ok(c: char) -> bool {
    c == '\t' || (32 <= (c as u32) && (c as u32) != 127)
}

/// Whether `HeaderValue` admits the text.
pub open spec fn header_value_ok(s: Seq<char>) -> bool {
    forall|i: int| 0 <= i < s.len() ==> header_char_ok(#[trigger] s[i])
}

/// `HeaderValue::from_str` of the `http` crate (as axum re-exports it):
/// the source checks every byte with `b >= 32 && b != 127 || b == b'\t'`
/// and fails on the first that does not pass, so it succeeds exactly on
/// the texts `header_value_ok` describes.
#[verifier::external_body]
fn header_value_parses(s: &str) -> (r: bool)
    ensures
        r == header_value_ok(s@),
{
    axum::http::HeaderValue::from_str(s).is_ok()
}

/// The origins of the local web development servers.
pub open spec fn default_origins() -> Seq<Seq<char>> {
    seq![
        "http://localhost:5173"@,
        "http://localhost:3000"@,
        "http://127.0.0.1:5173"@,
        "http://127.0.0.1:3000"@,
    ]
}

/// The candidates a header value can hold, in order.
pub open spec fn admitted(candidates: Seq<Seq<char>>) -> Seq<Seq<char>>
    decreases candidates.len(),
{
    if candidates.len() == 0 {
        seq![]
    } else {
        admitted(candidates.drop_last()) + if header_value_ok(candidates.last()) {
            seq![candidates.last()]
        } else {
            seq![]
        }
    }
}

/// The pieces of `cur + s` cut at each comma (`str::split(',')`).
pub open spec fn comma_pieces(cur: Seq<char>, s: Seq<char>) -> Seq<Seq<char>>
    decreases s.len(),
{
    if s.len() == 0 {
        seq![cur]
    } else if s[0] == ',' {
        seq![cur] + comma_pieces(seq![], s.drop_first())
    } else {
        comma_pieces(cur.push(s[0]), s.drop_first())
    }
}

/// The origins CORS admits: the default ones, then each comma-separated
/// entry of `extra`, trimmed, that a header value can hold.
pub open spec fn allowed_origins(extra: Option<Seq<char>>) -> Seq<Seq<char>> {
    admitted(default_origins()) + match extra {
        Some(e) => admitted(comma_pieces(seq![], e).map_values(|p: Seq<char>| trim(p))),
        None => seq![],
    }
}

fn push_admitted(out: &mut Vec<String>, candidate: String)
    ensures
        views(final(out)@) == views(old(out)@) + if header_value_ok(candidate@) {
            seq![candidate@]
        } else {
            seq![]
        },
{
    let ghost before = views(out@);
    if header_value_parses(candidate.as_str()) {
        out.push(candidate);
        proof {
            assert(views(out@) =~= before + seq![candidate@]);
        }
    } else {
        proof {
            assert(before + seq![] =~= before);
        }
    }
}

proof fn lemma_admitted_push(c: Seq<Seq<char>>, x: Seq<char>)
    ensures
        admitted(c.push(x)) == admitted(c) + if header_value_ok(x) {
            seq![x]
        } else {
            seq![]
        },
{
    assert(c.push(x).drop_last() =~= c);
}

/// The comma-separated entries of `s`, each trimmed.
fn trimmed_pieces(s: &str) -> (r: Vec<String>)
    ensures
        views(r@) == comma_pieces(seq![], s@).map_values(|p: Seq<char>| trim(p)),
{
    let v = chars_of(s);
    let mut out: Vec<String> = Vec::new();
    let mut cur = String::new();
    let mut i: usize = 0;
    proof {
        assert(v@.skip(0) =~= v@);
        assert(cur@ =~= seq![]);
        assert(views(out@) + comma_pieces(cur@, v@.skip(0)).map_values(|p: Seq<char>| trim(p)) =~= comma_pieces(
            seq![],
            s@,
        ).map_values(|p: Seq<char>| trim(p)));
    }
    while i < v.len()
        invariant
            0 <= i <= v@.len(),
            v@ == s@,
            comma_pieces(seq![], s@).map_values(|p: Seq<char>| trim(p)) == views(out@) + comma_pieces(
                cur@,
                v@.skip(i as int),
            ).map_values(|p: Seq<char>| trim(p)),
        decreases v@.len() - i,
    {
        let c = v[i];
        proof {
            assert(v@.skip(i as int)[0] == c);
            assert(v@.skip(i as int).drop_first() =~= v@.skip(i + 1));
        }
        if c == ',' {
            let ghost before = views(out@);
            let ghost last = cur@;
            out.push(trim_string(cur.as_str()));
            cur = String::new();
            proof {
                assert(views(out@) =~= before.push(trim(last)));
                assert((seq![last] + comma_pieces(seq![], v@.skip(i + 1))).map_values(|p: Seq<char>| trim(p)) =~= seq![
                    trim(last),
                ] + comma_pieces(seq![], v@.skip(i + 1)).map_values(|p: Seq<char>| trim(p)));
                assert(before + (seq![trim(last)] + comma_pieces(cur@, v@.skip(i + 1)).map_values(|p: Seq<char>| trim(p)))
                    =~= views(out@) + comma_pieces(cur@, v@.skip(i + 1)).map_values(|p: Seq<char>| trim(p)));
            }
        } else {
            push_char(&mut cur, c);
        }
        i = i + 1;
    }
    let ghost before = views(out@);
    let ghost last = cur@;
    out.push(trim_string(cur.as_str()));
    proof {
        assert(v@.skip(i as int).len() == 0);
        assert(seq![last].map_values(|p: Seq<char>| trim(p)) =~= seq![trim(last)]);
        assert(views(out@) =~= before.push(trim(last)));
    }
    out
}

/// The origins CORS admits given the extra, comma-separated list of the
/// environment: the four local development origins, then each extra entry,
/// trimmed, that is a valid header value.  Entries that are not (a line
/// break, say) are left out.
pub fn collect_allowed_origins_from_extra(extra: Option<&str>) -> (r: Vec<String>)
    ensures
        views(r@) == allowed_origins(
            match extra {
                Some(e) => Some(e@),
                None => None,
            },
        ),
{
    let mut out: Vec<String> = Vec::new();
    let ghost d = default_origins();
    proof {
        reveal_strlit("http://localhost:5173");
        reveal_strlit("http://localhost:3000");
        reveal_strlit("http://127.0.0.1:5173");
        reveal_strlit("http://127.0.0.1:3000");
        assert(views(out@) =~= admitted(d.take(0)));
    }
    push_admitted(&mut out, to_string("http://localhost:5173"));
    proof {
        assert(d.take(1) =~= d.take(0).push(d[0]));
        lemma_admitted_push(d.take(0), d[0]);
    }
    push_admitted(&mut out, to_string("http://localhost:3000"));
    proof {
        assert(d.take(2) =~= d.take(1).push(d[1]));
        lemma_admitted_push(d.take(1), d[1]);
    }
    push_admitted(&mut out, to_string("http://127.0.0.1:5173"));
    proof {
        assert(d.take(3) =~= d.take(2).push(d[2]));
        lemma_admitted_push(d.take(2), d[2]);
    }
    push_admitted(&mut out, to_string("http://127.0.0.1:3000"));
    proof {
        assert(d.take(4) =~= d.take(3).push(d[3]));
        lemma_admitted_push(d.take(3), d[3]);
        assert(d.take(4) =~= d);
    }
    match extra {
        None => {
            proof {
                assert(views(out@) + seq![] =~= views(out@));
            }
            out
        },
        Some(e) => {
            let pieces = trimmed_pieces(e);
            let ghost base = views(out@);
            let ghost pv = views(pieces@);
            let mut k: usize = 0;
            proof {
                assert(base + admitted(pv.take(0)) =~= base);
            }
            while k < pieces.len()
                invariant
                    0 <= k <= pieces@.len(),
                    pv == views(pieces@),
                    views(out@) == base + admitted(pv.take(k as int)),
                decreases pieces@.len() - k,
            {
                push_admitted(&mut out, to_string(pieces[k].as_str()));
                proof {
                    assert(pv.take(k + 1) =~= pv.take(k as int).push(pv[k as int]));
                    lemma_admitted_push(pv.take(k as int), pv[k as int]);
                }
                k = k + 1;
            }
            proof {
                assert(pv.take(pieces@.len() as int) =~= pv);
            }
            out
        },
    }
}

/// Whether a request passes the bearer check: its authorization header,
/// read as text, must equal the expected `Bearer <token>` exactly.
/// Anything else is answered `401 unauthorized`.
pub fn bearer_authorized(authorization: Option<&str>, expected_bearer: &str) -> (r: bool)
    ensures
        r <==> (authorization matches Some(v) && v@ == expected_bearer@),
{
    match authorization {
        Some(v) => str_eq(v, expected_bearer),
        None => false,
    }
}

} // verus!
