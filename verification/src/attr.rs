//! The argument grammar of the `#[hook(...)]` and `#[ptr(...)]` attributes:
//!
//! ```text
//! hook-args := visibility ["unsafe"] ["extern" [string-literal]] IDENT "," target ["," "chain"]
//! ptr-args  := target
//! target    := "offset" "=" ["-"] integer-literal | "symbol" "=" string-literal
//! ```
//!
//! Each parser here succeeds exactly on the token sequences that are the
//! printing of a well-formed attribute, and what it returns prints back to its
//! input; otherwise it fails with the error its contract names (what was
//! expected, and the span of the token found in its place).
use vstd::prelude::*;
use crate::tokens::{
    tok_view,
    is_group_tok, is_ident_tok, is_keyword, is_lit_tok, is_plain_ident, is_punct_tok, span_of,
    toks_view, Delim, LitKind, Tok, TokV};

verus! {

/// What a failed parse expected to find.
#[derive(PartialEq, Eq, Structural, Clone, Copy, Debug)]
pub enum Expected {
    Identifier,
    IdentifierNotKeyword,
    Comma,
    OffsetOrSymbol,
    Equals,
    IntegerLiteral,
    StringLiteral,
    PathSegment,
    EndOfArguments,
}

/// A parse failure: what was expected, and the span of the token found
/// instead (`None` at the end of the arguments).
pub struct AttrError {
    pub expected: Expected,
    pub at: Option<usize>,
}

/// Whether `a` and `b` are the two halves of a `::` path separator.
pub open spec fn is_colon2(a: TokV, b: TokV) -> bool {
    &&& a matches TokV::Punct { ch, joint, .. } && ch == ':' && joint
    &&& is_punct_tok(b, ':')
}

/// Whether `t` may stand as a segment of a module path (`in` visibility paths).
pub open spec fn is_path_segment(t: TokV) -> bool {
    t matches TokV::Ident { text, .. } && (!is_keyword(text) || text == "super"@ || text == "self"@
        || text == "Self"@ || text == "crate"@)
}

/// `seg (:: seg)*`
pub open spec fn is_segments(p: Seq<TokV>) -> bool
    decreases p.len(),
{
    &&& p.len() >= 1
    &&& is_path_segment(p[0])
    &&& (p.len() == 1 || (p.len() >= 4 && is_colon2(p[1], p[2]) && is_segments(p.subrange(3, p.len() as int))))
}

/// `[::] seg (:: seg)*`
pub open spec fn is_mod_path(p: Seq<TokV>) -> bool {
    ||| is_segments(p)
    ||| (p.len() >= 2 && is_colon2(p[0], p[1]) && is_segments(p.subrange(2, p.len() as int)))
}

/// Whether `r` may follow a module path (it does not continue it with `::`).
pub open spec fn ends_path(r: Seq<TokV>) -> bool {
    !(r.len() >= 2 && is_colon2(r[0], r[1]))
}

fn colon2_at(s: &Vec<Tok>, i: usize) -> (r: bool)
    requires
        i <= s@.len(),
    ensures
        r == (i + 1 < s@.len() && is_colon2(s@[i as int]@, s@[i + 1]@)),
{
    i < s.len() && s.len() - i >= 2 && s[i].is_joint_punct(':') && s[i + 1].is_punct(':')
}

fn segment_at(s: &Vec<Tok>, i: usize) -> (r: bool)
    requires
        i <= s@.len(),
    ensures
        r == (i < s@.len() && is_path_segment(s@[i as int]@)),
{
    if i >= s.len() {
        return false;
    }
    let t = &s[i];
    t.is_plain_ident() || t.is_ident("super") || t.is_ident("self") || t.is_ident("Self") || t.is_ident("crate")
}

/// Parses `seg (:: seg)*` starting at `i`; returns where it ends.
fn parse_segments(s: &Vec<Tok>, i: usize) -> (r: Result<usize, AttrError>)
    requires
        i <= s@.len(),
    ensures
        r matches Ok(e) ==> i < e <= s@.len() && is_segments(toks_view(s@).subrange(i as int, e as int))
            && ends_path(toks_view(s@).subrange(e as int, s@.len() as int)),
        forall|e: int| #![trigger toks_view(s@).subrange(i as int, e)]
            i <= e <= s@.len() && is_segments(toks_view(s@).subrange(i as int, e))
                && ends_path(toks_view(s@).subrange(e, s@.len() as int)) ==> r == Ok::<usize, AttrError>(e as usize),
        r matches Err(e) ==> segments_error(toks_view(s@), i as int) == Some(e),
        r matches Ok(e) ==> segments_error(toks_view(s@), i as int) is None && e == segments_end(toks_view(s@), i as int),
    decreases s@.len() - i,
{
    let ghost v = toks_view(s@);
    let seg = segment_at(s, i);
    if !seg {
        let at = if i < s.len() { Some(s[i].span()) } else { None };
        assert forall|e: int| #![trigger v.subrange(i as int, e)] i <= e <= s@.len() implies !is_segments(v.subrange(i as int, e)) by {
            if is_segments(v.subrange(i as int, e)) {
                assert(v.subrange(i as int, e)[0] == v[i as int]);
            }
        }
        return Err(AttrError { expected: Expected::PathSegment, at });
    }
    let n = s.len();
    assert(i < n);
    if colon2_at(s, i + 1) {
        if n - i < 3 {
            return Err(AttrError { expected: Expected::PathSegment, at: None });
        }
        let r = parse_segments(s, i + 3);
        proof {
            assert forall|e: int| #![trigger v.subrange(i as int, e)]
                i <= e <= s@.len() && is_segments(v.subrange(i as int, e)) && ends_path(v.subrange(e, s@.len() as int))
                implies r == Ok::<usize, AttrError>(e as usize) by {
                let p = v.subrange(i as int, e);
                if p.len() == 1 {
                    assert(v.subrange(e, s@.len() as int)[0] == v[i + 1]);
                    assert(v.subrange(e, s@.len() as int)[1] == v[i + 2]);
                } else {
                    assert(p[1] == v[i + 1]);
                    assert(p[2] == v[i + 2]);
                    assert(p.subrange(3, p.len() as int) =~= v.subrange(i + 3, e));
                }
            }
            if let Ok(e) = r {
                let p = v.subrange(i as int, e as int);
                assert(p[0] == v[i as int]);
                assert(p[1] == v[i + 1]);
                assert(p[2] == v[i + 2]);
                assert(p.subrange(3, p.len() as int) =~= v.subrange(i + 3, e as int));
            }
        }
        r
    } else {
        proof {
            let p = v.subrange(i as int, i + 1);
            assert(p[0] == v[i as int]);
            assert forall|e: int| #![trigger v.subrange(i as int, e)]
                i <= e <= s@.len() && is_segments(v.subrange(i as int, e)) && ends_path(v.subrange(e, s@.len() as int))
                implies e == i + 1 by {
                let q = v.subrange(i as int, e);
                if q.len() != 1 {
                    assert(q[1] == v[i + 1]);
                    assert(q[2] == v[i + 2]);
                }
            }
            let rest = v.subrange(i + 1, s@.len() as int);
            if rest.len() >= 2 {
                assert(rest[0] == v[i + 1]);
                assert(rest[1] == v[i + 2]);
            }
        }
        Ok(i + 1)
    }
}

/// Parses `[::] seg (:: seg)*` starting at `i`; returns where it ends.
fn parse_mod_path(s: &Vec<Tok>, i: usize) -> (r: Result<usize, AttrError>)
    requires
        i <= s@.len(),
    ensures
        r matches Ok(e) ==> i < e <= s@.len() && is_mod_path(toks_view(s@).subrange(i as int, e as int))
            && ends_path(toks_view(s@).subrange(e as int, s@.len() as int)),
        forall|e: int| #![trigger toks_view(s@).subrange(i as int, e)]
            i <= e <= s@.len() && is_mod_path(toks_view(s@).subrange(i as int, e))
                && ends_path(toks_view(s@).subrange(e, s@.len() as int)) ==> r == Ok::<usize, AttrError>(e as usize),
        r matches Err(e) ==> segments_error(toks_view(s@), segments_start(toks_view(s@), i as int)) == Some(e),
        r matches Ok(e) ==> segments_error(toks_view(s@), segments_start(toks_view(s@), i as int)) is None
            && e == segments_end(toks_view(s@), segments_start(toks_view(s@), i as int)),
{
    let ghost v = toks_view(s@);
    let n = s.len();
    if colon2_at(s, i) {
        assert(i + 2 <= n);
        let r = parse_segments(s, i + 2);
        proof {
            assert forall|e: int| #![trigger v.subrange(i as int, e)]
                i <= e <= s@.len() && is_mod_path(v.subrange(i as int, e)) && ends_path(v.subrange(e, s@.len() as int))
                implies r == Ok::<usize, AttrError>(e as usize) by {
                let p = v.subrange(i as int, e);
                assert(p[0] == v[i as int]);
                assert(p[1] == v[i + 1]);
                assert(p.subrange(2, p.len() as int) =~= v.subrange(i + 2, e));
            }
            if let Ok(e) = r {
                let p = v.subrange(i as int, e as int);
                assert(p[0] == v[i as int]);
                assert(p[1] == v[i + 1]);
                assert(p.subrange(2, p.len() as int) =~= v.subrange(i + 2, e as int));
            }
        }
        r
    } else {
        let r = parse_segments(s, i);
        proof {
            assert forall|e: int| #![trigger v.subrange(i as int, e)]
                i <= e <= s@.len() && is_mod_path(v.subrange(i as int, e)) && ends_path(v.subrange(e, s@.len() as int))
                implies r == Ok::<usize, AttrError>(e as usize) by {
                let p = v.subrange(i as int, e);
                if !is_segments(p) {
                    assert(p[0] == v[i as int]);
                    assert(p[1] == v[i + 1]);
                }
            }
        }
        r
    }
}

/// The visibility written at the start of `#[hook(...)]`.
pub enum Visibility {
    Inherited,
    Public { pub_token: Tok },
    /// `pub(crate)`, `pub(self)`, `pub(super)` or `pub(in path)`.
    Restricted { pub_token: Tok, paren_span: usize, in_token: Option<Tok>, path: Vec<Tok> },
}

/// The tokens of a visibility.
pub open spec fn vis_toks(v: Visibility) -> Seq<TokV> {
    match v {
        Visibility::Inherited => Seq::empty(),
        Visibility::Public { pub_token } => seq![pub_token@],
        Visibility::Restricted { pub_token, paren_span, in_token, path } => {
            let head = match in_token {
                Some(t) => seq![t@],
                None => Seq::empty(),
            };
            seq![pub_token@, TokV::Group { delim: Delim::Paren, body: head + toks_view(path@), span: paren_span }]
        },
    }
}

/// Whether `t` is one of the words `crate`, `self`, `super`.
pub open spec fn is_scope_word(t: TokV) -> bool {
    is_ident_tok(t, "crate"@) || is_ident_tok(t, "self"@) || is_ident_tok(t, "super"@)
}

/// Well-formed visibilities.
pub open spec fn wf_vis(v: Visibility) -> bool {
    match v {
        Visibility::Inherited => true,
        Visibility::Public { pub_token } => is_ident_tok(pub_token@, "pub"@),
        Visibility::Restricted { pub_token, paren_span, in_token, path } => {
            &&& is_ident_tok(pub_token@, "pub"@)
            &&& match in_token {
                None => path@.len() == 1 && is_scope_word(path@[0]@),
                Some(t) => is_ident_tok(t@, "in"@) && is_mod_path(toks_view(path@)),
            }
        },
    }
}

/// What may follow visibility `v` at position `k` of `t` without being read as part of it.
pub open spec fn may_follow_vis(v: Visibility, t: Seq<TokV>, k: int) -> bool {
    match v {
        Visibility::Inherited => !(k < t.len() && is_ident_tok(t[k], "pub"@)),
        Visibility::Public { .. } => !(k < t.len() && is_group_tok(t[k], Delim::Paren)),
        Visibility::Restricted { .. } => true,
    }
}

/// The span of the token at `k` of `t`; `None` past its end.
pub open spec fn span_at(t: Seq<TokV>, k: int) -> Option<usize> {
    if 0 <= k < t.len() {
        Some(span_of(t[k]))
    } else {
        None
    }
}

/// The error expecting `expected` at position `k` of `t`.
pub open spec fn err_at(expected: Expected, t: Seq<TokV>, k: int) -> AttrError {
    AttrError { expected, at: span_at(t, k) }
}

/// The error reading `seg (:: seg)*` at `j` of `b` gives, or `None` where it reads.
pub open spec fn segments_error(b: Seq<TokV>, j: int) -> Option<AttrError>
    decreases b.len() - j,
{
    if !(0 <= j < b.len() && is_path_segment(b[j])) {
        Some(err_at(Expected::PathSegment, b, j))
    } else if j + 2 < b.len() && is_colon2(b[j + 1], b[j + 2]) {
        segments_error(b, j + 3)
    } else {
        None
    }
}

/// Where `seg (:: seg)*` read at `j` of `b` ends: after the last segment
/// that no `::` follows.
pub open spec fn segments_end(b: Seq<TokV>, j: int) -> int
    decreases b.len() - j,
{
    if j + 2 < b.len() && is_colon2(b[j + 1], b[j + 2]) {
        segments_end(b, j + 3)
    } else {
        j + 1
    }
}

/// Where the segments of a module path read at `j` of `b` begin (after a leading `::`).
pub open spec fn segments_start(b: Seq<TokV>, j: int) -> int {
    if j + 1 < b.len() && is_colon2(b[j], b[j + 1]) {
        j + 2
    } else {
        j
    }
}

/// How many tokens the visibility read at `i` of `t` takes: none without
/// `pub`, two for `pub (...)`, else one.
pub open spec fn vis_len(t: Seq<TokV>, i: int) -> int {
    if !(i < t.len() && is_ident_tok(t[i], "pub"@)) {
        0
    } else if !(i + 1 < t.len() && is_group_tok(t[i + 1], Delim::Paren)) {
        1
    } else {
        2
    }
}

/// The error reading a visibility at `i` of `t` gives, or `None` where it
/// reads. A path error at the end of the parentheses is reported at them.
pub open spec fn vis_error(t: Seq<TokV>, i: int) -> Option<AttrError> {
    if vis_len(t, i) < 2 {
        None
    } else {
        let g = t[i + 1];
        let b = g->body;
        if b.len() == 1 && is_scope_word(b[0]) {
            None
        } else if b.len() >= 1 && is_ident_tok(b[0], "in"@) {
            match segments_error(b, segments_start(b, 1)) {
                Some(e) => Some(AttrError { expected: e.expected, at: if e.at is Some { e.at } else { Some(span_of(g)) } }),
                None => None,
            }
        } else {
            Some(AttrError { expected: Expected::Identifier, at: Some(span_of(g)) })
        }
    }
}

/// The span of the first token inside `pub(in path ...)` after the path, if
/// there is one. It is reported as unexpected once the rest of the
/// arguments has been read.
pub open spec fn vis_leftover(t: Seq<TokV>, i: int) -> Option<usize> {
    if vis_len(t, i) == 2 && vis_error(t, i) is None {
        let b = t[i + 1]->body;
        let e = segments_end(b, segments_start(b, 1));
        if is_ident_tok(b[0], "in"@) && e < b.len() {
            Some(span_of(b[e]))
        } else {
            None
        }
    } else {
        None
    }
}

fn copy_range(s: &Vec<Tok>, a: usize, b: usize) -> (r: Vec<Tok>)
    requires
        a <= b <= s@.len(),
    ensures
        toks_view(r@) == toks_view(s@).subrange(a as int, b as int),
{
    let mut r: Vec<Tok> = Vec::new();
    let mut i: usize = a;
    while i < b
        invariant
            a <= i <= b <= s@.len(),
            r@.len() == i - a,
            forall|j: int| 0 <= j < i - a ==> tok_view(#[trigger] r@[j]) == tok_view(s@[a + j]),
        decreases b - i,
    {
        r.push(s[i].copy());
        i = i + 1;
    }
    assert forall|k: int| 0 <= k < r@.len() implies #[trigger] toks_view(r@)[k] == toks_view(s@).subrange(a as int, b as int)[k] by {
        assert(tok_view(r@[k]) == tok_view(s@[a + k]));
    }
    assert(toks_view(r@) =~= toks_view(s@).subrange(a as int, b as int));
    r
}

/// Parses a visibility at position `i`.  Where `pub` is followed by a
/// parenthesized group that is not a visibility restriction, the arguments
/// cannot be well formed and this fails at once.  Tokens after the path of
/// `pub(in path ...)` are not part of the visibility; the span of the first
/// is returned beside it.
fn parse_vis(s: &Vec<Tok>, i: usize) -> (r: Result<(Visibility, usize, Option<usize>), AttrError>)
    requires
        i <= s@.len(),
    ensures
        r matches Err(e) ==> vis_error(toks_view(s@), i as int) == Some(e),
        r matches Ok((v, j, p)) ==> vis_error(toks_view(s@), i as int) is None
            && j == i + vis_len(toks_view(s@), i as int) && p == vis_leftover(toks_view(s@), i as int)
            && j <= s@.len() && wf_vis(v) && may_follow_vis(v, toks_view(s@), j as int),
        r matches Ok((v, j, p)) ==> (p is None ==> vis_toks(v) == toks_view(s@).subrange(i as int, j as int)),
        forall|v: Visibility| #![trigger vis_toks(v)]
            wf_vis(v) && i + vis_toks(v).len() <= s@.len()
                && toks_view(s@).subrange(i as int, i + vis_toks(v).len()) == vis_toks(v)
                && may_follow_vis(v, toks_view(s@), i + vis_toks(v).len())
                ==> (r matches Ok((w, j, p)) && p is None && j == i + vis_toks(v).len() && vis_toks(w) == vis_toks(v)),
{
    let ghost t = toks_view(s@);
    let n = s.len();
    if !(i < n && s[i].is_ident("pub")) {
        let v = Visibility::Inherited;
        proof {
            assert(vis_toks(v) =~= t.subrange(i as int, i as int));
            assert forall|u: Visibility| #![trigger vis_toks(u)]
                wf_vis(u) && i + vis_toks(u).len() <= s@.len()
                    && t.subrange(i as int, i + vis_toks(u).len()) == vis_toks(u)
                    && may_follow_vis(u, t, i + vis_toks(u).len())
                implies u is Inherited by {
                if !(u is Inherited) {
                    assert(vis_toks(u)[0] == t[i as int]);
                }
            }
        }
        return Ok((v, i, None));
    }
    if !(n - i >= 2 && s[i + 1].is_group(Delim::Paren)) {
        let v = Visibility::Public { pub_token: s[i].copy() };
        proof {
            assert(vis_toks(v) =~= t.subrange(i as int, i + 1));
            assert forall|u: Visibility| #![trigger vis_toks(u)]
                wf_vis(u) && i + vis_toks(u).len() <= s@.len()
                    && t.subrange(i as int, i + vis_toks(u).len()) == vis_toks(u)
                    && may_follow_vis(u, t, i + vis_toks(u).len())
                implies u is Public && vis_toks(u) == vis_toks(v) by {
                if u is Restricted {
                    assert(vis_toks(u)[1] == t[i + 1]);
                }
                if u is Public {
                    assert(vis_toks(u)[0] == t[i as int]);
                    assert(vis_toks(u) =~= vis_toks(v));
                }
            }
        }
        return Ok((v, i + 1, None));
    }
    let Tok::Group { delim, body, span } = &s[i + 1] else {
        return Err(AttrError { expected: Expected::Identifier, at: None });
    };
    let ghost b = toks_view(body@);
    assert(t[i + 1] == TokV::Group { delim: *delim, body: b, span: *span });
    proof {
        lemma_distinct_words();
    }
    let first_scope = body.len() >= 1 && (body[0].is_ident("crate") || body[0].is_ident("self") || body[0].is_ident("super"));
    let first_in = body.len() >= 1 && body[0].is_ident("in");
    if first_scope && body.len() == 1 {
        let path = copy_range(body, 0, 1);
        let v = Visibility::Restricted { pub_token: s[i].copy(), paren_span: *span, in_token: None, path };
        proof {
            assert(b =~= toks_view(path@));
            assert(vis_toks(v) =~= t.subrange(i as int, i + 2));
            assert(toks_view(path@)[0] == b[0]);
            assert forall|u: Visibility| #![trigger vis_toks(u)]
                wf_vis(u) && i + vis_toks(u).len() <= s@.len()
                    && t.subrange(i as int, i + vis_toks(u).len()) == vis_toks(u)
                    && may_follow_vis(u, t, i + vis_toks(u).len())
                implies vis_toks(u) == vis_toks(v) && vis_toks(u).len() == 2 by {
                if u is Public {
                    assert(vis_toks(u)[0] == t[i as int]);
                }
                if let Visibility::Restricted { in_token, .. } = u {
                    assert(vis_toks(u)[0] == t[i as int]);
                    assert(vis_toks(u)[1] == t[i + 1]);
                    if let Some(it) = in_token {
                        assert(b[0] == it@);
                    }
                    assert(vis_toks(u) =~= vis_toks(v));
                }
            }
        }
        return Ok((v, i + 2, None));
    }
    if first_in {
        let e = match parse_mod_path(body, 1) {
            Ok(e) => e,
            Err(err) => {
                proof {
                    assert forall|u: Visibility| #![trigger vis_toks(u)]
                        wf_vis(u) && i + vis_toks(u).len() <= s@.len()
                            && t.subrange(i as int, i + vis_toks(u).len()) == vis_toks(u)
                            && may_follow_vis(u, t, i + vis_toks(u).len())
                        implies false by {
                        if u is Public {
                            assert(vis_toks(u)[0] == t[i as int]);
                        }
                        if let Visibility::Restricted { in_token, path: up, .. } = u {
                            assert(vis_toks(u)[1] == t[i + 1]);
                            if let Some(it) = in_token {
                                let k: int = 1 + toks_view(up@).len() as int;
                                assert(b.subrange(1, k) =~= toks_view(up@));
                                assert(b.subrange(k, b.len() as int) =~= Seq::<TokV>::empty());
                            } else {
                                assert(b[0] == up@[0]@);
                            }
                        }
                    }
                }
                let at = if err.at.is_some() { err.at } else { Some(*span) };
                return Err(AttrError { expected: err.expected, at });
            },
        };
        let in_token = body[0].copy();
        let path = copy_range(body, 1, e);
        let v = Visibility::Restricted { pub_token: s[i].copy(), paren_span: *span, in_token: Some(in_token), path };
        let left = if e < body.len() { Some(body[e].span()) } else { None };
        proof {
            if e == body.len() {
                assert(b =~= seq![b[0]] + b.subrange(1, e as int));
                assert(vis_toks(v) =~= t.subrange(i as int, i + 2));
            }
            assert forall|u: Visibility| #![trigger vis_toks(u)]
                wf_vis(u) && i + vis_toks(u).len() <= s@.len()
                    && t.subrange(i as int, i + vis_toks(u).len()) == vis_toks(u)
                    && may_follow_vis(u, t, i + vis_toks(u).len())
                implies e == body.len() && vis_toks(u) == vis_toks(v) && vis_toks(u).len() == 2 by {
                if u is Public {
                    assert(vis_toks(u)[0] == t[i as int]);
                }
                if let Visibility::Restricted { in_token, path: up, .. } = u {
                    assert(vis_toks(u)[0] == t[i as int]);
                    assert(vis_toks(u)[1] == t[i + 1]);
                    if in_token is None {
                        assert(b[0] == vis_toks(u)[1]->body[0]);
                    }
                    let k: int = 1 + toks_view(up@).len() as int;
                    assert(b.subrange(1, k) =~= toks_view(up@));
                    assert(b.subrange(k, b.len() as int) =~= Seq::<TokV>::empty());
                    assert(b =~= seq![b[0]] + b.subrange(1, e as int));
                    assert(vis_toks(u) =~= vis_toks(v));
                }
            }
        }
        return Ok((v, i + 2, left));
    }
    proof {
        assert forall|u: Visibility| #![trigger vis_toks(u)]
            wf_vis(u) && i + vis_toks(u).len() <= s@.len()
                && t.subrange(i as int, i + vis_toks(u).len()) == vis_toks(u)
                && may_follow_vis(u, t, i + vis_toks(u).len())
            implies false by {
            if u is Public {
                assert(vis_toks(u)[0] == t[i as int]);
            }
            if let Visibility::Restricted { in_token, path: up, .. } = u {
                assert(vis_toks(u)[1] == t[i + 1]);
                if let Some(it) = in_token {
                    assert(b[0] == it@);
                } else {
                    assert(b[0] == up@[0]@);
                }
            }
        }
    }
    Err(AttrError { expected: Expected::Identifier, at: Some(*span) })
}

/// `extern` with an optional ABI string.
pub struct Abi {
    pub extern_token: Tok,
    pub name: Option<Tok>,
}

/// Where the target is found in its module.
pub enum LookupTarget {
    /// `offset = [-]integer`
    Offset { keyword: Tok, eq: Tok, minus: Option<Tok>, value: Tok },
    /// `symbol = "name"`
    Symbol { keyword: Tok, eq: Tok, value: Tok },
}

/// The arguments of `#[hook(...)]`.
pub struct HookAttr {
    pub visibility: Visibility,
    pub unsafety: Option<Tok>,
    pub abi: Option<Abi>,
    pub detour_name: Tok,
    pub comma: Tok,
    pub target: LookupTarget,
    /// Whether the trailing `, chain` was given.
    pub chain: bool,
    /// The `,` and `chain` tokens when `chain` holds, else empty.
    pub chain_tokens: Vec<Tok>,
}

/// The arguments of `#[ptr(...)]`.
pub struct PtrAttr {
    pub target: LookupTarget,
}

pub open spec fn opt_tok(o: Option<Tok>) -> Seq<TokV> {
    match o {
        Some(t) => seq![t@],
        None => Seq::empty(),
    }
}

pub open spec fn abi_toks(a: Option<Abi>) -> Seq<TokV> {
    match a {
        Some(x) => seq![x.extern_token@] + opt_tok(x.name),
        None => Seq::empty(),
    }
}

pub open spec fn target_toks(x: LookupTarget) -> Seq<TokV> {
    match x {
        LookupTarget::Offset { keyword, eq, minus, value } => seq![keyword@, eq@] + opt_tok(minus) + seq![value@],
        LookupTarget::Symbol { keyword, eq, value } => seq![keyword@, eq@, value@],
    }
}

/// The tokens a `#[hook(...)]` argument list was read from.
pub open spec fn hook_toks(a: HookAttr) -> Seq<TokV> {
    vis_toks(a.visibility) + opt_tok(a.unsafety) + abi_toks(a.abi) + seq![a.detour_name@, a.comma@]
        + target_toks(a.target) + toks_view(a.chain_tokens@)
}

pub open spec fn wf_abi(a: Option<Abi>) -> bool {
    a matches Some(x) ==> is_ident_tok(x.extern_token@, "extern"@) && (x.name matches Some(n) ==> is_lit_tok(n@, LitKind::Str))
}

pub open spec fn wf_target(x: LookupTarget) -> bool {
    match x {
        LookupTarget::Offset { keyword, eq, minus, value } => {
            &&& is_ident_tok(keyword@, "offset"@)
            &&& is_punct_tok(eq@, '=')
            &&& (minus matches Some(m) ==> is_punct_tok(m@, '-'))
            &&& is_lit_tok(value@, LitKind::Int)
        },
        LookupTarget::Symbol { keyword, eq, value } => {
            &&& is_ident_tok(keyword@, "symbol"@)
            &&& is_punct_tok(eq@, '=')
            &&& is_lit_tok(value@, LitKind::Str)
        },
    }
}

/// Well-formed `#[hook(...)]` arguments.
pub open spec fn wf_hook(a: HookAttr) -> bool {
    &&& wf_vis(a.visibility)
    &&& (a.unsafety matches Some(u) ==> is_ident_tok(u@, "unsafe"@))
    &&& wf_abi(a.abi)
    &&& is_plain_ident(a.detour_name@)
    &&& is_punct_tok(a.comma@, ',')
    &&& wf_target(a.target)
    &&& if a.chain {
        a.chain_tokens@.len() == 2 && is_punct_tok(a.chain_tokens@[0]@, ',') && is_ident_tok(a.chain_tokens@[1]@, "chain"@)
    } else {
        a.chain_tokens@.len() == 0
    }
}

/// The error reading a lookup target at `i` of `t` gives, or `None` where one
/// stands there: the first of the keyword, the `=` and the literal that is
/// missing, at the token found in its place.
pub open spec fn target_error(t: Seq<TokV>, i: int) -> Option<AttrError> {
    if !(0 <= i < t.len() && (is_ident_tok(t[i], "offset"@) || is_ident_tok(t[i], "symbol"@))) {
        Some(err_at(Expected::OffsetOrSymbol, t, i))
    } else if !(i + 1 < t.len() && is_punct_tok(t[i + 1], '=')) {
        Some(err_at(Expected::Equals, t, i + 1))
    } else if is_ident_tok(t[i], "symbol"@) {
        if i + 2 < t.len() && is_lit_tok(t[i + 2], LitKind::Str) {
            None
        } else {
            Some(err_at(Expected::StringLiteral, t, i + 2))
        }
    } else if i + 2 < t.len() && is_lit_tok(t[i + 2], LitKind::Int) {
        None
    } else if i + 3 < t.len() && is_punct_tok(t[i + 2], '-') && is_lit_tok(t[i + 3], LitKind::Int) {
        None
    } else {
        Some(err_at(Expected::IntegerLiteral, t, i + 2))
    }
}

/// How many tokens the lookup target at `i` of `t` takes: four for
/// `offset = - N`, else three.
pub open spec fn target_len(t: Seq<TokV>, i: int) -> int {
    if is_ident_tok(t[i], "offset"@) && !is_lit_tok(t[i + 2], LitKind::Int) {
        4
    } else {
        3
    }
}

impl LookupTarget {
    /// Parses a lookup target (`offset = [-]integer` or `symbol = "name"`)
    /// starting at position `i` of `s`; on success also returns where it ends.
    pub fn parse(s: &Vec<Tok>, i: usize) -> (r: Result<(LookupTarget, usize), AttrError>)
        requires
            i <= s@.len(),
        ensures
            r matches Ok((x, j)) ==> i <= j <= s@.len() && wf_target(x)
                && target_toks(x) == toks_view(s@).subrange(i as int, j as int),
            forall|x: LookupTarget| #![trigger target_toks(x)]
                wf_target(x) && i + target_toks(x).len() <= s@.len()
                    && toks_view(s@).subrange(i as int, i + target_toks(x).len()) == target_toks(x)
                    ==> (r matches Ok((y, j)) && j == i + target_toks(x).len() && target_toks(y) == target_toks(x)),
            r matches Err(e) ==> target_error(toks_view(s@), i as int) == Some(e),
            r matches Ok((x, j)) ==> target_error(toks_view(s@), i as int) is None && j == i + target_len(toks_view(s@), i as int),
    {
        let ghost t = toks_view(s@);
        proof {
            lemma_distinct_words();
        }
        let n = s.len();
        let at = if i < n { Some(s[i].span()) } else { None };
        let is_offset = i < n && s[i].is_ident("offset");
        let is_symbol = i < n && s[i].is_ident("symbol");
        if !is_offset && !is_symbol {
            proof {
                assert forall|x: LookupTarget| #![trigger target_toks(x)]
                    wf_target(x) && i + target_toks(x).len() <= s@.len()
                        && t.subrange(i as int, i + target_toks(x).len()) == target_toks(x)
                    implies false by {
                    assert(target_toks(x)[0] == t[i as int]);
                }
            }
            return Err(AttrError { expected: Expected::OffsetOrSymbol, at });
        }
        if !(n - i >= 2 && s[i + 1].is_punct('=')) {
            let at = if n - i >= 2 { Some(s[i + 1].span()) } else { None };
            proof {
                assert forall|x: LookupTarget| #![trigger target_toks(x)]
                    wf_target(x) && i + target_toks(x).len() <= s@.len()
                        && t.subrange(i as int, i + target_toks(x).len()) == target_toks(x)
                    implies false by {
                    assert(target_toks(x)[1] == t[i + 1]);
                }
            }
            return Err(AttrError { expected: Expected::Equals, at });
        }
        if is_symbol {
            if !(n - i >= 3 && s[i + 2].is_lit(LitKind::Str)) {
                let at = if n - i >= 3 { Some(s[i + 2].span()) } else { None };
                proof {
                    assert forall|x: LookupTarget| #![trigger target_toks(x)]
                        wf_target(x) && i + target_toks(x).len() <= s@.len()
                            && t.subrange(i as int, i + target_toks(x).len()) == target_toks(x)
                        implies false by {
                        lemma_distinct_words();
                        assert(target_toks(x)[0] == t[i as int]);
                        assert(target_toks(x)[2] == t[i + 2]);
                    }
                }
                return Err(AttrError { expected: Expected::StringLiteral, at });
            }
            let x = LookupTarget::Symbol { keyword: s[i].copy(), eq: s[i + 1].copy(), value: s[i + 2].copy() };
            proof {
                assert(target_toks(x) =~= t.subrange(i as int, i + 3));
                assert forall|y: LookupTarget| #![trigger target_toks(y)]
                    wf_target(y) && i + target_toks(y).len() <= s@.len()
                        && t.subrange(i as int, i + target_toks(y).len()) == target_toks(y)
                    implies target_toks(y) == target_toks(x) by {
                    assert(target_toks(y)[0] == t[i as int]);
                    assert(target_toks(y) =~= target_toks(x));
                }
            }
            return Ok((x, i + 3));
        }
        if n - i >= 3 && s[i + 2].is_lit(LitKind::Int) {
            let x = LookupTarget::Offset { keyword: s[i].copy(), eq: s[i + 1].copy(), minus: None, value: s[i + 2].copy() };
            proof {
                assert(target_toks(x) =~= t.subrange(i as int, i + 3));
                assert forall|y: LookupTarget| #![trigger target_toks(y)]
                    wf_target(y) && i + target_toks(y).len() <= s@.len()
                        && t.subrange(i as int, i + target_toks(y).len()) == target_toks(y)
                    implies target_toks(y) == target_toks(x) by {
                    assert(target_toks(y)[0] == t[i as int]);
                    assert(target_toks(y)[2] == t[i + 2]);
                    assert(target_toks(y) =~= target_toks(x));
                }
            }
            return Ok((x, i + 3));
        }
        if n - i >= 4 && s[i + 2].is_punct('-') && s[i + 3].is_lit(LitKind::Int) {
            let x = LookupTarget::Offset {
                keyword: s[i].copy(),
                eq: s[i + 1].copy(),
                minus: Some(s[i + 2].copy()),
                value: s[i + 3].copy(),
            };
            proof {
                assert(target_toks(x) =~= t.subrange(i as int, i + 4));
                assert forall|y: LookupTarget| #![trigger target_toks(y)]
                    wf_target(y) && i + target_toks(y).len() <= s@.len()
                        && t.subrange(i as int, i + target_toks(y).len()) == target_toks(y)
                    implies target_toks(y) == target_toks(x) by {
                    assert(target_toks(y)[0] == t[i as int]);
                    assert(target_toks(y)[2] == t[i + 2]);
                    assert(target_toks(y) =~= target_toks(x));
                }
            }
            return Ok((x, i + 4));
        }
        let at = if n - i >= 3 { Some(s[i + 2].span()) } else { None };
        proof {
            assert forall|x: LookupTarget| #![trigger target_toks(x)]
                wf_target(x) && i + target_toks(x).len() <= s@.len()
                    && t.subrange(i as int, i + target_toks(x).len()) == target_toks(x)
                implies false by {
                assert(target_toks(x)[0] == t[i as int]);
                assert(target_toks(x)[2] == t[i + 2]);
                if target_toks(x).len() == 4 {
                    assert(target_toks(x)[3] == t[i + 3]);
                }
            }
        }
        Err(AttrError { expected: Expected::IntegerLiteral, at })
    }
}

/// The words of this grammar are spelled differently from one another.
pub proof fn lemma_distinct_words()
    ensures
        "offset"@ != "symbol"@,
        "unsafe"@ != "extern"@,
        "pub"@ != "unsafe"@,
        "pub"@ != "extern"@,
        "in"@ != "crate"@,
        "in"@ != "self"@,
        "in"@ != "super"@,
{
    reveal_strlit("offset");
    reveal_strlit("symbol");
    reveal_strlit("unsafe");
    reveal_strlit("extern");
    reveal_strlit("pub");
    reveal_strlit("in");
    reveal_strlit("crate");
    reveal_strlit("self");
    reveal_strlit("super");
    assert("offset"@[0] != "symbol"@[0]);
    assert("unsafe"@[0] != "extern"@[0]);
    assert("pub"@[0] != "unsafe"@[0]);
    assert("pub"@[0] != "extern"@[0]);
    assert("in"@[0] != "crate"@[0]);
    assert("in"@[0] != "self"@[0]);
    assert("in"@[0] != "super"@[0]);
}

/// Whether `t` is the printing of some well-formed `#[hook(...)]` arguments.
pub open spec fn prints_hook(t: Seq<TokV>) -> bool {
    exists|a: HookAttr| wf_hook(a) && hook_toks(a) == t
}

spec fn hook_witness(t: Seq<TokV>) -> HookAttr {
    choose|a: HookAttr| wf_hook(a) && hook_toks(a) == t
}

/// Number of tokens before the detour name.
spec fn head_len(a: HookAttr) -> int {
    (vis_toks(a.visibility).len() + opt_tok(a.unsafety).len() + abi_toks(a.abi).len()) as int
}

/// Where the parts before the detour name stand in the printing.
proof fn lemma_head_layout(a: HookAttr, t: Seq<TokV>)
    requires
        wf_hook(a),
        hook_toks(a) == t,
    ensures
        ({
            let k1 = vis_toks(a.visibility).len() as int;
            let k2 = k1 + opt_tok(a.unsafety).len();
            &&& head_len(a) + 2 <= t.len()
            &&& t.subrange(0, k1) == vis_toks(a.visibility)
            &&& may_follow_vis(a.visibility, t, k1)
            &&& (a.unsafety is Some) == (k1 < t.len() && is_ident_tok(t[k1], "unsafe"@))
            &&& (a.abi is Some) == (k2 < t.len() && is_ident_tok(t[k2], "extern"@))
            &&& (a.abi matches Some(x) ==> (x.name is Some) == (k2 + 1 < t.len() && is_lit_tok(t[k2 + 1], LitKind::Str)))
        }),
{
    lemma_distinct_words();
    let v = vis_toks(a.visibility);
    let u = opt_tok(a.unsafety);
    let b = abi_toks(a.abi);
    let m = seq![a.detour_name@, a.comma@];
    let x = target_toks(a.target);
    let c = toks_view(a.chain_tokens@);
    let k1 = v.len() as int;
    let k2 = k1 + u.len();
    assert(t == v + u + b + m + x + c);
    assert(t.subrange(0, k1) =~= v);
    if u.len() == 1 {
        assert(t[k1] == u[0]);
    } else if b.len() >= 1 {
        assert(t[k1] == b[0]);
    } else {
        assert(t[k1] == m[0]);
    }
    if b.len() >= 1 {
        assert(t[k2] == b[0]);
        if b.len() == 2 {
            assert(t[k2 + 1] == b[1]);
        } else {
            assert(t[k2 + 1] == m[0]);
        }
    } else {
        assert(t[k2] == m[0]);
    }
}

/// Where the detour name and the parts after it stand in the printing.
proof fn lemma_tail_layout(a: HookAttr, t: Seq<TokV>)
    requires
        wf_hook(a),
        hook_toks(a) == t,
    ensures
        ({
            let k3 = head_len(a);
            let k4 = k3 + 2 + target_toks(a.target).len();
            &&& k4 <= t.len()
            &&& t[k3] == a.detour_name@
            &&& t[k3 + 1] == a.comma@
            &&& t.subrange(k3 + 2, k4) == target_toks(a.target)
            &&& (a.chain ==> k4 + 2 == t.len() && t[k4] == a.chain_tokens@[0]@ && t[k4 + 1] == a.chain_tokens@[1]@)
            &&& (!a.chain ==> k4 == t.len())
        }),
{
    let v = vis_toks(a.visibility);
    let u = opt_tok(a.unsafety);
    let b = abi_toks(a.abi);
    let m = seq![a.detour_name@, a.comma@];
    let x = target_toks(a.target);
    let c = toks_view(a.chain_tokens@);
    let k3 = head_len(a);
    let k4 = k3 + 2 + x.len();
    assert(t == v + u + b + m + x + c);
    assert(t[k3] == m[0]);
    assert(t[k3 + 1] == m[1]);
    assert(t.subrange(k3 + 2, k4) =~= x);
    if a.chain {
        assert(t[k4] == c[0]);
        assert(t[k4 + 1] == c[1]);
    }
}

/// Where the visibility, `unsafe` and `extern ["abi"]` at the start of `t` end.
pub open spec fn head_end(t: Seq<TokV>) -> int {
    let k1 = vis_len(t, 0);
    let k2 = if k1 < t.len() && is_ident_tok(t[k1], "unsafe"@) { k1 + 1 } else { k1 };
    if k2 < t.len() && is_ident_tok(t[k2], "extern"@) {
        if k2 + 1 < t.len() && is_lit_tok(t[k2 + 1], LitKind::Str) { k2 + 2 } else { k2 + 1 }
    } else {
        k2
    }
}

/// The error reading `#[hook(...)]` arguments `t` gives: that of the
/// visibility; else of the detour name (a keyword is refused as one), the
/// `,` after it, the lookup target; else the first token after the path of
/// `pub(in path ...)`; else the first token after the target and an
/// optional `, chain`.
pub open spec fn hook_error(t: Seq<TokV>) -> AttrError {
    let k = head_end(t);
    if vis_error(t, 0) is Some {
        vis_error(t, 0)->0
    } else if !(k < t.len() && is_plain_ident(t[k])) {
        err_at(if k < t.len() && t[k] is Ident { Expected::IdentifierNotKeyword } else { Expected::Identifier }, t, k)
    } else if !(k + 1 < t.len() && is_punct_tok(t[k + 1], ',')) {
        err_at(Expected::Comma, t, k + 1)
    } else if target_error(t, k + 2) is Some {
        target_error(t, k + 2)->0
    } else if vis_leftover(t, 0) is Some {
        AttrError { expected: Expected::EndOfArguments, at: vis_leftover(t, 0) }
    } else {
        let j = k + 2 + target_len(t, k + 2);
        let e = if j + 1 < t.len() && is_punct_tok(t[j], ',') && is_ident_tok(t[j + 1], "chain"@) { j + 2 } else { j };
        err_at(Expected::EndOfArguments, t, e)
    }
}

/// The error reading `#[ptr(...)]` arguments `t` gives: that of the lookup
/// target, else the first token after it.
pub open spec fn ptr_error(t: Seq<TokV>) -> AttrError {
    if target_error(t, 0) is Some {
        target_error(t, 0)->0
    } else {
        err_at(Expected::EndOfArguments, t, target_len(t, 0))
    }
}

/// Parses the visibility, `unsafe` and ABI at the start of the arguments.
fn parse_hook_head(s: &Vec<Tok>) -> (r: Result<(Visibility, Option<Tok>, Option<Abi>, usize, Option<usize>), AttrError>)
    ensures
        r matches Err(e) ==> vis_error(toks_view(s@), 0) == Some(e),
        r matches Ok((v, u, b, k, p)) ==> {
            &&& vis_error(toks_view(s@), 0) is None
            &&& k == head_end(toks_view(s@))
            &&& p == vis_leftover(toks_view(s@), 0)
            &&& k <= s@.len()
            &&& wf_vis(v)
            &&& (u matches Some(x) ==> is_ident_tok(x@, "unsafe"@))
            &&& wf_abi(b)
            &&& (p is None ==> vis_toks(v) + opt_tok(u) + abi_toks(b) == toks_view(s@).subrange(0, k as int))
            &&& (prints_hook(toks_view(s@)) ==> p is None && k == head_len(hook_witness(toks_view(s@))))
        },
        r is Err ==> !prints_hook(toks_view(s@)),
{
    let ghost t = toks_view(s@);
    proof {
        if prints_hook(t) {
            lemma_head_layout(hook_witness(t), t);
        }
    }
    let n = s.len();
    let (visibility, i1, leftover) = match parse_vis(s, 0) {
        Ok(p) => p,
        Err(e) => {
            return Err(e);
        },
    };
    let (unsafety, i2) = if i1 < n && s[i1].is_ident("unsafe") {
        (Some(s[i1].copy()), i1 + 1)
    } else {
        (None, i1)
    };
    let mut i3 = i2;
    let abi = if i2 < n && s[i2].is_ident("extern") {
        let extern_token = s[i2].copy();
        let name = if n - i2 >= 2 && s[i2 + 1].is_lit(LitKind::Str) {
            i3 = i2 + 2;
            Some(s[i2 + 1].copy())
        } else {
            i3 = i2 + 1;
            None
        };
        Some(Abi { extern_token, name })
    } else {
        None
    };
    proof {
        assert(opt_tok(unsafety) =~= t.subrange(i1 as int, i2 as int));
        assert(abi_toks(abi) =~= t.subrange(i2 as int, i3 as int));
        assert(t.subrange(0, i3 as int) =~= t.subrange(0, i1 as int) + t.subrange(i1 as int, i2 as int)
            + t.subrange(i2 as int, i3 as int));
    }
    Ok((visibility, unsafety, abi, i3, leftover))
}

impl HookAttr {
    /// Parses the arguments of `#[hook(...)]`: succeeds exactly when `s` is the
    /// printing of well-formed arguments, and what it returns prints back to `s`.
    pub fn parse(s: &Vec<Tok>) -> (r: Result<HookAttr, AttrError>)
        ensures
            r matches Ok(a) ==> wf_hook(a) && hook_toks(a) == toks_view(s@),
            r matches Ok(a) ==> a.chain == ends_with_chain(toks_view(s@)),
            prints_hook(toks_view(s@)) ==> r is Ok,
            r matches Err(e) ==> e == hook_error(toks_view(s@)),
    {
        let ghost t = toks_view(s@);
        proof {
            if prints_hook(t) {
                lemma_tail_layout(hook_witness(t), t);
            }
        }
        let n = s.len();
        let (visibility, unsafety, abi, i3, leftover) = match parse_hook_head(s) {
            Ok(h) => h,
            Err(e) => {
                return Err(e);
            },
        };
        if !(i3 < n && s[i3].is_plain_ident()) {
            let expected = if i3 < n && s[i3].is_any_ident() { Expected::IdentifierNotKeyword } else { Expected::Identifier };
            let at = if i3 < n { Some(s[i3].span()) } else { None };
            return Err(AttrError { expected, at });
        }
        if !(n - i3 >= 2 && s[i3 + 1].is_punct(',')) {
            let at = if n - i3 >= 2 { Some(s[i3 + 1].span()) } else { None };
            return Err(AttrError { expected: Expected::Comma, at });
        }
        let detour_name = s[i3].copy();
        let comma = s[i3 + 1].copy();
        let (target, i4) = match LookupTarget::parse(s, i3 + 2) {
            Ok(p) => p,
            Err(e) => {
                proof {
                    if prints_hook(t) {
                        let x = target_toks(hook_witness(t).target);
                        assert(t.subrange(i3 + 2, i3 + 2 + x.len()) == x);
                    }
                }
                return Err(e);
            },
        };
        if let Some(sp) = leftover {
            return Err(AttrError { expected: Expected::EndOfArguments, at: Some(sp) });
        }
        let chain = n - i4 >= 2 && s[i4].is_punct(',') && s[i4 + 1].is_ident("chain");
        let mut chain_tokens: Vec<Tok> = Vec::new();
        let i5 = if chain {
            chain_tokens.push(s[i4].copy());
            chain_tokens.push(s[i4 + 1].copy());
            i4 + 2
        } else {
            i4
        };
        if i5 != n {
            proof {
                if prints_hook(t) {
                    let x = target_toks(hook_witness(t).target);
                    assert(t.subrange(i3 + 2, i3 + 2 + x.len()) == x);
                }
            }
            return Err(AttrError { expected: Expected::EndOfArguments, at: Some(s[i5].span()) });
        }
        let a = HookAttr { visibility, unsafety, abi, detour_name, comma, target, chain, chain_tokens };
        proof {
            assert(toks_view(a.chain_tokens@) =~= t.subrange(i4 as int, i5 as int));
            assert(seq![a.detour_name@, a.comma@] =~= t.subrange(i3 as int, i3 + 2));
            assert(hook_toks(a) =~= t.subrange(0, i3 as int) + t.subrange(i3 as int, i3 + 2)
                + t.subrange(i3 + 2, i4 as int) + t.subrange(i4 as int, i5 as int));
            assert(hook_toks(a) =~= t);
            lemma_chain_marker(a);
        }
        Ok(a)
    }
}

impl PtrAttr {
    /// Parses the arguments of `#[ptr(...)]`: succeeds exactly when `s` is the
    /// printing of a well-formed lookup target, and what it returns prints back to `s`.
    pub fn parse(s: &Vec<Tok>) -> (r: Result<PtrAttr, AttrError>)
        ensures
            r matches Ok(p) ==> wf_target(p.target) && target_toks(p.target) == toks_view(s@),
            (exists|x: LookupTarget| wf_target(x) && target_toks(x) == toks_view(s@)) ==> r is Ok,
            r matches Err(e) ==> e == ptr_error(toks_view(s@)),
    {
        let ghost t = toks_view(s@);
        let (target, j) = match LookupTarget::parse(s, 0) {
            Ok(p) => p,
            Err(e) => {
                proof {
                    if exists|x: LookupTarget| wf_target(x) && target_toks(x) == t {
                        let x = choose|x: LookupTarget| wf_target(x) && target_toks(x) == t;
                        assert(t.subrange(0, target_toks(x).len() as int) =~= t);
                    }
                }
                return Err(e);
            },
        };
        if j != s.len() {
            proof {
                if exists|x: LookupTarget| wf_target(x) && target_toks(x) == t {
                    let x = choose|x: LookupTarget| wf_target(x) && target_toks(x) == t;
                    assert(t.subrange(0, target_toks(x).len() as int) =~= t);
                }
            }
            return Err(AttrError { expected: Expected::EndOfArguments, at: Some(s[j].span()) });
        }
        proof {
            assert(t.subrange(0, j as int) =~= t);
        }
        Ok(PtrAttr { target })
    }
}

/// Whether an argument list ends with the `chain` marker.
pub open spec fn ends_with_chain(t: Seq<TokV>) -> bool {
    t.len() > 0 && is_ident_tok(t.last(), "chain"@)
}

/// In well-formed arguments, `chain` is set exactly when the printing ends with the `chain` marker.
pub proof fn lemma_chain_marker(a: HookAttr)
    requires
        wf_hook(a),
    ensures
        a.chain == ends_with_chain(hook_toks(a)),
{
    let t = hook_toks(a);
    let pre = vis_toks(a.visibility) + opt_tok(a.unsafety) + abi_toks(a.abi) + seq![a.detour_name@, a.comma@];
    let x = target_toks(a.target);
    let c = toks_view(a.chain_tokens@);
    assert(t == pre + x + c);
    if a.chain {
        assert(t.last() == c[1]);
    } else {
        assert(c.len() == 0);
        assert(t.last() == x.last());
    }
}

impl Visibility {
    /// The tokens of this visibility.
    pub fn to_tokens(&self) -> (r: Vec<Tok>)
        ensures
            toks_view(r@) == vis_toks(*self),
    {
        let mut r: Vec<Tok> = Vec::new();
        match self {
            Visibility::Inherited => {},
            Visibility::Public { pub_token } => {
                r.push(pub_token.copy());
            },
            Visibility::Restricted { pub_token, paren_span, in_token, path } => {
                r.push(pub_token.copy());
                let mut body: Vec<Tok> = Vec::new();
                match in_token {
                    Some(t) => body.push(t.copy()),
                    None => {},
                }
                let ghost b0 = body@;
                crate::tokens::extend_toks(&mut body, path);
                let ghost head = match in_token {
                    Some(t) => seq![t@],
                    None => Seq::<TokV>::empty(),
                };
                assert(toks_view(b0) =~= head);
                r.push(Tok::Group { delim: Delim::Paren, body, span: *paren_span });
            },
        }
        assert(toks_view(r@) =~= vis_toks(*self));
        r
    }
}

impl Abi {
    /// A copy of this ABI.
    pub fn copy(&self) -> (r: Abi)
        ensures
            abi_toks(Some(r)) == abi_toks(Some(*self)),
            (r.name is Some) == (self.name is Some),
    {
        Abi {
            extern_token: self.extern_token.copy(),
            name: match &self.name {
                Some(n) => Some(n.copy()),
                None => None,
            },
        }
    }
}

impl LookupTarget {
    /// The tokens of the target's value: `[-]integer` or `"symbol"`.
    pub open spec fn spec_value_toks(&self) -> Seq<TokV> {
        match self {
            LookupTarget::Offset { minus, value, .. } => opt_tok(*minus) + seq![value@],
            LookupTarget::Symbol { value, .. } => seq![value@],
        }
    }

    /// The tokens of the target's value: `[-]integer` or `"symbol"`.
    pub fn value_tokens(&self) -> (r: Vec<Tok>)
        ensures
            toks_view(r@) == self.spec_value_toks(),
    {
        let mut r: Vec<Tok> = Vec::new();
        match self {
            LookupTarget::Offset { minus, value, .. } => {
                match minus {
                    Some(m) => r.push(m.copy()),
                    None => {},
                }
                r.push(value.copy());
            },
            LookupTarget::Symbol { value, .. } => {
                r.push(value.copy());
            },
        }
        assert(toks_view(r@) =~= self.spec_value_toks());
        r
    }
}

} // verus!
