//! A plain-value model of the tokens a procedural macro receives and emits.
//! Every token carries `span`, an index into the caller's table of source
//! positions, so that tokens can be turned back into real tokens where they came from.
use vstd::prelude::*;
use crate::text::text_is;

verus! {

/// Delimiter of a token group.
#[derive(PartialEq, Eq, Structural, Clone, Copy, Debug)]
pub enum Delim {
    Paren,
    Bracket,
    Brace,
}

/// What kind of literal a literal token spells.
#[derive(PartialEq, Eq, Structural, Clone, Copy, Debug)]
pub enum LitKind {
    Str,
    ByteStr,
    CStr,
    Byte,
    Char,
    Int,
    Float,
    Other,
}

/// One token tree.
pub enum Tok {
    Ident { text: Vec<char>, span: usize },
    Punct { ch: char, joint: bool, span: usize },
    Lit { kind: LitKind, text: Vec<char>, span: usize },
    Group { delim: Delim, body: Vec<Tok>, span: usize },
}

/// The mathematical value of a token tree.
pub enum TokV {
    Ident { text: Seq<char>, span: usize },
    Punct { ch: char, joint: bool, span: usize },
    Lit { kind: LitKind, text: Seq<char>, span: usize },
    Group { delim: Delim, body: Seq<TokV>, span: usize },
}

/// The value of a token tree.
pub open spec fn tok_view(t: Tok) -> TokV
    decreases t,
{
    match t {
        Tok::Ident { text, span } => TokV::Ident { text: text@, span },
        Tok::Punct { ch, joint, span } => TokV::Punct { ch, joint, span },
        Tok::Lit { kind, text, span } => TokV::Lit { kind, text: text@, span },
        Tok::Group { delim, body, span } => TokV::Group { delim, body: toks_view(body@), span },
    }
}

/// The values of a sequence of token trees.
pub open spec fn toks_view(s: Seq<Tok>) -> Seq<TokV>
    decreases s,
{
    Seq::new(
        s.len(),
        |i: int|
            if 0 <= i < s.len() {
                tok_view(s[i])
            } else {
                TokV::Punct { ch: ' ', joint: false, span: 0 }
            },
    )
}

impl View for Tok {
    type V = TokV;

    open spec fn view(&self) -> TokV {
        tok_view(*self)
    }
}

/// Whether `t` is an identifier spelled `w`.
pub open spec fn is_ident_tok(t: TokV, w: Seq<char>) -> bool {
    t matches TokV::Ident { text, .. } && text == w
}

/// Whether `t` is the punctuation character `c`.
pub open spec fn is_punct_tok(t: TokV, c: char) -> bool {
    t matches TokV::Punct { ch, .. } && ch == c
}

/// Whether `t` is a literal of kind `k`.
pub open spec fn is_lit_tok(t: TokV, k: LitKind) -> bool {
    t matches TokV::Lit { kind, .. } && kind == k
}

/// Whether `t` is a group delimited by `d`.
pub open spec fn is_group_tok(t: TokV, d: Delim) -> bool {
    t matches TokV::Group { delim, .. } && delim == d
}

/// The span index of a token.
pub open spec fn span_of(t: TokV) -> usize {
    match t {
        TokV::Ident { span, .. } => span,
        TokV::Punct { span, .. } => span,
        TokV::Lit { span, .. } => span,
        TokV::Group { span, .. } => span,
    }
}

/// Words that are refused as a plain identifier.
pub open spec fn is_keyword(w: Seq<char>) -> bool {
    ||| w == "_"@ ||| w == "abstract"@ ||| w == "as"@ ||| w == "async"@ ||| w == "await"@
    ||| w == "become"@ ||| w == "box"@ ||| w == "break"@ ||| w == "const"@ ||| w == "continue"@
    ||| w == "crate"@ ||| w == "do"@ ||| w == "dyn"@ ||| w == "else"@ ||| w == "enum"@
    ||| w == "extern"@ ||| w == "false"@ ||| w == "final"@ ||| w == "fn"@ ||| w == "for"@
    ||| w == "if"@ ||| w == "impl"@ ||| w == "in"@ ||| w == "let"@ ||| w == "loop"@
    ||| w == "macro"@ ||| w == "match"@ ||| w == "mod"@ ||| w == "move"@ ||| w == "mut"@
    ||| w == "override"@ ||| w == "priv"@ ||| w == "pub"@ ||| w == "ref"@ ||| w == "return"@
    ||| w == "Self"@ ||| w == "self"@ ||| w == "static"@ ||| w == "struct"@ ||| w == "super"@
    ||| w == "trait"@ ||| w == "true"@ ||| w == "try"@ ||| w == "type"@ ||| w == "typeof"@
    ||| w == "unsafe"@ ||| w == "unsized"@ ||| w == "use"@ ||| w == "virtual"@ ||| w == "where"@
    ||| w == "while"@ ||| w == "yield"@
}

/// Whether `t` is an identifier that is not a keyword.
pub open spec fn is_plain_ident(t: TokV) -> bool {
    t matches TokV::Ident { text, .. } && !is_keyword(text)
}

/// Whether `w` is a keyword (see [`is_keyword`]).
pub fn keyword(w: &Vec<char>) -> (r: bool)
    ensures
        r == is_keyword(w@),
{
    text_is(w, "_") || text_is(w, "abstract") || text_is(w, "as") || text_is(w, "async")
        || text_is(w, "await") || text_is(w, "become") || text_is(w, "box") || text_is(w, "break")
        || text_is(w, "const") || text_is(w, "continue") || text_is(w, "crate") || text_is(w, "do")
        || text_is(w, "dyn") || text_is(w, "else") || text_is(w, "enum") || text_is(w, "extern")
        || text_is(w, "false") || text_is(w, "final") || text_is(w, "fn") || text_is(w, "for")
        || text_is(w, "if") || text_is(w, "impl") || text_is(w, "in") || text_is(w, "let")
        || text_is(w, "loop") || text_is(w, "macro") || text_is(w, "match") || text_is(w, "mod")
        || text_is(w, "move") || text_is(w, "mut") || text_is(w, "override") || text_is(w, "priv")
        || text_is(w, "pub") || text_is(w, "ref") || text_is(w, "return") || text_is(w, "Self")
        || text_is(w, "self") || text_is(w, "static") || text_is(w, "struct") || text_is(w, "super")
        || text_is(w, "trait") || text_is(w, "true") || text_is(w, "try") || text_is(w, "type")
        || text_is(w, "typeof") || text_is(w, "unsafe") || text_is(w, "unsized") || text_is(w, "use")
        || text_is(w, "virtual") || text_is(w, "where") || text_is(w, "while") || text_is(w, "yield")
}

impl Tok {
    /// Whether this token is an identifier spelled `w`.
    pub fn is_ident(&self, w: &str) -> (r: bool)
        ensures
            r == is_ident_tok(self@, w@),
    {
        match self {
            Tok::Ident { text, .. } => text_is(text, w),
            _ => false,
        }
    }

    /// Whether this token is the punctuation character `c`.
    pub fn is_punct(&self, c: char) -> (r: bool)
        ensures
            r == is_punct_tok(self@, c),
    {
        match self {
            Tok::Punct { ch, .. } => *ch == c,
            _ => false,
        }
    }

    /// Whether this token is a joint punctuation character `c` (the first half of `::`).
    pub fn is_joint_punct(&self, c: char) -> (r: bool)
        ensures
            r == (self@ matches TokV::Punct { ch, joint, .. } && ch == c && joint),
    {
        match self {
            Tok::Punct { ch, joint, .. } => *ch == c && *joint,
            _ => false,
        }
    }

    /// Whether this token is a literal of kind `k`.
    pub fn is_lit(&self, k: LitKind) -> (r: bool)
        ensures
            r == is_lit_tok(self@, k),
    {
        match self {
            Tok::Lit { kind, .. } => *kind == k,
            _ => false,
        }
    }

    /// Whether this token is a group delimited by `d`.
    pub fn is_group(&self, d: Delim) -> (r: bool)
        ensures
            r == is_group_tok(self@, d),
    {
        match self {
            Tok::Group { delim, .. } => *delim == d,
            _ => false,
        }
    }

    /// Whether this token is an identifier.
    pub fn is_any_ident(&self) -> (r: bool)
        ensures
            r == (self@ is Ident),
    {
        match self {
            Tok::Ident { .. } => true,
            _ => false,
        }
    }

    /// Whether this token is an identifier that is not a keyword.
    pub fn is_plain_ident(&self) -> (r: bool)
        ensures
            r == is_plain_ident(self@),
    {
        match self {
            Tok::Ident { text, .. } => !keyword(text),
            _ => false,
        }
    }

    /// The span index of this token.
    pub fn span(&self) -> (r: usize)
        ensures
            r == span_of(self@),
    {
        match self {
            Tok::Ident { span, .. } => *span,
            Tok::Punct { span, .. } => *span,
            Tok::Lit { span, .. } => *span,
            Tok::Group { span, .. } => *span,
        }
    }

    /// A copy of this token tree.
    pub fn copy(&self) -> (r: Tok)
        ensures
            r@ == self@,
        decreases self,
    {
        match self {
            Tok::Ident { text, span } => {
                let c = text.clone();
                assert(c@ =~= text@);
                Tok::Ident { text: c, span: *span }
            },
            Tok::Punct { ch, joint, span } => Tok::Punct { ch: *ch, joint: *joint, span: *span },
            Tok::Lit { kind, text, span } => {
                let c = text.clone();
                assert(c@ =~= text@);
                Tok::Lit { kind: *kind, text: c, span: *span }
            },
            Tok::Group { delim, body, span } => {
                let b = copy_toks(body);
                Tok::Group { delim: *delim, body: b, span: *span }
            },
        }
    }
}

/// A copy of a token sequence.
pub fn copy_toks(v: &Vec<Tok>) -> (r: Vec<Tok>)
    ensures
        toks_view(r@) == toks_view(v@),
    decreases v,
{
    let mut r: Vec<Tok> = Vec::new();
    let mut i: usize = 0;
    while i < v.len()
        invariant
            i <= v@.len(),
            r@.len() == i,
            forall|j: int| 0 <= j < i ==> tok_view(#[trigger] r@[j]) == tok_view(v@[j]),
        decreases v@.len() - i,
    {
        assert(decreases_to!(v => v@[i as int]));
        r.push(v[i].copy());
        i = i + 1;
    }
    assert(toks_view(r@) =~= toks_view(v@));
    r
}

/// Appends a copy of `src` to `dst`.
pub fn extend_toks(dst: &mut Vec<Tok>, src: &Vec<Tok>)
    ensures
        toks_view(final(dst)@) == toks_view(old(dst)@) + toks_view(src@),
{
    let ghost d0 = dst@;
    let mut i: usize = 0;
    while i < src.len()
        invariant
            i <= src@.len(),
            dst@.len() == d0.len() + i,
            forall|j: int| 0 <= j < d0.len() ==> tok_view(#[trigger] dst@[j]) == tok_view(d0[j]),
            forall|j: int| 0 <= j < i ==> tok_view(#[trigger] dst@[d0.len() + j]) == tok_view(src@[j]),
        decreases src@.len() - i,
    {
        dst.push(src[i].copy());
        i = i + 1;
    }
    assert forall|k: int| 0 <= k < dst@.len() implies #[trigger] toks_view(dst@)[k] == (toks_view(d0) + toks_view(src@))[k] by {
        if k >= d0.len() {
            assert(tok_view(dst@[d0.len() + (k - d0.len())]) == tok_view(src@[k - d0.len()]));
        }
    }
    assert(toks_view(dst@) =~= toks_view(d0) + toks_view(src@));
}

/// Appends a copy of one token to `dst`.
pub fn push_tok(dst: &mut Vec<Tok>, t: &Tok)
    ensures
        toks_view(final(dst)@) == toks_view(old(dst)@).push(t@),
{
    let ghost d0 = dst@;
    dst.push(t.copy());
    assert(toks_view(dst@) =~= toks_view(d0).push(t@));
}

/// Identifier `t` with `pre` written before and `post` after its text (same span).
pub open spec fn affixed(t: TokV, pre: Seq<char>, post: Seq<char>) -> TokV {
    match t {
        TokV::Ident { text, span } => TokV::Ident { text: pre + text + post, span },
        _ => t,
    }
}

/// Identifier `t` with `pre` written before and `post` after its text (same span).
pub fn affix_ident(t: &Tok, pre: &str, post: &str) -> (r: Tok)
    ensures
        r@ == affixed(t@, pre@, post@),
{
    match t {
        Tok::Ident { text, span } => {
            let mut v: Vec<char> = Vec::new();
            crate::text::push_str(&mut v, pre);
            let mut j: usize = 0;
            while j < text.len()
                invariant
                    j <= text@.len(),
                    v@ == pre@ + text@.subrange(0, j as int),
                decreases text@.len() - j,
            {
                v.push(text[j]);
                j = j + 1;
                assert(v@ =~= pre@ + text@.subrange(0, j as int));
            }
            crate::text::push_str(&mut v, post);
            assert(text@.subrange(0, text@.len() as int) =~= text@);
            assert(v@ =~= pre@ + text@ + post@);
            Tok::Ident { text: v, span: *span }
        },
        _ => t.copy(),
    }
}

/// Identifier `t` with `post` written after its text (same span).
pub fn suffix_ident(t: &Tok, post: &str) -> (r: Tok)
    ensures
        r@ == affixed(t@, Seq::empty(), post@),
{
    proof {
        reveal_strlit("");
        assert(""@ =~= Seq::<char>::empty());
    }
    affix_ident(t, "", post)
}

/// Identifier `t` with `pre` written before its text (same span).
pub fn prefix_ident(t: &Tok, pre: &str) -> (r: Tok)
    ensures
        r@ == affixed(t@, pre@, Seq::empty()),
{
    proof {
        reveal_strlit("");
        assert(""@ =~= Seq::<char>::empty());
    }
    affix_ident(t, pre, "")
}

} // verus!
