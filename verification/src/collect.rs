//! Collecting the `#[hook(...)]` functions and `#[ptr(...)]` constants of a
//! module or impl block: which attributes stay, which items stay, and what is recorded.
use vstd::prelude::*;

pub mod impl_block;
pub mod module;
use crate::attr::{
    ends_with_chain, hook_error, hook_toks, prints_hook, ptr_error, target_toks, wf_hook,
    wf_target, AttrError, Expected, HookAttr, LookupTarget, PtrAttr};
use crate::model::{Detour, Ptr};
use crate::signature::{sig_same_but_ident, Signature};
use crate::text::push_str;
use crate::tokens::{copy_toks, is_ident_tok, span_of, toks_view, Tok, TokV};

verus! {

/// One segment of a path.
pub struct PathSegment {
    pub ident: Tok,
    /// Whether the segment carries generic arguments.
    pub has_args: bool,
}

/// A path such as an attribute's name or a type path.
pub struct PathModel {
    pub leading_colon: bool,
    pub segments: Vec<PathSegment>,
}

impl PathModel {
    /// The path's single identifier, when it is one plain segment.
    pub open spec fn spec_ident(&self) -> Option<Tok> {
        if !self.leading_colon && self.segments@.len() == 1 && !self.segments@[0].has_args {
            Some(self.segments@[0].ident)
        } else {
            None
        }
    }

    /// The path's single identifier, when it is one plain segment.
    pub fn get_ident(&self) -> (r: Option<&Tok>)
        ensures
            r == match self.spec_ident() {
                Some(t) => Some(&t),
                None => None::<&Tok>,
            },
    {
        if !self.leading_colon && self.segments.len() == 1 && !self.segments[0].has_args {
            Some(&self.segments[0].ident)
        } else {
            None
        }
    }

    /// Whether the path is exactly the identifier `w`.
    pub open spec fn spec_is_ident(&self, w: Seq<char>) -> bool {
        self.spec_ident() matches Some(t) && is_ident_tok(t@, w)
    }

    /// Whether the path is exactly the identifier `w`.
    pub fn is_ident(&self, w: &str) -> (r: bool)
        ensures
            r == self.spec_is_ident(w@),
    {
        match self.get_ident() {
            Some(t) => t.is_ident(w),
            None => false,
        }
    }
}

/// How an attribute's arguments are written.
pub enum AttrMeta {
    /// `#[name]`
    Path,
    /// `#[name(tokens)]` (or with brackets or braces)
    List { tokens: Vec<Tok> },
    /// `#[name = value]`
    NameValue { eq_span: usize },
}

/// An outer attribute; `id` is its position among its item's attributes.
pub struct Attribute {
    pub id: usize,
    pub path: PathModel,
    pub meta: AttrMeta,
}

/// Why an expansion failed.
pub enum MacroError {
    /// Malformed attribute arguments.
    Attr(AttrError),
    /// `#[name]` where `#[name(...)]` is needed; `span` is the name's.
    ArgumentsNotInParentheses { span: usize, path: Vec<char> },
    /// `#[name = ...]` where `#[name(...)]` is needed; `span` is the `=`'s.
    ExpectedParentheses { span: usize, path: Vec<char> },
    /// The impl block's type is not a plain name.
    ExpectedSimpleStructName,
    /// An impl context without a self type.
    MissingSelfType,
    /// The module has no body.
    NoModuleContent,
    /// Free functions cannot take `self`; spans of the offending receivers.
    SelfNotSupported { spans: Vec<usize> },
}

/// The text of what a failed parse expected.
pub open spec fn expected_text(e: Expected) -> Seq<char> {
    match e {
        Expected::Identifier => "expected identifier"@,
        Expected::IdentifierNotKeyword => "expected identifier, found keyword"@,
        Expected::Comma => "expected `,`"@,
        Expected::OffsetOrSymbol => "expected `offset` or `symbol`"@,
        Expected::Equals => "expected `=`"@,
        Expected::IntegerLiteral => "expected integer literal"@,
        Expected::StringLiteral => "expected string literal"@,
        Expected::PathSegment => "expected identifier"@,
        Expected::EndOfArguments => "unexpected token"@,
    }
}

/// The message error `e` is reported with. An attribute error with no
/// token found says that the arguments ended.
pub open spec fn message_of(e: MacroError) -> Seq<char> {
    match e {
        MacroError::Attr(a) => match a.at {
            Some(_) => expected_text(a.expected),
            None => if a.expected == Expected::EndOfArguments {
                "unexpected end of input"@
            } else {
                "unexpected end of input, "@ + expected_text(a.expected)
            },
        },
        MacroError::ArgumentsNotInParentheses { path, .. } => "expected attribute arguments in parentheses: #["@ + path@ + "(...)]"@,
        MacroError::ExpectedParentheses { path, .. } => "expected parentheses: #["@ + path@ + "(...)]"@,
        MacroError::ExpectedSimpleStructName => "Expected a simple struct name"@,
        MacroError::MissingSelfType => "macro context requires a self type"@,
        MacroError::NoModuleContent => "Could not get content inside `mod`"@,
        MacroError::SelfNotSupported { .. } => "`self` is not currently supported by this macro"@,
    }
}

fn push_expected(v: &mut Vec<char>, e: Expected)
    ensures
        final(v)@ == old(v)@ + expected_text(e),
{
    match e {
        Expected::Identifier => push_str(v, "expected identifier"),
        Expected::IdentifierNotKeyword => push_str(v, "expected identifier, found keyword"),
        Expected::Comma => push_str(v, "expected `,`"),
        Expected::OffsetOrSymbol => push_str(v, "expected `offset` or `symbol`"),
        Expected::Equals => push_str(v, "expected `=`"),
        Expected::IntegerLiteral => push_str(v, "expected integer literal"),
        Expected::StringLiteral => push_str(v, "expected string literal"),
        Expected::PathSegment => push_str(v, "expected identifier"),
        Expected::EndOfArguments => push_str(v, "unexpected token"),
    }
}

fn push_chars(v: &mut Vec<char>, s: &Vec<char>)
    ensures
        final(v)@ == old(v)@ + s@,
{
    let mut i: usize = 0;
    while i < s.len()
        invariant
            i <= s@.len(),
            v@ == old(v)@ + s@.subrange(0, i as int),
        decreases s@.len() - i,
    {
        v.push(s[i]);
        i = i + 1;
        assert(v@ =~= old(v)@ + s@.subrange(0, i as int));
    }
    assert(s@.subrange(0, s@.len() as int) =~= s@);
}

impl MacroError {
    /// The message this error is reported with.
    pub fn message(&self) -> (r: Vec<char>)
        ensures
            r@ == message_of(*self),
    {
        let mut v: Vec<char> = Vec::new();
        match self {
            MacroError::Attr(a) => match a.at {
                Some(_) => push_expected(&mut v, a.expected),
                None => {
                    push_str(&mut v, "unexpected end of input");
                    if a.expected != Expected::EndOfArguments {
                        push_str(&mut v, ", ");
                        push_expected(&mut v, a.expected);
                        proof {
                            reveal_strlit("unexpected end of input");
                            reveal_strlit(", ");
                            reveal_strlit("unexpected end of input, ");
                            assert("unexpected end of input"@ + ", "@ =~= "unexpected end of input, "@);
                        }
                    }
                },
            },
            MacroError::ArgumentsNotInParentheses { path, .. } => {
                push_str(&mut v, "expected attribute arguments in parentheses: #[");
                push_chars(&mut v, path);
                push_str(&mut v, "(...)]");
            },
            MacroError::ExpectedParentheses { path, .. } => {
                push_str(&mut v, "expected parentheses: #[");
                push_chars(&mut v, path);
                push_str(&mut v, "(...)]");
            },
            MacroError::ExpectedSimpleStructName => push_str(&mut v, "Expected a simple struct name"),
            MacroError::MissingSelfType => push_str(&mut v, "macro context requires a self type"),
            MacroError::NoModuleContent => push_str(&mut v, "Could not get content inside `mod`"),
            MacroError::SelfNotSupported { .. } => push_str(&mut v, "`self` is not currently supported by this macro"),
        }
        assert(v@ =~= message_of(*self));
        v
    }
}

/// Whether `a` is a `#[hook ...]` attribute.
pub open spec fn is_hook_attr(a: Attribute) -> bool {
    a.path.spec_is_ident("hook"@)
}

/// Whether `a` is a `#[ptr ...]` attribute.
pub open spec fn is_ptr_attr(a: Attribute) -> bool {
    a.path.spec_is_ident("ptr"@)
}

/// The tokens inside an attribute's parentheses (empty when there are none).
pub open spec fn arg_toks(a: Attribute) -> Seq<TokV> {
    match a.meta {
        AttrMeta::List { tokens } => toks_view(tokens@),
        _ => Seq::empty(),
    }
}

/// Whether a `#[hook(...)]` attribute's arguments are well formed.
pub open spec fn hook_args_ok(a: Attribute) -> bool {
    a.meta is List && prints_hook(arg_toks(a))
}

/// Whether a `#[ptr(...)]` attribute's arguments are well formed.
pub open spec fn ptr_args_ok(a: Attribute) -> bool {
    a.meta is List && (exists|x: LookupTarget| wf_target(x) && target_toks(x) == arg_toks(a))
}

/// The text of an identifier token (empty for any other token).
pub open spec fn ident_text(t: TokV) -> Seq<char> {
    match t {
        TokV::Ident { text, .. } => text,
        _ => Seq::empty(),
    }
}

/// The text of a path with segments `segs`: the segments' names joined by
/// `::`, with a leading `::` when `leading`.
pub open spec fn path_text_of(leading: bool, segs: Seq<PathSegment>) -> Seq<char>
    decreases segs.len(),
{
    if segs.len() == 0 {
        Seq::empty()
    } else {
        let sep = if segs.len() > 1 || leading { "::"@ } else { Seq::empty() };
        path_text_of(leading, segs.drop_last()) + sep + ident_text(segs.last().ident@)
    }
}

/// The span a path is reported at: its first segment's, or the call site
/// for a path without segments.
pub open spec fn path_span_of(p: PathModel) -> usize {
    if p.segments@.len() > 0 {
        span_of(p.segments@[0].ident@)
    } else {
        crate::signature::CALL_SITE
    }
}

fn path_text(p: &PathModel) -> (r: Vec<char>)
    ensures
        r@ == path_text_of(p.leading_colon, p.segments@),
{
    proof {
        reveal_strlit("::");
    }
    let mut r: Vec<char> = Vec::new();
    let mut i: usize = 0;
    while i < p.segments.len()
        invariant
            i <= p.segments@.len(),
            r@ == path_text_of(p.leading_colon, p.segments@.subrange(0, i as int)),
        decreases p.segments@.len() - i,
    {
        let ghost r0 = r@;
        let ghost segs = p.segments@.subrange(0, i + 1);
        assert(segs.drop_last() =~= p.segments@.subrange(0, i as int));
        assert(segs.last() == p.segments@[i as int]);
        if i > 0 || p.leading_colon {
            push_str(&mut r, "::");
        } else {
            assert(r@ =~= r0 + Seq::<char>::empty());
        }
        let ghost r1 = r@;
        match &p.segments[i].ident {
            Tok::Ident { text, .. } => {
                let mut j: usize = 0;
                while j < text.len()
                    invariant
                        j <= text@.len(),
                        r@ == r1 + text@.subrange(0, j as int),
                    decreases text@.len() - j,
                {
                    r.push(text[j]);
                    j = j + 1;
                    assert(r@ =~= r1 + text@.subrange(0, j as int));
                }
                assert(text@.subrange(0, text@.len() as int) =~= text@);
            },
            _ => {
                assert(r@ =~= r1 + Seq::<char>::empty());
            },
        }
        i = i + 1;
    }
    assert(p.segments@.subrange(0, p.segments@.len() as int) =~= p.segments@);
    r
}

fn path_span(p: &PathModel) -> (r: usize)
    ensures
        r == path_span_of(*p),
{
    if p.segments.len() > 0 {
        p.segments[0].ident.span()
    } else {
        0
    }
}

/// Whether `e` is one of the errors a malformed attribute is reported with.
pub open spec fn is_attr_error(e: MacroError) -> bool {
    e is Attr || e is ArgumentsNotInParentheses || e is ExpectedParentheses
}

/// The error for an attribute whose arguments are not in parentheses: at
/// the `=` for `#[name = ...]`, else at the path; either way naming the path.
pub open spec fn meta_error_of(attr: Attribute, e: MacroError) -> bool {
    match attr.meta {
        AttrMeta::NameValue { eq_span } => e matches MacroError::ExpectedParentheses { span, path }
            && span == eq_span && path@ == path_text_of(attr.path.leading_colon, attr.path.segments@),
        _ => e matches MacroError::ArgumentsNotInParentheses { span, path }
            && span == path_span_of(attr.path) && path@ == path_text_of(attr.path.leading_colon, attr.path.segments@),
    }
}

fn meta_error(attr: &Attribute) -> (r: MacroError)
    ensures
        meta_error_of(*attr, r),
{
    match &attr.meta {
        AttrMeta::NameValue { eq_span } => MacroError::ExpectedParentheses { span: *eq_span, path: path_text(&attr.path) },
        _ => MacroError::ArgumentsNotInParentheses { span: path_span(&attr.path), path: path_text(&attr.path) },
    }
}

/// Whether `e` is the error reading `#[hook]` attribute `attr` gives: that of
/// its arguments when they stand in parentheses, else that of its form.
pub open spec fn hook_args_error(attr: Attribute, e: MacroError) -> bool {
    if attr.meta is List {
        e == MacroError::Attr(hook_error(arg_toks(attr)))
    } else {
        meta_error_of(attr, e)
    }
}

/// Whether `e` is the error reading `#[ptr]` attribute `attr` gives: that of
/// its arguments when they stand in parentheses, else that of its form.
pub open spec fn ptr_args_error(attr: Attribute, e: MacroError) -> bool {
    if attr.meta is List {
        e == MacroError::Attr(ptr_error(arg_toks(attr)))
    } else {
        meta_error_of(attr, e)
    }
}

/// Reads a `#[hook(...)]` attribute's arguments.
pub fn parse_hook_args(attr: &Attribute) -> (r: Result<crate::attr::HookAttr, MacroError>)
    ensures
        r is Ok <==> hook_args_ok(*attr),
        r matches Err(e) ==> hook_args_error(*attr, e),
        r matches Ok(a) ==> wf_hook(a) && hook_toks(a) == arg_toks(*attr) && a.chain == ends_with_chain(arg_toks(*attr)),
{
    match &attr.meta {
        AttrMeta::List { tokens } => match HookAttr::parse(tokens) {
            Ok(a) => Ok(a),
            Err(e) => Err(MacroError::Attr(e)),
        },
        _ => Err(meta_error(attr)),
    }
}

/// Reads a `#[ptr(...)]` attribute's arguments.
pub fn parse_ptr_args(attr: &Attribute) -> (r: Result<crate::attr::PtrAttr, MacroError>)
    ensures
        r is Ok <==> ptr_args_ok(*attr),
        r matches Err(e) ==> ptr_args_error(*attr, e),
        r matches Ok(p) ==> wf_target(p.target) && target_toks(p.target) == arg_toks(*attr),
{
    match &attr.meta {
        AttrMeta::List { tokens } => match PtrAttr::parse(tokens) {
            Ok(p) => Ok(p),
            Err(e) => Err(MacroError::Attr(e)),
        },
        _ => Err(meta_error(attr)),
    }
}

/// The attributes that remain on an item once its `#[hook]` attributes are taken off.
pub open spec fn kept_attrs(s: Seq<Attribute>) -> Seq<Attribute>
    decreases s.len(),
{
    if s.len() == 0 {
        Seq::empty()
    } else {
        let k = kept_attrs(s.drop_last());
        if is_hook_attr(s.last()) {
            k
        } else {
            k.push(s.last())
        }
    }
}

/// Whether every `#[hook]` attribute in `s` has well-formed arguments.
pub open spec fn hooks_ok(s: Seq<Attribute>) -> bool {
    forall|i: int| 0 <= i < s.len() && #[trigger] is_hook_attr(s[i]) ==> hook_args_ok(s[i])
}

/// The position of the last `#[hook]` attribute in `s`, or -1.
pub open spec fn last_hook(s: Seq<Attribute>) -> int
    decreases s.len(),
{
    if s.len() == 0 {
        -1
    } else if is_hook_attr(s.last()) {
        s.len() - 1
    } else {
        last_hook(s.drop_last())
    }
}

/// Whether some `#[hook]` attribute in `s` asks for a chain.
pub open spec fn any_chain(s: Seq<Attribute>) -> bool {
    exists|i: int| 0 <= i < s.len() && #[trigger] is_hook_attr(s[i]) && ends_with_chain(arg_toks(s[i]))
}

/// The name `__{name}_detour` a chained function is renamed to.
pub open spec fn detour_fn_name(id: TokV) -> TokV {
    match id {
        TokV::Ident { text, span } => TokV::Ident { text: "__"@ + text + "_detour"@, span },
        _ => id,
    }
}

/// The token value of an optional token.
pub open spec fn opt_view_of(o: Option<Tok>) -> Option<TokV> {
    match o {
        Some(t) => Some(t@),
        None => None,
    }
}

/// What `d` records of the function with signature `sig`, visibility `vis`
/// and self type `st`, hooked by attribute `a`.
pub open spec fn detour_from(d: Detour, a: Attribute, sig: Signature, vis: Seq<TokV>, st: Option<TokV>) -> bool {
    &&& wf_hook(d.attr)
    &&& hook_toks(d.attr) == arg_toks(a)
    &&& d.attr.chain == ends_with_chain(arg_toks(a))
    &&& d.original_fn_name@ == sig.ident@
    &&& sig_same_but_ident(d.fn_sig, sig)
    &&& d.fn_sig.ident@ == (if d.attr.chain { detour_fn_name(sig.ident@) } else { sig.ident@ })
    &&& toks_view(d.fn_visibility@) == vis
    &&& opt_view_of(d.self_type) == st
}

/// Whether the attribute at `i` of `s` is the first `#[hook]` attribute
/// whose arguments are malformed.
pub open spec fn first_bad_hook(s: Seq<Attribute>, i: int) -> bool {
    &&& is_hook_attr(s[i])
    &&& !hook_args_ok(s[i])
    &&& hooks_ok(s.subrange(0, i))
}

/// A function item's attributes, signature, visibility and self type.
pub struct FnInfo {
    pub attrs: Vec<Attribute>,
    pub sig: Signature,
    pub vis: Vec<Tok>,
    pub self_type: Option<Tok>,
}

pub(crate) fn detour_ident(id: &Tok) -> (r: Tok)
    ensures
        r@ == detour_fn_name(id@),
{
    match id {
        Tok::Ident { text, span } => {
            let mut t: Vec<char> = Vec::new();
            push_str(&mut t, "__");
            let mut j: usize = 0;
            while j < text.len()
                invariant
                    j <= text@.len(),
                    t@ == "__"@ + text@.subrange(0, j as int),
                decreases text@.len() - j,
            {
                t.push(text[j]);
                j = j + 1;
                assert(t@ =~= "__"@ + text@.subrange(0, j as int));
            }
            push_str(&mut t, "_detour");
            assert(text@.subrange(0, text@.len() as int) =~= text@);
            assert(t@ =~= "__"@ + text@ + "_detour"@);
            Tok::Ident { text: t, span: *span }
        },
        _ => id.copy(),
    }
}

pub(crate) fn copy_opt(o: &Option<Tok>) -> (r: Option<Tok>)
    ensures
        opt_view_of(r) == opt_view_of(*o),
{
    match o {
        Some(t) => Some(t.copy()),
        None => None,
    }
}

impl FnInfo {
    /// Takes the `#[hook(...)]` attributes off the function and records the
    /// detour of the last one. Fails when some hook attribute's arguments are
    /// malformed. With a `chain` hook, the function is renamed `__{name}_detour`.
    pub fn to_detour(&mut self) -> (r: Result<Option<Detour>, MacroError>)
        ensures
            r is Ok <==> hooks_ok(old(self).attrs@),
            r matches Err(e) ==> is_attr_error(e),
            r matches Err(e) ==> exists|i: int| 0 <= i < old(self).attrs@.len()
                && #[trigger] first_bad_hook(old(self).attrs@, i)
                && hook_args_error(old(self).attrs@[i], e),
            r is Err ==> final(self).attrs@.len() == 0 && final(self).sig == old(self).sig
                && final(self).vis == old(self).vis && final(self).self_type == old(self).self_type,
            r is Ok ==> final(self).attrs@ == kept_attrs(old(self).attrs@),
            r is Ok ==> final(self).vis == old(self).vis && final(self).self_type == old(self).self_type,
            r is Ok ==> if any_chain(old(self).attrs@) {
                sig_same_but_ident(final(self).sig, old(self).sig)
                    && final(self).sig.ident@ == detour_fn_name(old(self).sig.ident@)
            } else {
                final(self).sig == old(self).sig
            },
            r matches Ok(d) ==> (d is Some <==> last_hook(old(self).attrs@) >= 0),
            r matches Ok(Some(d)) ==> detour_from(
                d,
                old(self).attrs@[last_hook(old(self).attrs@)],
                old(self).sig,
                toks_view(old(self).vis@),
                opt_view_of(old(self).self_type),
            ),
    {
        let ghost a0 = self.attrs@;
        let mut attrs: Vec<Attribute> = Vec::new();
        std::mem::swap(&mut attrs, &mut self.attrs);
        let mut kept: Vec<Attribute> = Vec::new();
        let mut detour: Option<Detour> = None;
        let mut chain_seen = false;
        let ghost mut i: int = 0;
        while attrs.len() > 0
            invariant
                0 <= i <= a0.len(),
                a0 == old(self).attrs@,
                attrs@ == a0.subrange(i, a0.len() as int),
                kept@ == kept_attrs(a0.subrange(0, i)),
                hooks_ok(a0.subrange(0, i)),
                chain_seen == any_chain(a0.subrange(0, i)),
                (detour is Some) == (last_hook(a0.subrange(0, i)) >= 0),
                detour matches Some(d) ==> detour_from(d, a0[last_hook(a0.subrange(0, i))], self.sig,
                    toks_view(self.vis@), opt_view_of(self.self_type)),
                last_hook(a0.subrange(0, i)) < i,
                self.sig == old(self).sig,
                self.vis == old(self).vis,
                self.self_type == old(self).self_type,
                self.attrs@.len() == 0,
            decreases attrs@.len(),
        {
            let ghost prev = a0.subrange(0, i);
            let attr = attrs.remove(0);
            assert(attr == a0[i]);
            let ghost next = a0.subrange(0, i + 1);
            assert(next.drop_last() =~= prev);
            assert(next.last() == a0[i]);
            if !attr.path.is_ident("hook") {
                kept.push(attr);
                proof {
                    i = i + 1;
                    assert forall|j: int| 0 <= j < next.len() && #[trigger] is_hook_attr(next[j]) implies hook_args_ok(next[j]) by {
                        if j < prev.len() {
                            assert(next[j] == prev[j]);
                        }
                    }
                    if any_chain(next) {
                        let j = choose|j: int| 0 <= j < next.len() && #[trigger] is_hook_attr(next[j]) && ends_with_chain(arg_toks(next[j]));
                        assert(prev[j] == next[j]);
                    }
                    if any_chain(prev) {
                        let j = choose|j: int| 0 <= j < prev.len() && #[trigger] is_hook_attr(prev[j]) && ends_with_chain(arg_toks(prev[j]));
                        assert(prev[j] == next[j]);
                    }
                }
                continue;
            }
            let hook_attr = match parse_hook_args(&attr) {
                Ok(h) => h,
                Err(e) => {
                    proof {
                        assert(a0[i] == attr);
                        assert(is_hook_attr(a0[i]));
                        assert(!hook_args_ok(a0[i]));
                        assert(a0.subrange(0, i) == prev);
                        assert(first_bad_hook(a0, i));
                    }
                    return Err(e);
                },
            };
            let original_fn_name = self.sig.ident.copy();
            let fn_sig = if hook_attr.chain {
                chain_seen = true;
                self.sig.copy_with_ident(detour_ident(&self.sig.ident))
            } else {
                self.sig.copy_with_ident(self.sig.ident.copy())
            };
            let d = Detour {
                attr: hook_attr,
                original_fn_name,
                fn_sig,
                self_type: copy_opt(&self.self_type),
                fn_visibility: copy_toks(&self.vis),
            };
            detour = Some(d);
            proof {
                i = i + 1;
                assert(next[next.len() - 1] == attr);
                assert forall|j: int| 0 <= j < next.len() && #[trigger] is_hook_attr(next[j]) implies hook_args_ok(next[j]) by {
                    if j < prev.len() {
                        assert(next[j] == prev[j]);
                    }
                }
                if chain_seen {
                    if !any_chain(prev) {
                        assert(is_hook_attr(next[next.len() - 1]) && ends_with_chain(arg_toks(next[next.len() - 1])));
                    } else {
                        let j = choose|j: int| 0 <= j < prev.len() && #[trigger] is_hook_attr(prev[j]) && ends_with_chain(arg_toks(prev[j]));
                        assert(prev[j] == next[j]);
                    }
                } else {
                    if any_chain(next) {
                        let j = choose|j: int| 0 <= j < next.len() && #[trigger] is_hook_attr(next[j]) && ends_with_chain(arg_toks(next[j]));
                        if j < prev.len() {
                            assert(prev[j] == next[j]);
                        }
                    }
                }
            }
        }
        proof {
            assert(a0.subrange(0, i) =~= a0);
        }
        self.attrs = kept;
        if chain_seen {
            let id = detour_ident(&self.sig.ident);
            let renamed = self.sig.copy_with_ident(id);
            self.sig = renamed;
        }
        Ok(detour)
    }
}

/// Whether every `#[ptr]` attribute in `s` has well-formed arguments.
pub open spec fn ptrs_ok(s: Seq<Attribute>) -> bool {
    forall|i: int| 0 <= i < s.len() && #[trigger] is_ptr_attr(s[i]) ==> ptr_args_ok(s[i])
}

/// The position of the last `#[ptr]` attribute in `s`, or -1.
pub open spec fn last_ptr(s: Seq<Attribute>) -> int
    decreases s.len(),
{
    if s.len() == 0 {
        -1
    } else if is_ptr_attr(s.last()) {
        s.len() - 1
    } else {
        last_ptr(s.drop_last())
    }
}

/// Whether the attribute at `i` of `s` is the first `#[ptr]` attribute
/// whose arguments are malformed.
pub open spec fn first_bad_ptr(s: Seq<Attribute>, i: int) -> bool {
    &&& is_ptr_attr(s[i])
    &&& !ptr_args_ok(s[i])
    &&& ptrs_ok(s.subrange(0, i))
}

/// A constant item's attributes, visibility, name and type.
pub struct ConstInfo {
    pub attrs: Vec<Attribute>,
    pub vis: Vec<Tok>,
    pub ident: Tok,
    pub ty: Vec<Tok>,
}

/// What `p` records of the constant `c` marked by attribute `a`.
pub open spec fn ptr_from(p: Ptr, a: Attribute, c: ConstInfo) -> bool {
    &&& wf_target(p.attr.target)
    &&& target_toks(p.attr.target) == arg_toks(a)
    &&& toks_view(p.vis@) == toks_view(c.vis@)
    &&& p.name@ == c.ident@
    &&& toks_view(p.ty@) == toks_view(c.ty@)
}

impl ConstInfo {
    /// The pointer declared by the constant's last `#[ptr(...)]` attribute, if
    /// any. Fails when some ptr attribute's arguments are malformed.
    pub fn to_ptr(&self) -> (r: Result<Option<Ptr>, MacroError>)
        ensures
            r is Ok <==> ptrs_ok(self.attrs@),
            r matches Err(e) ==> is_attr_error(e),
            r matches Err(e) ==> exists|i: int| 0 <= i < self.attrs@.len()
                && #[trigger] first_bad_ptr(self.attrs@, i)
                && ptr_args_error(self.attrs@[i], e),
            r matches Ok(p) ==> (p is Some <==> last_ptr(self.attrs@) >= 0),
            r matches Ok(Some(p)) ==> ptr_from(p, self.attrs@[last_ptr(self.attrs@)], *self),
    {
        let ghost a0 = self.attrs@;
        let mut ptr: Option<Ptr> = None;
        let mut i: usize = 0;
        while i < self.attrs.len()
            invariant
                0 <= i <= a0.len(),
                a0 == self.attrs@,
                ptrs_ok(a0.subrange(0, i as int)),
                (ptr is Some) == (last_ptr(a0.subrange(0, i as int)) >= 0),
                last_ptr(a0.subrange(0, i as int)) < i,
                ptr matches Some(p) ==> ptr_from(p, a0[last_ptr(a0.subrange(0, i as int))], *self),
            decreases a0.len() - i,
        {
            let ghost prev = a0.subrange(0, i as int);
            let ghost next = a0.subrange(0, i + 1);
            assert(next.drop_last() =~= prev);
            assert(next.last() == a0[i as int]);
            let attr = &self.attrs[i];
            if attr.path.is_ident("ptr") {
                let ptr_attr = match parse_ptr_args(attr) {
                    Ok(p) => p,
                    Err(e) => {
                        proof {
                            assert(is_ptr_attr(a0[i as int]));
                            assert(!ptr_args_ok(a0[i as int]));
                            assert(first_bad_ptr(a0, i as int));
                        }
                        return Err(e);
                    },
                };
                ptr = Some(Ptr {
                    vis: copy_toks(&self.vis),
                    name: self.ident.copy(),
                    ty: copy_toks(&self.ty),
                    attr: ptr_attr,
                });
            }
            proof {
                assert forall|j: int| 0 <= j < next.len() && #[trigger] is_ptr_attr(next[j]) implies ptr_args_ok(next[j]) by {
                    if j < prev.len() {
                        assert(next[j] == prev[j]);
                    }
                }
            }
            i = i + 1;
        }
        proof {
            assert(a0.subrange(0, i as int) =~= a0);
        }
        Ok(ptr)
    }
}

/// A function item of a module or impl block.
pub struct FnItem {
    pub id: usize,
    pub attrs: Vec<Attribute>,
    pub vis: Vec<Tok>,
    pub sig: Signature,
}

/// A constant item of a module or impl block.
pub struct ConstItem {
    pub id: usize,
    pub attrs: Vec<Attribute>,
    pub vis: Vec<Tok>,
    pub ident: Tok,
    pub ty: Vec<Tok>,
}

/// An inner module: `mod name { content }`, or `mod name;` (no content).
pub struct ModItem {
    pub id: usize,
    pub content: Option<Vec<Item>>,
}

/// An item of a module or impl block; `id` is its position there.
pub enum Item {
    Fn(FnItem),
    /// A constant; one that carries no `#[ptr]` attribute may as well be
    /// given as `Other`, with the items its initialiser holds.
    Const(ConstItem),
    Mod(ModItem),
    /// Any other item. `nested` holds the items that stand inside it (in
    /// method bodies, initialisers and the like), in the order they are met,
    /// each given its position there as `id`.
    Other { id: usize, nested: Vec<Item> },
}

/// The positions in `s` of the items satisfying `p`, in order.
pub open spec fn positions(s: Seq<Item>, p: spec_fn(Item) -> bool) -> Seq<int>
    decreases s.len(),
{
    if s.len() == 0 {
        Seq::empty()
    } else {
        let front = positions(s.drop_last(), p);
        if p(s.last()) {
            front.push(s.len() - 1)
        } else {
            front
        }
    }
}

pub open spec fn const_info_of(c: ConstItem) -> ConstInfo {
    ConstInfo { attrs: c.attrs, vis: c.vis, ident: c.ident, ty: c.ty }
}

/// The positions of the items that stay in `s`.
pub open spec fn kept_positions(s: Seq<Item>) -> Seq<int> {
    positions(s, |x: Item| is_kept_item(x))
}

/// Whether the item is a constant declaring a pointer.
pub open spec fn is_ptr_const(x: Item) -> bool {
    x matches Item::Const(c) && last_ptr(c.attrs@) >= 0
}

/// Whether the item is a hooked function.
pub open spec fn is_hooked_fn(x: Item) -> bool {
    x matches Item::Fn(f) && last_hook(f.attrs@) >= 0
}

/// Whether the item stays in the expanded module or impl block.
pub open spec fn is_kept_item(x: Item) -> bool {
    !is_ptr_const(x)
}

/// Whether an item's attributes are all well formed.
pub open spec fn item_ok(x: Item) -> bool {
    match x {
        Item::Fn(f) => hooks_ok(f.attrs@),
        Item::Const(c) => ptrs_ok(c.attrs@),
        Item::Mod(_) => true,
        Item::Other { .. } => true,
    }
}

/// Whether `y` is what item `x` becomes: a function loses its hook
/// attributes (and is renamed when chained); other kept items stay as they were.
pub open spec fn item_after(x: Item, y: Item) -> bool {
    match x {
        Item::Fn(f) => y matches Item::Fn(g) && {
            &&& g.id == f.id
            &&& g.attrs@ == kept_attrs(f.attrs@)
            &&& g.vis == f.vis
            &&& if any_chain(f.attrs@) {
                sig_same_but_ident(g.sig, f.sig) && g.sig.ident@ == detour_fn_name(f.sig.ident@)
            } else {
                g.sig == f.sig
            }
        },
        _ => y == x,
    }
}

/// What was collected from a module or impl block.
pub struct Collected {
    /// The items that stay, in their order.
    pub items: Vec<Item>,
    pub detours: Vec<Detour>,
    pub ptrs: Vec<Ptr>,
}

/// What collecting `content` (with self type `st`) yields, when it succeeds.
pub open spec fn collected_from(c: Collected, content: Seq<Item>, st: Option<TokV>) -> bool {
    let kept = positions(content, |x: Item| is_kept_item(x));
    let hooked = positions(content, |x: Item| is_hooked_fn(x));
    let pointed = positions(content, |x: Item| is_ptr_const(x));
    &&& c.items@.len() == kept.len()
    &&& forall|k: int| 0 <= k < kept.len() ==> item_after(content[#[trigger] kept[k]], c.items@[k])
    &&& c.detours@.len() == hooked.len()
    &&& forall|k: int| 0 <= k < hooked.len() ==> (content[#[trigger] hooked[k]] matches Item::Fn(f)
        && detour_from(c.detours@[k], f.attrs@[last_hook(f.attrs@)], f.sig, toks_view(f.vis@), st))
    &&& c.ptrs@.len() == pointed.len()
    &&& forall|k: int| 0 <= k < pointed.len() ==> (content[#[trigger] pointed[k]] matches Item::Const(x)
        && ptr_from(c.ptrs@[k], x.attrs@[last_ptr(x.attrs@)], const_info_of(x)))
}

/// Every position listed is in range and satisfies `p`, and every index
/// satisfying `p` is listed.
pub proof fn lemma_positions(s: Seq<Item>, p: spec_fn(Item) -> bool)
    ensures
        forall|k: int| 0 <= k < positions(s, p).len() ==> 0 <= #[trigger] positions(s, p)[k] < s.len() && p(s[positions(s, p)[k]]),
        forall|i: int| 0 <= i < s.len() && #[trigger] p(s[i]) ==> exists|k: int| 0 <= k < positions(s, p).len() && positions(s, p)[k] == i,
    decreases s.len(),
{
    if s.len() > 0 {
        let t = s.drop_last();
        lemma_positions(t, p);
        assert forall|k: int| 0 <= k < positions(t, p).len() implies #[trigger] t[positions(t, p)[k]] == s[positions(t, p)[k]] by {}
        assert forall|i: int| 0 <= i < s.len() && #[trigger] p(s[i]) implies exists|k: int| 0 <= k < positions(s, p).len() && positions(s, p)[k] == i by {
            if i < s.len() - 1 {
                assert(t[i] == s[i]);
                let k = choose|k: int| 0 <= k < positions(t, p).len() && positions(t, p)[k] == i;
                assert(positions(s, p)[k] == i);
            } else {
                assert(positions(s, p)[positions(s, p).len() - 1] == i);
            }
        }
    }
}

pub(crate) proof fn lemma_positions_step(s: Seq<Item>, i: int, p: spec_fn(Item) -> bool)
    requires
        0 <= i < s.len(),
    ensures
        positions(s.subrange(0, i + 1), p) == if p(s[i]) {
            positions(s.subrange(0, i), p).push(i)
        } else {
            positions(s.subrange(0, i), p)
        },
{
    assert(s.subrange(0, i + 1).drop_last() =~= s.subrange(0, i));
}

/// Whether `e` is the error item `x` is reported with: that of the first
/// malformed `#[hook]` attribute of a function, or `#[ptr]` attribute of a constant.
pub open spec fn item_error(x: Item, e: MacroError) -> bool {
    match x {
        Item::Fn(f) => exists|k: int| 0 <= k < f.attrs@.len() && #[trigger] first_bad_hook(f.attrs@, k)
            && hook_args_error(f.attrs@[k], e),
        Item::Const(c) => exists|k: int| 0 <= k < c.attrs@.len() && #[trigger] first_bad_ptr(c.attrs@, k)
            && ptr_args_error(c.attrs@[k], e),
        _ => false,
    }
}

/// Whether `e` is the error collecting the items `s` fails with: that of the
/// first item whose attributes are not all well formed.
pub open spec fn items_error(s: Seq<Item>, e: MacroError) -> bool {
    exists|i: int| 0 <= i < s.len() && (forall|j: int| 0 <= j < i ==> item_ok(#[trigger] s[j]))
        && #[trigger] item_error(s[i], e)
}

/// Collects the hooked functions and pointer constants of `content`, all
/// with self type `self_type`. Fails when some attribute is malformed.
pub fn collect_items(input: Vec<Item>, self_type: Option<&Tok>) -> (r: Result<Collected, MacroError>)
    ensures
        r is Ok <==> (forall|i: int| 0 <= i < input@.len() ==> item_ok(#[trigger] input@[i])),
        r matches Ok(c) ==> collected_from(c, input@, crate::signature::opt_view(self_type)),
        r matches Err(e) ==> is_attr_error(e) && items_error(input@, e),
{
    let ghost c0 = input@;
    let ghost st = crate::signature::opt_view(self_type);
    let ghost pk = |x: Item| is_kept_item(x);
    let ghost ph = |x: Item| is_hooked_fn(x);
    let ghost pp = |x: Item| is_ptr_const(x);
    let mut content = input;
    let mut items: Vec<Item> = Vec::new();
    let mut detours: Vec<Detour> = Vec::new();
    let mut ptrs: Vec<Ptr> = Vec::new();
    let ghost mut i: int = 0;
    while content.len() > 0
        invariant
            0 <= i <= c0.len(),
            content@ == c0.subrange(i, c0.len() as int),
            c0 == input@,
            st == crate::signature::opt_view(self_type),
            pk == (|x: Item| is_kept_item(x)),
            ph == (|x: Item| is_hooked_fn(x)),
            pp == (|x: Item| is_ptr_const(x)),
            forall|j: int| 0 <= j < i ==> item_ok(#[trigger] c0[j]),
            ({
                let kept = positions(c0.subrange(0, i), pk);
                &&& items@.len() == kept.len()
                &&& forall|k: int| 0 <= k < kept.len() ==> 0 <= kept[k] < i && item_after(c0[#[trigger] kept[k]], items@[k])
            }),
            ({
                let hooked = positions(c0.subrange(0, i), ph);
                &&& detours@.len() == hooked.len()
                &&& forall|k: int| 0 <= k < hooked.len() ==> 0 <= hooked[k] < i && (c0[#[trigger] hooked[k]] matches Item::Fn(f)
                    && detour_from(detours@[k], f.attrs@[last_hook(f.attrs@)], f.sig, toks_view(f.vis@), st))
            }),
            ({
                let pointed = positions(c0.subrange(0, i), pp);
                &&& ptrs@.len() == pointed.len()
                &&& forall|k: int| 0 <= k < pointed.len() ==> 0 <= pointed[k] < i && (c0[#[trigger] pointed[k]] matches Item::Const(x)
                    && ptr_from(ptrs@[k], x.attrs@[last_ptr(x.attrs@)], const_info_of(x)))
            }),
        decreases content@.len(),
    {
        let item = content.remove(0);
        assert(item == c0[i]);
        proof {
            lemma_positions_step(c0, i, pk);
            lemma_positions_step(c0, i, ph);
            lemma_positions_step(c0, i, pp);
        }
        match item {
            Item::Fn(f) => {
                let FnItem { id, attrs, vis, sig } = f;
                let st_copy = match self_type {
                    Some(t) => Some(t.copy()),
                    None => None,
                };
                let mut info = FnInfo { attrs, sig, vis, self_type: st_copy };
                let ghost info0 = info;
                let d = match info.to_detour() {
                    Ok(d) => d,
                    Err(e) => {
                        assert(!item_ok(c0[i]));
                        assert(c0 == input@);
                        assert(!item_ok(input@[i]));
                        assert(item_error(c0[i], e));
                        return Err(e);
                    },
                };
                let FnInfo { attrs, sig, vis, self_type: _ } = info;
                let out = Item::Fn(FnItem { id, attrs, vis, sig });
                assert(item_after(c0[i], out));
                items.push(out);
                match d {
                    Some(d) => {
                        detours.push(d);
                    },
                    None => {},
                }
            },
            Item::Const(c) => {
                let ghost cc = c;
                let info = ConstInfo { attrs: c.attrs, vis: c.vis, ident: c.ident, ty: c.ty };
                let p = match info.to_ptr() {
                    Ok(p) => p,
                    Err(e) => {
                        assert(!item_ok(c0[i]));
                        assert(c0 == input@);
                        assert(!item_ok(input@[i]));
                        assert(item_error(c0[i], e));
                        return Err(e);
                    },
                };
                match p {
                    Some(p) => {
                        ptrs.push(p);
                    },
                    None => {
                        let ConstInfo { attrs, vis, ident, ty } = info;
                        let out = Item::Const(ConstItem { id: c.id, attrs, vis, ident, ty });
                        assert(out == c0[i]);
                        items.push(out);
                    },
                }
            },
            Item::Mod(m) => {
                items.push(Item::Mod(m));
            },
            Item::Other { id, nested } => {
                items.push(Item::Other { id, nested });
            },
        }
        proof {
            i = i + 1;
        }
    }
    proof {
        assert(c0.subrange(0, i) =~= c0);
    }
    Ok(Collected { items, detours, ptrs })
}

} // verus!
