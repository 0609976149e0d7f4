//! Lowering of a hooked function's signature to the plain function type
//! the detour stores, the trampoline's parameters and the argument lists of
//! the generated calls.
use vstd::prelude::*;
use crate::attr::{is_colon2, opt_tok, Abi};
use crate::text::{push_str, text_of};
use crate::tokens::{copy_toks, extend_toks, push_tok, is_ident_tok, is_punct_tok, tok_view, toks_view, Delim, Tok, TokV};

verus! {

/// The span index that stands for the macro's call site.
pub const CALL_SITE: usize = 0;

/// `&` (with its span) of a `&self` / `&mut self` receiver.
pub struct RefToken {
    pub and_span: usize,
}

/// A `self` parameter.
pub struct Receiver {
    /// The tokens of the attributes written on the parameter.
    pub attrs: Vec<Tok>,
    pub reference: Option<RefToken>,
    pub mutability: Option<Tok>,
    pub self_span: usize,
}

/// A `pattern: Type` parameter.
pub struct PatType {
    pub attrs: Vec<Tok>,
    pub pat: Vec<Tok>,
    pub colon: Tok,
    pub ty: Vec<Tok>,
}

/// A function parameter.
pub enum FnArg {
    Receiver(Receiver),
    Typed(PatType),
}

/// What a function returns: `-> Type`, or nothing.
pub struct ReturnType {
    pub arrow: Vec<Tok>,
    pub ty: Vec<Tok>,
}

/// A function signature, as far as lowering reads it.
pub struct Signature {
    pub ident: Tok,
    pub fn_span: usize,
    pub paren_span: usize,
    pub inputs: Vec<FnArg>,
    /// The tokens of a trailing `...` as they stand in a plain function type.
    pub variadic: Option<Vec<Tok>>,
    pub output: Option<ReturnType>,
}

/// A plain function type `[unsafe] [extern "abi"] fn(args) -> ret`.
pub struct BareFnType {
    pub unsafety: Option<Tok>,
    pub abi: Option<Abi>,
    pub fn_span: usize,
    pub paren_span: usize,
    /// Each argument: its attributes followed by its type.
    pub inputs: Vec<Vec<Tok>>,
    pub variadic: Option<Vec<Tok>>,
    pub output: Option<ReturnType>,
}

/// Whether the token at `k` is a `Self` that stands alone as a type: not a
/// segment of a longer path such as `Self::Output`.
pub open spec fn is_self_at(s: Seq<TokV>, k: int) -> bool {
    &&& is_ident_tok(s[k], "Self"@)
    &&& !(k >= 2 && is_colon2(s[k - 2], s[k - 1]))
    &&& !(k + 2 < s.len() && is_colon2(s[k + 1], s[k + 2]))
}

/// Whether the group at `k` is the argument list of a macro invocation
/// (`path!(...)`), whose tokens are not a type.
pub open spec fn is_macro_args_at(s: Seq<TokV>, k: int) -> bool {
    k >= 1 && is_punct_tok(s[k - 1], '!')
}

/// `s` with every standalone `Self` replaced by `st`, inside groups too
/// (but for the arguments of a macro invocation).
pub open spec fn replace_self_seq(s: Seq<TokV>, st: TokV) -> Seq<TokV>
    decreases s,
{
    Seq::new(
        s.len(),
        |k: int|
            if 0 <= k < s.len() {
                if is_self_at(s, k) {
                    st
                } else {
                    match s[k] {
                        TokV::Group { delim, body, span } => if is_macro_args_at(s, k) {
                            s[k]
                        } else {
                            TokV::Group { delim, body: replace_self_seq(body, st), span }
                        },
                        _ => s[k],
                    }
                }
            } else {
                st
            },
    )
}

fn self_at(s: &Vec<Tok>, k: usize) -> (r: bool)
    requires
        k < s@.len(),
    ensures
        r == is_self_at(toks_view(s@), k as int),
{
    let ghost t = toks_view(s@);
    let n = s.len();
    if !s[k].is_ident("Self") {
        return false;
    }
    let before = k >= 2 && s[k - 2].is_joint_punct(':') && s[k - 1].is_punct(':');
    let after = n - k >= 3 && s[k + 1].is_joint_punct(':') && s[k + 2].is_punct(':');
    !before && !after
}

/// Replaces every standalone `Self` in a type with the implementing type's name.
pub fn replace_self_in_type(ty: &Vec<Tok>, self_ty: &Tok) -> (r: Vec<Tok>)
    ensures
        toks_view(r@) == replace_self_seq(toks_view(ty@), self_ty@),
    decreases ty,
{
    let ghost t = toks_view(ty@);
    let mut r: Vec<Tok> = Vec::new();
    let mut k: usize = 0;
    while k < ty.len()
        invariant
            k <= ty@.len(),
            t == toks_view(ty@),
            r@.len() == k,
            forall|j: int| 0 <= j < k ==> tok_view(#[trigger] r@[j]) == replace_self_seq(t, self_ty@)[j],
        decreases ty@.len() - k,
    {
        if self_at(ty, k) {
            r.push(self_ty.copy());
        } else {
            match &ty[k] {
                Tok::Group { delim, body, span } => {
                    if k >= 1 && ty[k - 1].is_punct('!') {
                        r.push(ty[k].copy());
                    } else {
                        assert(decreases_to!(ty => ty@[k as int]));
                        let b = replace_self_in_type(body, self_ty);
                        r.push(Tok::Group { delim: *delim, body: b, span: *span });
                    }
                },
                _ => {
                    r.push(ty[k].copy());
                },
            }
        }
        k = k + 1;
    }
    assert(toks_view(r@) =~= replace_self_seq(t, self_ty@));
    r
}

/// The pointer type a receiver becomes: `&self` is `*const T`, `&mut self`
/// is `*mut T`, and a receiver taken by value is `*mut T`.
pub open spec fn receiver_ptr_ty(recv: Receiver, st: TokV) -> Seq<TokV> {
    match recv.reference {
        Some(r) => {
            let middle = match recv.mutability {
                Some(m) => seq![m@],
                None => seq![TokV::Ident { text: "const"@, span: r.and_span }],
            };
            seq![TokV::Punct { ch: '*', joint: false, span: r.and_span }] + middle + seq![st]
        },
        None => seq![
            TokV::Punct { ch: '*', joint: false, span: recv.self_span },
            TokV::Ident { text: "mut"@, span: recv.self_span },
            st,
        ],
    }
}

/// The name a receiver takes once it is a plain pointer argument.
pub open spec fn self_ptr_name(recv: Receiver) -> TokV {
    TokV::Ident { text: "self_ptr"@, span: recv.self_span }
}

/// Converts a `self` / `&self` / `&mut self` receiver into a typed pointer argument.
pub fn receiver_to_ptr_arg(receiver: &Receiver, self_ty: &Tok) -> (r: PatType)
    ensures
        toks_view(r.attrs@) == toks_view(receiver.attrs@),
        toks_view(r.pat@) == seq![self_ptr_name(*receiver)],
        r.colon@ == (TokV::Punct { ch: ':', joint: false, span: receiver.self_span }),
        toks_view(r.ty@) == receiver_ptr_ty(*receiver, self_ty@),
{
    let mut ty: Vec<Tok> = Vec::new();
    match &receiver.reference {
        Some(rf) => {
            ty.push(Tok::Punct { ch: '*', joint: false, span: rf.and_span });
            match &receiver.mutability {
                Some(m) => ty.push(m.copy()),
                None => ty.push(Tok::Ident { text: text_of("const"), span: rf.and_span }),
            }
        },
        None => {
            ty.push(Tok::Punct { ch: '*', joint: false, span: receiver.self_span });
            ty.push(Tok::Ident { text: text_of("mut"), span: receiver.self_span });
        },
    }
    ty.push(self_ty.copy());
    let mut pat: Vec<Tok> = Vec::new();
    pat.push(Tok::Ident { text: text_of("self_ptr"), span: receiver.self_span });
    let r = PatType {
        attrs: copy_toks(&receiver.attrs),
        pat,
        colon: Tok::Punct { ch: ':', joint: false, span: receiver.self_span },
        ty,
    };
    assert(toks_view(r.ty@) =~= receiver_ptr_ty(*receiver, self_ty@));
    assert(toks_view(r.pat@) =~= seq![self_ptr_name(*receiver)]);
    r
}

/// The type of a typed parameter, with `Self` replaced when there is a self type.
pub open spec fn typed_ty(p: PatType, st: Option<TokV>) -> Seq<TokV> {
    match st {
        Some(s) => replace_self_seq(toks_view(p.ty@), s),
        None => toks_view(p.ty@),
    }
}

fn lower_ty(p: &PatType, self_ty: Option<&Tok>) -> (r: Vec<Tok>)
    ensures
        toks_view(r@) == typed_ty(*p, match self_ty { Some(t) => Some(t@), None => None }),
{
    match self_ty {
        Some(st) => replace_self_in_type(&p.ty, st),
        None => copy_toks(&p.ty),
    }
}

/// The view of an optional self type.
pub open spec fn opt_view(o: Option<&Tok>) -> Option<TokV> {
    match o {
        Some(t) => Some(t@),
        None => None,
    }
}

/// One argument of the plain function type: attributes followed by the
/// type; a receiver is kept (as a pointer) only when there is a self type.
pub open spec fn bare_arg(a: FnArg, st: Option<TokV>) -> Option<Seq<TokV>> {
    match a {
        FnArg::Typed(p) => Some(toks_view(p.attrs@) + typed_ty(p, st)),
        FnArg::Receiver(r) => match st {
            Some(s) => Some(toks_view(r.attrs@) + receiver_ptr_ty(r, s)),
            None => None,
        },
    }
}

/// The arguments of the plain function type for parameters `args`.
pub open spec fn bare_args(args: Seq<FnArg>, st: Option<TokV>) -> Seq<Seq<TokV>>
    decreases args.len(),
{
    if args.len() == 0 {
        Seq::empty()
    } else {
        let front = bare_args(args.drop_last(), st);
        match bare_arg(args.last(), st) {
            Some(x) => front.push(x),
            None => front,
        }
    }
}

/// The values of a sequence of token sequences.
pub open spec fn seqs_view(v: Seq<Vec<Tok>>) -> Seq<Seq<TokV>> {
    Seq::new(v.len(), |i: int| toks_view(v[i]@))
}

pub(crate) fn copy_output(o: &Option<ReturnType>) -> (r: Option<ReturnType>)
    ensures
        ret_toks(r) == ret_toks(*o),
        r is Some == o is Some,
{
    match o {
        Some(rt) => Some(ReturnType { arrow: copy_toks(&rt.arrow), ty: copy_toks(&rt.ty) }),
        None => None,
    }
}

pub(crate) fn copy_abi(a: &Option<Abi>) -> (r: Option<Abi>)
    ensures
        crate::attr::abi_toks(r) == crate::attr::abi_toks(*a),
        r is Some == a is Some,
{
    match a {
        Some(x) => Some(Abi {
            extern_token: x.extern_token.copy(),
            name: match &x.name {
                Some(n) => Some(n.copy()),
                None => None,
            },
        }),
        None => None,
    }
}

pub(crate) fn copy_opt_tok(o: &Option<Tok>) -> (r: Option<Tok>)
    ensures
        opt_tok(r) == opt_tok(*o),
{
    match o {
        Some(t) => Some(t.copy()),
        None => None,
    }
}

/// The tokens of a return type: `-> Type`, or nothing.
pub open spec fn ret_toks(o: Option<ReturnType>) -> Seq<TokV> {
    match o {
        Some(rt) => toks_view(rt.arrow@) + toks_view(rt.ty@),
        None => Seq::empty(),
    }
}

/// Whether `f` is the plain function type a detour stores for a function
/// with signature `sig`, qualifiers `unsafety` and `abi`, and self type `st`.
pub open spec fn is_bare_fn_type(f: BareFnType, sig: Signature, unsafety: Option<Tok>, abi: Option<Abi>, st: Option<TokV>) -> bool {
    &&& opt_tok(f.unsafety) == opt_tok(unsafety)
    &&& crate::attr::abi_toks(f.abi) == crate::attr::abi_toks(abi)
    &&& f.fn_span == sig.fn_span
    &&& f.paren_span == sig.paren_span
    &&& seqs_view(f.inputs@) == bare_args(sig.inputs@, st)
    &&& (match (f.variadic, sig.variadic) {
        (Some(a), Some(b)) => toks_view(a@) == toks_view(b@),
        (None, None) => true,
        _ => false,
    })
    &&& ret_toks(f.output) == ret_toks(sig.output)
}

/// The plain function type a detour stores for a function with signature
/// `sig`. With a self type, `Self` in argument types is replaced and receivers
/// become pointers; without one, receivers are dropped. The return type is kept as written.
pub fn bare_fn_type(sig: &Signature, unsafety: &Option<Tok>, abi: &Option<Abi>, self_ty: Option<&Tok>) -> (r: BareFnType)
    ensures
        is_bare_fn_type(r, *sig, *unsafety, *abi, opt_view(self_ty)),
{
    let ghost st = opt_view(self_ty);
    let mut inputs: Vec<Vec<Tok>> = Vec::new();
    let mut i: usize = 0;
    while i < sig.inputs.len()
        invariant
            i <= sig.inputs@.len(),
            st == opt_view(self_ty),
            seqs_view(inputs@) == bare_args(sig.inputs@.subrange(0, i as int), st),
        decreases sig.inputs@.len() - i,
    {
        let ghost prev = inputs@;
        assert(sig.inputs@.subrange(0, i + 1).drop_last() =~= sig.inputs@.subrange(0, i as int));
        match &sig.inputs[i] {
            FnArg::Typed(p) => {
                let mut x = copy_toks(&p.attrs);
                let t = lower_ty(p, self_ty);
                extend_toks(&mut x, &t);
                inputs.push(x);
                assert(seqs_view(inputs@) =~= seqs_view(prev).push(toks_view(x@)));
            },
            FnArg::Receiver(rc) => {
                match self_ty {
                    Some(stt) => {
                        let pa = receiver_to_ptr_arg(rc, stt);
                        let mut x = copy_toks(&rc.attrs);
                        extend_toks(&mut x, &pa.ty);
                        inputs.push(x);
                        assert(seqs_view(inputs@) =~= seqs_view(prev).push(toks_view(x@)));
                    },
                    None => {},
                }
            },
        }
        i = i + 1;
    }
    assert(sig.inputs@.subrange(0, sig.inputs@.len() as int) =~= sig.inputs@);
    BareFnType {
        unsafety: copy_opt_tok(unsafety),
        abi: copy_abi(abi),
        fn_span: sig.fn_span,
        paren_span: sig.paren_span,
        inputs,
        variadic: match &sig.variadic {
            Some(v) => Some(copy_toks(v)),
            None => None,
        },
        output: copy_output(&sig.output),
    }
}

/// The name an argument is passed on by: its pattern, or `self_ptr` for a receiver.
pub open spec fn arg_name(a: FnArg) -> Seq<TokV> {
    match a {
        FnArg::Typed(p) => toks_view(p.pat@),
        FnArg::Receiver(r) => seq![self_ptr_name(r)],
    }
}

/// Whether some parameter is a receiver.
pub open spec fn has_receiver(args: Seq<FnArg>) -> bool {
    exists|i: int| 0 <= i < args.len() && args[i] is Receiver
}

fn arg_name_of(a: &FnArg) -> (r: Vec<Tok>)
    ensures
        toks_view(r@) == arg_name(*a),
{
    match a {
        FnArg::Typed(p) => copy_toks(&p.pat),
        FnArg::Receiver(rc) => {
            let mut v: Vec<Tok> = Vec::new();
            v.push(Tok::Ident { text: text_of("self_ptr"), span: rc.self_span });
            assert(toks_view(v@) =~= seq![self_ptr_name(*rc)]);
            v
        },
    }
}

/// The `self` spans of the receivers among `args`, in order.
pub open spec fn receiver_spans(args: Seq<FnArg>) -> Seq<usize>
    decreases args.len(),
{
    if args.len() == 0 {
        Seq::empty()
    } else {
        let front = receiver_spans(args.drop_last());
        match args.last() {
            FnArg::Receiver(r) => front.push(r.self_span),
            FnArg::Typed(_) => front,
        }
    }
}

/// The argument names of a free function. A receiver is refused: the error
/// holds the spans of all receivers, one per receiver, in order.
pub fn arg_names(sig: &Signature) -> (r: Result<Vec<Vec<Tok>>, Vec<usize>>)
    ensures
        r is Ok <==> !has_receiver(sig.inputs@),
        r matches Ok(v) ==> seqs_view(v@) == Seq::new(sig.inputs@.len(), |i: int| arg_name(sig.inputs@[i])),
        r matches Err(e) ==> e@.len() > 0 && e@ == receiver_spans(sig.inputs@),
{
    let mut names: Vec<Vec<Tok>> = Vec::new();
    let mut errs: Vec<usize> = Vec::new();
    let mut i: usize = 0;
    while i < sig.inputs.len()
        invariant
            i <= sig.inputs@.len(),
            errs@ == receiver_spans(sig.inputs@.subrange(0, i as int)),
            names@.len() == i,
            forall|j: int| 0 <= j < i ==> toks_view(#[trigger] names@[j]@) == arg_name(sig.inputs@[j]),
            (errs@.len() == 0) == !(exists|j: int| 0 <= j < i && sig.inputs@[j] is Receiver),
        decreases sig.inputs@.len() - i,
    {
        assert(sig.inputs@.subrange(0, i + 1).drop_last() =~= sig.inputs@.subrange(0, i as int));
        if let FnArg::Receiver(rc) = &sig.inputs[i] {
            errs.push(rc.self_span);
        }
        names.push(arg_name_of(&sig.inputs[i]));
        i = i + 1;
    }
    assert(sig.inputs@.subrange(0, sig.inputs@.len() as int) =~= sig.inputs@);
    if errs.len() > 0 {
        Err(errs)
    } else {
        assert(seqs_view(names@) =~= Seq::new(sig.inputs@.len(), |i: int| arg_name(sig.inputs@[i])));
        Ok(names)
    }
}

/// The argument names of a method, receivers passed on as `self_ptr`.
pub fn arg_names_with_self(sig: &Signature) -> (r: Vec<Vec<Tok>>)
    ensures
        seqs_view(r@) == Seq::new(sig.inputs@.len(), |i: int| arg_name(sig.inputs@[i])),
{
    let mut names: Vec<Vec<Tok>> = Vec::new();
    let mut i: usize = 0;
    while i < sig.inputs.len()
        invariant
            i <= sig.inputs@.len(),
            names@.len() == i,
            forall|j: int| 0 <= j < i ==> toks_view(#[trigger] names@[j]@) == arg_name(sig.inputs@[j]),
        decreases sig.inputs@.len() - i,
    {
        names.push(arg_name_of(&sig.inputs[i]));
        i = i + 1;
    }
    assert(seqs_view(names@) =~= Seq::new(sig.inputs@.len(), |i: int| arg_name(sig.inputs@[i])));
    names
}

/// `:` at the call site.
pub open spec fn call_colon() -> TokV {
    TokV::Punct { ch: ':', joint: false, span: CALL_SITE }
}

fn new_colon() -> (r: Tok)
    ensures
        r@ == call_colon(),
{
    Tok::Punct { ch: ':', joint: false, span: CALL_SITE }
}

/// One parameter of the trampoline `__ffi_detour`. With a self type it is
/// `pat: Type` (Self replaced; attributes dropped) or `self_ptr: *const/mut T`;
/// without one the parameter is written as it was.
pub open spec fn trampoline_arg(a: FnArg, st: Option<TokV>) -> Seq<TokV> {
    match st {
        Some(s) => match a {
            FnArg::Typed(p) => toks_view(p.pat@) + seq![call_colon()] + typed_ty(p, st),
            FnArg::Receiver(r) => seq![self_ptr_name(r), call_colon()] + receiver_ptr_ty(r, s),
        },
        None => match a {
            FnArg::Typed(p) => toks_view(p.attrs@) + toks_view(p.pat@) + seq![p.colon@] + toks_view(p.ty@),
            FnArg::Receiver(r) => Seq::empty(),
        },
    }
}

/// The parameters of the trampoline for a function with parameters `sig.inputs`.
pub fn trampoline_args(sig: &Signature, self_ty: Option<&Tok>) -> (r: Vec<Vec<Tok>>)
    ensures
        seqs_view(r@) == Seq::new(sig.inputs@.len(), |i: int| trampoline_arg(sig.inputs@[i], opt_view(self_ty))),
{
    let ghost st = opt_view(self_ty);
    let mut out: Vec<Vec<Tok>> = Vec::new();
    let mut i: usize = 0;
    while i < sig.inputs.len()
        invariant
            i <= sig.inputs@.len(),
            st == opt_view(self_ty),
            out@.len() == i,
            forall|j: int| 0 <= j < i ==> toks_view(#[trigger] out@[j]@) == trampoline_arg(sig.inputs@[j], st),
        decreases sig.inputs@.len() - i,
    {
        let mut x: Vec<Tok> = Vec::new();
        match self_ty {
            Some(stt) => match &sig.inputs[i] {
                FnArg::Typed(p) => {
                    extend_toks(&mut x, &p.pat);
                    let c = new_colon();
                    push_tok(&mut x, &c);
                    let t = lower_ty(p, self_ty);
                    extend_toks(&mut x, &t);
                    assert(toks_view(x@) =~= trampoline_arg(sig.inputs@[i as int], st));
                },
                FnArg::Receiver(rc) => {
                    let pa = receiver_to_ptr_arg(rc, stt);
                    extend_toks(&mut x, &pa.pat);
                    let c = new_colon();
                    push_tok(&mut x, &c);
                    extend_toks(&mut x, &pa.ty);
                    assert(toks_view(x@) =~= trampoline_arg(sig.inputs@[i as int], st));
                },
            },
            None => match &sig.inputs[i] {
                FnArg::Typed(p) => {
                    extend_toks(&mut x, &p.attrs);
                    extend_toks(&mut x, &p.pat);
                    push_tok(&mut x, &p.colon);
                    extend_toks(&mut x, &p.ty);
                    assert(toks_view(x@) =~= trampoline_arg(sig.inputs@[i as int], st));
                },
                FnArg::Receiver(_) => {
                    assert(toks_view(x@) =~= trampoline_arg(sig.inputs@[i as int], st));
                },
            },
        }
        out.push(x);
        i = i + 1;
    }
    assert(seqs_view(out@) =~= Seq::new(sig.inputs@.len(), |i: int| trampoline_arg(sig.inputs@[i], st)));
    out
}

/// The decimal digit of `d < 10`.
pub open spec fn digit(d: nat) -> char {
    if d == 0 { '0' } else if d == 1 { '1' } else if d == 2 { '2' } else if d == 3 { '3' } else if d == 4 {
        '4'
    } else if d == 5 { '5' } else if d == 6 { '6' } else if d == 7 { '7' } else if d == 8 { '8' } else { '9' }
}

/// The decimal spelling of `n`.
pub open spec fn decimal(n: nat) -> Seq<char>
    decreases n,
{
    if n < 10 {
        seq![digit(n)]
    } else {
        decimal(n / 10).push(digit(n % 10))
    }
}

fn digit_char(d: usize) -> (c: char)
    requires
        d < 10,
    ensures
        c == digit(d as nat),
{
    if d == 0 { '0' } else if d == 1 { '1' } else if d == 2 { '2' } else if d == 3 { '3' } else if d == 4 {
        '4'
    } else if d == 5 { '5' } else if d == 6 { '6' } else if d == 7 { '7' } else if d == 8 { '8' } else { '9' }
}

/// Appends the decimal spelling of `n` to `v`.
pub fn push_decimal(v: &mut Vec<char>, n: usize)
    ensures
        final(v)@ == old(v)@ + decimal(n as nat),
    decreases n,
{
    if n < 10 {
        v.push(digit_char(n));
        assert(v@ =~= old(v)@ + decimal(n as nat));
    } else {
        push_decimal(v, n / 10);
        v.push(digit_char(n % 10));
        assert(v@ =~= old(v)@ + decimal(n as nat));
    }
}

/// `*mut ()` at the call site.
pub open spec fn unit_ptr_ty() -> Seq<TokV> {
    seq![
        TokV::Punct { ch: '*', joint: false, span: CALL_SITE },
        TokV::Ident { text: "mut"@, span: CALL_SITE },
        TokV::Group { delim: Delim::Paren, body: Seq::empty(), span: CALL_SITE },
    ]
}

/// `__arg{i}` at the call site.
pub open spec fn positional_name(i: int) -> TokV {
    TokV::Ident { text: "__arg"@ + decimal(i as nat), span: CALL_SITE }
}

/// The type a parameter has in the chain's `call` and `hook` methods.
pub open spec fn chain_arg_type(a: FnArg, st: Option<TokV>) -> Seq<TokV> {
    match a {
        FnArg::Typed(p) => typed_ty(p, st),
        FnArg::Receiver(r) => match st {
            Some(s) => receiver_ptr_ty(r, s),
            None => unit_ptr_ty(),
        },
    }
}

/// The name a parameter has in the chain's `call` method.
pub open spec fn chain_arg_name(a: FnArg, st: Option<TokV>, i: int) -> Seq<TokV> {
    match a {
        FnArg::Typed(p) => toks_view(p.pat@),
        FnArg::Receiver(r) => match st {
            Some(s) => seq![self_ptr_name(r)],
            None => seq![positional_name(i)],
        },
    }
}

/// The pieces of the chain's `call` and `hook` methods.
pub struct ChainParts {
    /// `name: Type` for each parameter.
    pub typed_args: Vec<Vec<Tok>>,
    pub arg_types: Vec<Vec<Tok>>,
    pub arg_names: Vec<Vec<Tok>>,
    /// `-> Type`, or empty.
    pub ret_ty: Vec<Tok>,
}

/// Whether `p` holds the chain-method pieces for signature `sig` and self type `st`.
pub open spec fn is_chain_parts(p: ChainParts, sig: Signature, st: Option<TokV>) -> bool {
    &&& seqs_view(p.arg_types@) == Seq::new(sig.inputs@.len(), |i: int| chain_arg_type(sig.inputs@[i], st))
    &&& seqs_view(p.arg_names@) == Seq::new(sig.inputs@.len(), |i: int| chain_arg_name(sig.inputs@[i], st, i))
    &&& seqs_view(p.typed_args@) == Seq::new(sig.inputs@.len(), |i: int|
        chain_arg_name(sig.inputs@[i], st, i) + seq![call_colon()] + chain_arg_type(sig.inputs@[i], st))
    &&& toks_view(p.ret_ty@) == ret_toks(sig.output)
}

/// The typed arguments, argument types, argument names and return type of
/// the chain methods: the i-th typed argument is the i-th name, `:` and the i-th type.
pub fn chain_call_parts(sig: &Signature, self_ty: Option<&Tok>) -> (r: ChainParts)
    ensures
        is_chain_parts(r, *sig, opt_view(self_ty)),
{
    let ghost st = opt_view(self_ty);
    let mut typed_args: Vec<Vec<Tok>> = Vec::new();
    let mut arg_types: Vec<Vec<Tok>> = Vec::new();
    let mut names: Vec<Vec<Tok>> = Vec::new();
    let mut i: usize = 0;
    while i < sig.inputs.len()
        invariant
            i <= sig.inputs@.len(),
            st == opt_view(self_ty),
            typed_args@.len() == i,
            arg_types@.len() == i,
            names@.len() == i,
            forall|j: int| 0 <= j < i ==> toks_view(#[trigger] arg_types@[j]@) == chain_arg_type(sig.inputs@[j], st),
            forall|j: int| 0 <= j < i ==> toks_view(#[trigger] names@[j]@) == chain_arg_name(sig.inputs@[j], st, j),
            forall|j: int| 0 <= j < i ==> toks_view(#[trigger] typed_args@[j]@)
                == chain_arg_name(sig.inputs@[j], st, j) + seq![call_colon()] + chain_arg_type(sig.inputs@[j], st),
        decreases sig.inputs@.len() - i,
    {
        let (name, ty) = match &sig.inputs[i] {
            FnArg::Typed(p) => (copy_toks(&p.pat), lower_ty(p, self_ty)),
            FnArg::Receiver(rc) => match self_ty {
                Some(stt) => {
                    let pa = receiver_to_ptr_arg(rc, stt);
                    (pa.pat, pa.ty)
                },
                None => {
                    let mut text: Vec<char> = Vec::new();
                    push_str(&mut text, "__arg");
                    push_decimal(&mut text, i);
                    let mut name: Vec<Tok> = Vec::new();
                    name.push(Tok::Ident { text, span: CALL_SITE });
                    let mut ty: Vec<Tok> = Vec::new();
                    ty.push(Tok::Punct { ch: '*', joint: false, span: CALL_SITE });
                    ty.push(Tok::Ident { text: text_of("mut"), span: CALL_SITE });
                    let empty: Vec<Tok> = Vec::new();
                    assert(toks_view(empty@) =~= Seq::<TokV>::empty());
                    ty.push(Tok::Group { delim: Delim::Paren, body: empty, span: CALL_SITE });
                    assert(toks_view(ty@) =~= unit_ptr_ty());
                    assert(toks_view(name@) =~= seq![positional_name(i as int)]);
                    (name, ty)
                },
            },
        };
        assert(toks_view(name@) == chain_arg_name(sig.inputs@[i as int], st, i as int));
        assert(toks_view(ty@) == chain_arg_type(sig.inputs@[i as int], st));
        let mut typed = copy_toks(&name);
        let c = new_colon();
        push_tok(&mut typed, &c);
        extend_toks(&mut typed, &ty);
        assert(toks_view(typed@) =~= toks_view(name@) + seq![call_colon()] + toks_view(ty@));
        typed_args.push(typed);
        arg_types.push(ty);
        names.push(name);
        i = i + 1;
    }
    let mut ret_ty: Vec<Tok> = Vec::new();
    match &sig.output {
        Some(rt) => {
            extend_toks(&mut ret_ty, &rt.arrow);
            extend_toks(&mut ret_ty, &rt.ty);
        },
        None => {},
    }
    assert(toks_view(ret_ty@) =~= ret_toks(sig.output));
    assert(seqs_view(arg_types@) =~= Seq::new(sig.inputs@.len(), |i: int| chain_arg_type(sig.inputs@[i], st)));
    assert(seqs_view(names@) =~= Seq::new(sig.inputs@.len(), |i: int| chain_arg_name(sig.inputs@[i], st, i)));
    assert(seqs_view(typed_args@) =~= Seq::new(sig.inputs@.len(), |i: int|
        chain_arg_name(sig.inputs@[i], st, i) + seq![call_colon()] + chain_arg_type(sig.inputs@[i], st)));
    ChainParts { typed_args, arg_types, arg_names: names, ret_ty }
}

/// Whether two parameters have the same tokens.
pub open spec fn arg_same(a: FnArg, b: FnArg) -> bool {
    match (a, b) {
        (FnArg::Typed(p), FnArg::Typed(q)) => {
            &&& toks_view(p.attrs@) == toks_view(q.attrs@)
            &&& toks_view(p.pat@) == toks_view(q.pat@)
            &&& p.colon@ == q.colon@
            &&& toks_view(p.ty@) == toks_view(q.ty@)
        },
        (FnArg::Receiver(r), FnArg::Receiver(s)) => {
            &&& toks_view(r.attrs@) == toks_view(s.attrs@)
            &&& r.reference == s.reference
            &&& opt_tok(r.mutability) == opt_tok(s.mutability)
            &&& r.self_span == s.self_span
        },
        _ => false,
    }
}

/// Whether two signatures agree in everything but their name.
pub open spec fn sig_same_but_ident(a: Signature, b: Signature) -> bool {
    &&& a.fn_span == b.fn_span
    &&& a.paren_span == b.paren_span
    &&& a.inputs@.len() == b.inputs@.len()
    &&& forall|i: int| 0 <= i < a.inputs@.len() ==> arg_same(#[trigger] a.inputs@[i], b.inputs@[i])
    &&& (match (a.variadic, b.variadic) {
        (Some(x), Some(y)) => toks_view(x@) == toks_view(y@),
        (None, None) => true,
        _ => false,
    })
    &&& ret_toks(a.output) == ret_toks(b.output)
    &&& (a.output is Some) == (b.output is Some)
}

fn copy_arg(a: &FnArg) -> (r: FnArg)
    ensures
        arg_same(r, *a),
{
    match a {
        FnArg::Typed(p) => FnArg::Typed(PatType {
            attrs: copy_toks(&p.attrs),
            pat: copy_toks(&p.pat),
            colon: p.colon.copy(),
            ty: copy_toks(&p.ty),
        }),
        FnArg::Receiver(rc) => FnArg::Receiver(Receiver {
            attrs: copy_toks(&rc.attrs),
            reference: match &rc.reference {
                Some(rf) => Some(RefToken { and_span: rf.and_span }),
                None => None,
            },
            mutability: copy_opt_tok(&rc.mutability),
            self_span: rc.self_span,
        }),
    }
}

impl Signature {
    /// A copy of this signature under the name `ident`.
    pub fn copy_with_ident(&self, ident: Tok) -> (r: Signature)
        ensures
            sig_same_but_ident(r, *self),
            r.ident == ident,
    {
        let mut inputs: Vec<FnArg> = Vec::new();
        let mut i: usize = 0;
        while i < self.inputs.len()
            invariant
                i <= self.inputs@.len(),
                inputs@.len() == i,
                forall|j: int| 0 <= j < i ==> arg_same(#[trigger] inputs@[j], self.inputs@[j]),
            decreases self.inputs@.len() - i,
        {
            inputs.push(copy_arg(&self.inputs[i]));
            i = i + 1;
        }
        Signature {
            ident,
            fn_span: self.fn_span,
            paren_span: self.paren_span,
            inputs,
            variadic: match &self.variadic {
                Some(v) => Some(copy_toks(v)),
                None => None,
            },
            output: copy_output(&self.output),
        }
    }
}

/// Signatures that agree but for their names take `self` alike.
pub proof fn lemma_same_receivers(a: Signature, b: Signature)
    requires
        sig_same_but_ident(a, b),
    ensures
        has_receiver(a.inputs@) == has_receiver(b.inputs@),
{
    if has_receiver(a.inputs@) {
        let i = choose|i: int| 0 <= i < a.inputs@.len() && a.inputs@[i] is Receiver;
        assert(arg_same(a.inputs@[i], b.inputs@[i]));
    }
    if has_receiver(b.inputs@) {
        let i = choose|i: int| 0 <= i < b.inputs@.len() && b.inputs@[i] is Receiver;
        assert(arg_same(a.inputs@[i], b.inputs@[i]));
    }
}

} // verus!
