//! Signature helpers of the fold-based expansion, over a hook attribute's qualifiers.
use vstd::prelude::*;
pub use crate::signature::{receiver_to_ptr_arg, replace_self_in_type};
use crate::attr::HookAttr;
use crate::signature::{
    arg_name, arg_names, arg_names_with_self, bare_fn_type, has_receiver, receiver_spans, is_bare_fn_type, seqs_view, BareFnType, FnArg,
    Signature};
use crate::tokens::{copy_toks, toks_view, Tok};

verus! {

/// The plain function type of a free function with signature `sig`, hooked by `hook_info`.
pub fn fn_type(sig: &Signature, hook_info: &HookAttr) -> (r: BareFnType)
    ensures
        is_bare_fn_type(r, *sig, hook_info.unsafety, hook_info.abi, None),
{
    bare_fn_type(sig, &hook_info.unsafety, &hook_info.abi, None)
}

/// The plain function type of a method of `self_ty` with signature `sig`, hooked by `hook_info`.
pub fn fn_type_with_self(sig: &Signature, hook_info: &HookAttr, self_ty: &Tok) -> (r: BareFnType)
    ensures
        is_bare_fn_type(r, *sig, hook_info.unsafety, hook_info.abi, Some(self_ty@)),
{
    bare_fn_type(sig, &hook_info.unsafety, &hook_info.abi, Some(self_ty))
}

/// The argument names of a free function; `self` is refused, with the
/// spans of the receivers, one per receiver, in order.
pub fn fn_arg_names(sig: &Signature) -> (r: Result<Vec<Vec<Tok>>, Vec<usize>>)
    ensures
        r is Ok <==> !has_receiver(sig.inputs@),
        r matches Ok(v) ==> seqs_view(v@) == Seq::new(sig.inputs@.len(), |i: int| arg_name(sig.inputs@[i])),
        r matches Err(e) ==> e@.len() > 0 && e@ == receiver_spans(sig.inputs@),
{
    arg_names(sig)
}

/// The argument names of a method of `self_ty`, receivers passed on as `self_ptr`.
pub fn fn_arg_names_with_self(sig: &Signature, self_ty: &Tok) -> (r: Vec<Vec<Tok>>)
    ensures
        seqs_view(r@) == Seq::new(sig.inputs@.len(), |i: int| arg_name(sig.inputs@[i])),
{
    arg_names_with_self(sig)
}

/// The declared type of a parameter, for a typed one.
pub open spec fn declared_type(a: FnArg) -> Seq<crate::tokens::TokV> {
    match a {
        FnArg::Typed(p) => toks_view(p.ty@),
        FnArg::Receiver(_) => Seq::empty(),
    }
}

/// The argument types of a free function, as written; `self` is refused,
/// with the spans of the receivers, one per receiver, in order.
pub fn fn_types(sig: &Signature) -> (r: Result<Vec<Vec<Tok>>, Vec<usize>>)
    ensures
        r is Ok <==> !has_receiver(sig.inputs@),
        r matches Ok(v) ==> seqs_view(v@) == Seq::new(sig.inputs@.len(), |i: int| declared_type(sig.inputs@[i])),
        r matches Err(e) ==> e@.len() > 0 && e@ == receiver_spans(sig.inputs@),
{
    let mut types: Vec<Vec<Tok>> = Vec::new();
    let mut errs: Vec<usize> = Vec::new();
    let mut i: usize = 0;
    while i < sig.inputs.len()
        invariant
            i <= sig.inputs@.len(),
            errs@ == receiver_spans(sig.inputs@.subrange(0, i as int)),
            types@.len() <= i,
            (errs@.len() == 0) ==> types@.len() == i,
            (errs@.len() == 0) ==> forall|j: int| 0 <= j < i ==> toks_view(#[trigger] types@[j]@) == declared_type(sig.inputs@[j]),
            (errs@.len() == 0) == !(exists|j: int| 0 <= j < i && sig.inputs@[j] is Receiver),
        decreases sig.inputs@.len() - i,
    {
        assert(sig.inputs@.subrange(0, i + 1).drop_last() =~= sig.inputs@.subrange(0, i as int));
        match &sig.inputs[i] {
            FnArg::Typed(p) => types.push(copy_toks(&p.ty)),
            FnArg::Receiver(rc) => errs.push(rc.self_span),
        }
        i = i + 1;
    }
    assert(sig.inputs@.subrange(0, sig.inputs@.len() as int) =~= sig.inputs@);
    if errs.len() > 0 {
        Err(errs)
    } else {
        assert(seqs_view(types@) =~= Seq::new(sig.inputs@.len(), |i: int| declared_type(sig.inputs@[i])));
        Ok(types)
    }
}

} // verus!
