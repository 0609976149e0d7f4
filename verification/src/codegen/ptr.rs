//! The accessor of each `#[ptr(...)]` constant: its type, the static that
//! holds the resolved address, and (in an impl block) the constant naming it.
use vstd::prelude::*;
use crate::codegen::chain::{Alias, AliasKind};
use crate::model::Ptr;
use crate::tokens::{affixed, copy_toks, prefix_ident, suffix_ident, toks_view, Tok, TokV};

verus! {

/// The accessor type of pointer `name`: `{name}_PtrAccessor`.
pub open spec fn accessor_type_name(name: TokV) -> TokV {
    affixed(name, Seq::empty(), "_PtrAccessor"@)
}

/// The static backing pointer `name` inside an impl block: `__PTR_{name}`.
pub open spec fn impl_ptr_static_name(name: TokV) -> TokV {
    affixed(name, "__PTR_"@, Seq::empty())
}

/// `vis struct name { [pub] addr: AtomicUsize }` with `new`, `as_ptr`, `read`
/// and `write` over the pointee type `ty`.
pub struct AccessorType {
    pub vis: Vec<Tok>,
    pub name: Tok,
    pub ty: Vec<Tok>,
    /// Whether the `addr` field is public.
    pub addr_public: bool,
}

/// Whether `a` is the accessor type of pointer `p`.
pub open spec fn accessor_type_of(a: AccessorType, p: Ptr) -> bool {
    &&& toks_view(a.vis@) == toks_view(p.vis@)
    &&& a.name@ == accessor_type_name(p.name@)
    &&& toks_view(a.ty@) == toks_view(p.ty@)
}

/// The accessor type of pointer `p`, with a public `addr` field.
pub fn accessor_type(p: &Ptr) -> (r: AccessorType)
    ensures
        accessor_type_of(r, *p),
        r.addr_public,
{
    accessor_type_with(p, true)
}

/// The accessor type of pointer `p`, its `addr` field public or not.
pub fn accessor_type_with(p: &Ptr, addr_public: bool) -> (r: AccessorType)
    ensures
        accessor_type_of(r, *p),
        r.addr_public == addr_public,
{
    AccessorType { vis: copy_toks(&p.vis), name: suffix_ident(&p.name, "_PtrAccessor"), ty: copy_toks(&p.ty), addr_public }
}

/// `vis static name: ty_name = ty_name::new();`
pub struct PtrStatic {
    pub vis: Vec<Tok>,
    pub name: Tok,
    pub ty_name: Tok,
}

/// Whether `s` is the static of pointer `p` in a module: under the constant's own name and visibility.
pub open spec fn module_static_of(s: PtrStatic, p: Ptr) -> bool {
    &&& toks_view(s.vis@) == toks_view(p.vis@)
    &&& s.name@ == p.name@
    &&& s.ty_name@ == accessor_type_name(p.name@)
}

/// Whether `s` is the private static backing pointer `p` in an impl block.
pub open spec fn impl_static_of(s: PtrStatic, p: Ptr) -> bool {
    &&& s.vis@.len() == 0
    &&& s.name@ == impl_ptr_static_name(p.name@)
    &&& s.ty_name@ == accessor_type_name(p.name@)
}

/// The static of pointer `p` in a module.
pub fn module_static(p: &Ptr) -> (r: PtrStatic)
    ensures
        module_static_of(r, *p),
{
    PtrStatic { vis: copy_toks(&p.vis), name: p.name.copy(), ty_name: suffix_ident(&p.name, "_PtrAccessor") }
}

/// The private static backing pointer `p` in an impl block.
pub fn impl_static(p: &Ptr) -> (r: PtrStatic)
    ensures
        impl_static_of(r, *p),
{
    PtrStatic { vis: Vec::new(), name: prefix_ident(&p.name, "__PTR_"), ty_name: suffix_ident(&p.name, "_PtrAccessor") }
}

/// Whether `a` is the associated constant naming pointer `p`'s backing static.
pub open spec fn ptr_const_of(a: Alias, p: Ptr) -> bool {
    &&& a.kind == AliasKind::Const
    &&& toks_view(a.vis@) == toks_view(p.vis@)
    &&& a.name@ == p.name@
    &&& a.ty_name@ == accessor_type_name(p.name@)
    &&& a.target@ == impl_ptr_static_name(p.name@)
}

/// The associated `const name: &{name}_PtrAccessor = &__PTR_{name};`.
pub fn impl_const(p: &Ptr) -> (r: Alias)
    ensures
        ptr_const_of(r, *p),
{
    Alias {
        kind: AliasKind::Const,
        vis: copy_toks(&p.vis),
        name: p.name.copy(),
        ty_name: suffix_ident(&p.name, "_PtrAccessor"),
        target: prefix_ident(&p.name, "__PTR_"),
    }
}

} // verus!
