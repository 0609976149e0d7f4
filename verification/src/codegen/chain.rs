//! The wrapper chain of a `chain` detour: its type, its static, and the
//! aliases that give it the hooked function's name.
use vstd::prelude::*;
use crate::collect::opt_view_of;
use crate::codegen::detour::{chain_static_name, chain_type_name};
use crate::model::{CratePaths, Detour};
use crate::signature::{bare_fn_type, chain_call_parts, is_bare_fn_type, is_chain_parts, opt_view, BareFnType, ChainParts};
use crate::tokens::{copy_toks, suffix_ident, toks_view, Tok};

verus! {

/// The chain type `{detour}__ChainType` (holding the detour and its
/// wrappers, with `new`, `hook` and `call`) and its static `{detour}__chain`.
pub struct ChainStatic {
    /// The hooked function's visibility, given to the type, its methods and the static.
    pub vis: Vec<Tok>,
    pub ty_name: Tok,
    pub static_name: Tok,
    /// The detour static the chain calls through last.
    pub detour_name: Tok,
    pub private_static_detour: Vec<Vec<char>>,
    pub private_mutex: Vec<Vec<char>>,
    pub fn_type: BareFnType,
    pub parts: ChainParts,
    /// Whether the call of the original goes in an `unsafe` block.
    pub unsafe_call: bool,
    /// Whether a wrapper takes `next` before the arguments (else after them).
    pub next_first: bool,
    /// Whether `call` runs the wrappers most recently registered first; the
    /// last `next` calls the original function.
    pub newest_first: bool,
}

/// Whether `c` is the wrapper chain of detour `d` with crate paths `paths`.
pub open spec fn chain_static_of(c: ChainStatic, d: Detour, paths: CratePaths) -> bool {
    &&& toks_view(c.vis@) == toks_view(d.fn_visibility@)
    &&& c.ty_name@ == chain_type_name(d.attr.detour_name@)
    &&& c.static_name@ == chain_static_name(d.attr.detour_name@)
    &&& c.detour_name@ == d.attr.detour_name@
    &&& c.private_static_detour@.len() == 3
    &&& c.private_static_detour@[0]@ == paths.runtime@
    &&& c.private_static_detour@[1]@ == "__private"@
    &&& c.private_static_detour@[2]@ == "StaticDetour"@
    &&& c.private_mutex@.len() == 3
    &&& c.private_mutex@[0]@ == paths.runtime@
    &&& c.private_mutex@[1]@ == "__private"@
    &&& c.private_mutex@[2]@ == "Mutex"@
    &&& is_bare_fn_type(c.fn_type, d.fn_sig, d.attr.unsafety, d.attr.abi, opt_view_of(d.self_type))
    &&& is_chain_parts(c.parts, d.fn_sig, opt_view_of(d.self_type))
    &&& c.unsafe_call == (d.attr.unsafety is Some)
    &&& c.newest_first
}

/// The wrapper chain of detour `d`; a wrapper takes the arguments, then `next`.
pub fn chain_static(d: &Detour, paths: &CratePaths) -> (r: ChainStatic)
    ensures
        chain_static_of(r, *d, *paths),
        !r.next_first,
{
    chain_static_with(d, paths, false)
}

/// The wrapper chain of detour `d`, with `next` taken first or last.
pub fn chain_static_with(d: &Detour, paths: &CratePaths, next_first: bool) -> (r: ChainStatic)
    ensures
        chain_static_of(r, *d, *paths),
        r.next_first == next_first,
{
    let st = d.self_type.as_ref();
    assert(opt_view(st) == opt_view_of(d.self_type));
    ChainStatic {
        vis: copy_toks(&d.fn_visibility),
        ty_name: suffix_ident(&d.attr.detour_name, "__ChainType"),
        static_name: suffix_ident(&d.attr.detour_name, "__chain"),
        detour_name: d.attr.detour_name.copy(),
        private_static_detour: paths.private_static_detour(),
        private_mutex: paths.private_mutex(),
        fn_type: bare_fn_type(&d.fn_sig, &d.attr.unsafety, &d.attr.abi, st),
        parts: chain_call_parts(&d.fn_sig, st),
        unsafe_call: d.attr.unsafety.is_some(),
        next_first,
        newest_first: true,
    }
}

/// Whether an alias is a `static` (in a module) or an associated `const` (in an impl block).
#[derive(PartialEq, Eq, Structural, Clone, Copy, Debug)]
pub enum AliasKind {
    Static,
    Const,
}

/// `vis static|const name: &ty_name = &target;`
pub struct Alias {
    pub kind: AliasKind,
    pub vis: Vec<Tok>,
    pub name: Tok,
    pub ty_name: Tok,
    pub target: Tok,
}

/// Whether `a` is the alias of kind `kind` that gives detour `d`'s chain the hooked function's name.
pub open spec fn chain_alias_of(a: Alias, d: Detour, kind: AliasKind) -> bool {
    &&& a.kind == kind
    &&& toks_view(a.vis@) == toks_view(d.fn_visibility@)
    &&& a.name@ == d.original_fn_name@
    &&& a.ty_name@ == chain_type_name(d.attr.detour_name@)
    &&& a.target@ == chain_static_name(d.attr.detour_name@)
}

fn chain_alias(d: &Detour, kind: AliasKind) -> (r: Alias)
    ensures
        chain_alias_of(r, *d, kind),
{
    Alias {
        kind,
        vis: copy_toks(&d.fn_visibility),
        name: d.original_fn_name.copy(),
        ty_name: suffix_ident(&d.attr.detour_name, "__ChainType"),
        target: suffix_ident(&d.attr.detour_name, "__chain"),
    }
}

/// The module-level `static {fn_name}: &{detour}__ChainType = &{detour}__chain;`.
pub fn module_alias(d: &Detour) -> (r: Alias)
    ensures
        chain_alias_of(r, *d, AliasKind::Static),
{
    chain_alias(d, AliasKind::Static)
}

/// The associated `const {fn_name}: &{detour}__ChainType = &{detour}__chain;`.
pub fn impl_const(d: &Detour) -> (r: Alias)
    ensures
        chain_alias_of(r, *d, AliasKind::Const),
{
    chain_alias(d, AliasKind::Const)
}

/// The positions of the chained detours in `s`, in order.
pub open spec fn chained(s: Seq<Detour>) -> Seq<int>
    decreases s.len(),
{
    if s.len() == 0 {
        Seq::empty()
    } else if s.last().attr.chain {
        chained(s.drop_last()).push(s.len() - 1)
    } else {
        chained(s.drop_last())
    }
}

/// The aliases of kind `kind` for the chained detours among `detours`, in order.
pub fn chain_aliases(detours: &Vec<Detour>, kind: AliasKind) -> (r: Vec<Alias>)
    ensures
        r@.len() == chained(detours@).len(),
        forall|k: int| 0 <= k < r@.len() ==> chain_alias_of(#[trigger] r@[k], detours@[chained(detours@)[k]], kind),
{
    let mut out: Vec<Alias> = Vec::new();
    let mut i: usize = 0;
    while i < detours.len()
        invariant
            i <= detours@.len(),
            out@.len() == chained(detours@.subrange(0, i as int)).len(),
            forall|k: int| 0 <= k < out@.len() ==> chain_alias_of(#[trigger] out@[k], detours@[chained(detours@.subrange(0, i as int))[k]], kind),
        decreases detours@.len() - i,
    {
        assert(detours@.subrange(0, i + 1).drop_last() =~= detours@.subrange(0, i as int));
        if detours[i].attr.chain {
            out.push(chain_alias(&detours[i], kind));
        }
        i = i + 1;
    }
    assert(detours@.subrange(0, detours@.len() as int) =~= detours@);
    out
}

} // verus!
