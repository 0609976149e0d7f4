//! The `init_detours()` function: one initialisation per detour and pointer.
use vstd::prelude::*;
use crate::attr::LookupTarget;
use crate::model::{CratePaths, Detour, ExpansionContext, Ptr};
use crate::codegen::ptr::impl_ptr_static_name;
use crate::tokens::{prefix_ident, toks_view, Tok};

verus! {

/// Which `LookupData` constructor a target is looked up with.
#[derive(PartialEq, Eq, Structural, Clone, Copy, Debug)]
pub enum LookupCtor {
    FromOffset,
    FromSymbol,
    FromSelfOffset,
    FromSelfSymbol,
}

/// `path::ctor(module, value)` (the module is left out of the `FromSelf*` constructors).
pub struct LookupCall {
    pub path: Vec<Vec<char>>,
    pub ctor: LookupCtor,
    pub module: Option<Tok>,
    pub value: Vec<Tok>,
}

/// The constructor for a target: relative to the named module when there
/// is one, else to the current executable.
pub open spec fn lookup_ctor(target: LookupTarget, has_module: bool) -> LookupCtor {
    match (target, has_module) {
        (LookupTarget::Offset { .. }, true) => LookupCtor::FromOffset,
        (LookupTarget::Offset { .. }, false) => LookupCtor::FromSelfOffset,
        (LookupTarget::Symbol { .. }, true) => LookupCtor::FromSymbol,
        (LookupTarget::Symbol { .. }, false) => LookupCtor::FromSelfSymbol,
    }
}

/// Whether a constructor takes a module name.
pub open spec fn takes_module(c: LookupCtor) -> bool {
    c == LookupCtor::FromOffset || c == LookupCtor::FromSymbol
}

/// The `LookupData` construction for `target` in a module named `module_name` (if any).
pub fn emit_lookup_data(target: &LookupTarget, module_name: Option<&Tok>, paths: &CratePaths) -> (r: LookupCall)
    ensures
        r.ctor == lookup_ctor(*target, module_name is Some),
        takes_module(r.ctor) <==> module_name is Some,
        r.module matches Some(m) ==> module_name matches Some(n) && m@ == n@,
        r.module is Some == module_name is Some,
        toks_view(r.value@) == target.spec_value_toks(),
        r.path@.len() == 2 && r.path@[0]@ == paths.runtime@ && r.path@[1]@ == "LookupData"@,
{
    let ctor = match (target, module_name.is_some()) {
        (LookupTarget::Offset { .. }, true) => LookupCtor::FromOffset,
        (LookupTarget::Offset { .. }, false) => LookupCtor::FromSelfOffset,
        (LookupTarget::Symbol { .. }, true) => LookupCtor::FromSymbol,
        (LookupTarget::Symbol { .. }, false) => LookupCtor::FromSelfSymbol,
    };
    LookupCall {
        path: paths.lookup_data(),
        ctor,
        module: match module_name {
            Some(m) => Some(m.copy()),
            None => None,
        },
        value: target.value_tokens(),
    }
}

/// What one initialisation does once the address is found.
pub enum InitAction {
    /// Initialise and enable detour `detour_name` to call `self_type::fn_name`
    /// (or `fn_name` in a module).
    Detour { detour_name: Tok, self_type: Option<Tok>, fn_name: Tok },
    /// Store the address in the accessor static `accessor`.
    Ptr { accessor: Tok },
}

/// One `init_detour(lookup, |addr| ...)?` call.
pub struct InitItem {
    pub init_detour: Vec<Vec<char>>,
    pub function: Vec<Vec<char>>,
    pub lookup: LookupCall,
    pub action: InitAction,
}

/// The `init_detours()` function.
pub struct InitFn {
    pub error: Vec<Vec<char>>,
    pub inits: Vec<InitItem>,
}

/// Whether `i` initialises detour `d` in context `ctx` with paths `paths`.
pub open spec fn init_of_detour(i: InitItem, d: Detour, ctx: ExpansionContext, paths: CratePaths) -> bool {
    &&& init_paths_of(i, paths)
    &&& i.lookup.ctor == lookup_ctor(d.attr.target, ctx.spec_module_name() is Some)
    &&& toks_view(i.lookup.value@) == d.attr.target.spec_value_toks()
    &&& (i.lookup.module is Some) == (ctx.spec_module_name() is Some)
    &&& (i.lookup.module matches Some(m) ==> m@ == ctx.spec_module_name().unwrap()@)
    &&& i.action matches InitAction::Detour { detour_name, self_type, fn_name } && {
        &&& detour_name@ == d.attr.detour_name@
        &&& fn_name@ == d.fn_sig.ident@
        &&& match ctx {
            ExpansionContext::Module { .. } => self_type is None,
            ExpansionContext::Impl { self_type: st, .. } => self_type matches Some(t) && t@ == st@,
        }
    }
}

/// Whether the paths `i` calls through are `::runtime::init_detour`,
/// `::retour::Function` and `::runtime::LookupData`.
pub open spec fn init_paths_of(i: InitItem, paths: CratePaths) -> bool {
    &&& i.init_detour@.len() == 2
    &&& i.init_detour@[0]@ == paths.runtime@
    &&& i.init_detour@[1]@ == "init_detour"@
    &&& i.function@.len() == 2
    &&& i.function@[0]@ == paths.retour@
    &&& i.function@[1]@ == "Function"@
    &&& i.lookup.path@.len() == 2
    &&& i.lookup.path@[0]@ == paths.runtime@
    &&& i.lookup.path@[1]@ == "LookupData"@
}

/// Whether `i` initialises pointer `p` in context `ctx` with paths `paths`.
pub open spec fn init_of_ptr(i: InitItem, p: Ptr, ctx: ExpansionContext, paths: CratePaths) -> bool {
    init_of_ptr_at(i, p, ctx.spec_module_name(), ctx is Impl, paths)
}

/// Whether `i` initialises pointer `p`, for module literal `module` and in
/// an impl block or not as `in_impl` says.
pub open spec fn init_of_ptr_at(i: InitItem, p: Ptr, module: Option<Tok>, in_impl: bool, paths: CratePaths) -> bool {
    &&& init_paths_of(i, paths)
    &&& i.lookup.ctor == lookup_ctor(p.attr.target, module is Some)
    &&& toks_view(i.lookup.value@) == p.attr.target.spec_value_toks()
    &&& (i.lookup.module is Some) == (module is Some)
    &&& (i.lookup.module matches Some(m) ==> m@ == module.unwrap()@)
    &&& i.action matches InitAction::Ptr { accessor } && accessor@ == if in_impl {
        impl_ptr_static_name(p.name@)
    } else {
        p.name@
    }
}

fn opt_copy(o: Option<&Tok>) -> (r: Option<Tok>)
    ensures
        (r is Some) == (o is Some),
        r matches Some(t) ==> t@ == o.unwrap()@,
{
    match o {
        Some(t) => Some(t.copy()),
        None => None,
    }
}

/// The initialisation of detour `d`.
pub fn detour_init(d: &Detour, ctx: &ExpansionContext, paths: &CratePaths) -> (r: InitItem)
    ensures
        init_of_detour(r, *d, *ctx, *paths),
{
    let lookup = emit_lookup_data(&d.attr.target, ctx.module_name(), paths);
    InitItem {
        init_detour: paths.init_detour(),
        function: paths.function(),
        lookup,
        action: InitAction::Detour {
            detour_name: d.attr.detour_name.copy(),
            self_type: opt_copy(ctx.self_type()),
            fn_name: d.fn_sig.ident.copy(),
        },
    }
}

/// The initialisation of pointer `p`.
pub fn ptr_init(p: &Ptr, ctx: &ExpansionContext, paths: &CratePaths) -> (r: InitItem)
    ensures
        init_of_ptr(r, *p, *ctx, *paths),
{
    let in_impl = match ctx {
        ExpansionContext::Module { .. } => false,
        ExpansionContext::Impl { .. } => true,
    };
    ptr_init_at(p, ctx.module_name(), in_impl, paths)
}

/// The initialisation of pointer `p` for module literal `module_name`, in an
/// impl block (storing into `__PTR_{name}`) or not (storing into `name`).
pub fn ptr_init_at(p: &Ptr, module_name: Option<&Tok>, in_impl: bool, paths: &CratePaths) -> (r: InitItem)
    ensures
        init_of_ptr_at(r, *p, match module_name { Some(t) => Some(*t), None => None }, in_impl, *paths),
{
    let lookup = emit_lookup_data(&p.attr.target, module_name, paths);
    let accessor = if in_impl {
        prefix_ident(&p.name, "__PTR_")
    } else {
        p.name.copy()
    };
    InitItem { init_detour: paths.init_detour(), function: paths.function(), lookup, action: InitAction::Ptr { accessor } }
}

/// Whether `f` is the `init_detours()` function for `detours` and `ptrs`:
/// the detours' initialisations in order, then the pointers'.
pub open spec fn init_fn_of(f: InitFn, detours: Seq<Detour>, ptrs: Seq<Ptr>, ctx: ExpansionContext, paths: CratePaths) -> bool {
    &&& f.inits@.len() == detours.len() + ptrs.len()
    &&& forall|k: int| 0 <= k < detours.len() ==> init_of_detour(#[trigger] f.inits@[k], detours[k], ctx, paths)
    &&& forall|k: int| 0 <= k < ptrs.len() ==> init_of_ptr(#[trigger] f.inits@[detours.len() + k], ptrs[k], ctx, paths)
    &&& f.error@.len() == 2
    &&& f.error@[0]@ == paths.runtime@
    &&& f.error@[1]@ == "Error"@
}

/// The `init_detours()` function: the detours' initialisations in order, then the pointers'.
pub fn emit_init_detours_fn(detours: &Vec<Detour>, ptrs: &Vec<Ptr>, ctx: &ExpansionContext, paths: &CratePaths) -> (r: InitFn)
    ensures
        init_fn_of(r, detours@, ptrs@, *ctx, *paths),
{
    let mut inits: Vec<InitItem> = Vec::new();
    let mut i: usize = 0;
    while i < detours.len()
        invariant
            i <= detours@.len(),
            inits@.len() == i,
            forall|k: int| 0 <= k < i ==> init_of_detour(#[trigger] inits@[k], detours@[k], *ctx, *paths),
        decreases detours@.len() - i,
    {
        inits.push(detour_init(&detours[i], ctx, paths));
        i = i + 1;
    }
    let mut j: usize = 0;
    while j < ptrs.len()
        invariant
            j <= ptrs@.len(),
            inits@.len() == detours@.len() + j,
            forall|k: int| 0 <= k < detours@.len() ==> init_of_detour(#[trigger] inits@[k], detours@[k], *ctx, *paths),
            forall|k: int| 0 <= k < j ==> init_of_ptr(#[trigger] inits@[detours@.len() + k], ptrs@[k], *ctx, *paths),
        decreases ptrs@.len() - j,
    {
        inits.push(ptr_init(&ptrs[j], ctx, paths));
        j = j + 1;
    }
    InitFn { error: paths.error(), inits }
}

/// Whether two contexts agree up to the tokens' values.
pub open spec fn same_ctx(a: ExpansionContext, b: ExpansionContext) -> bool {
    &&& (a is Impl) == (b is Impl)
    &&& (a.spec_module_name() is Some) == (b.spec_module_name() is Some)
    &&& (a.spec_module_name() matches Some(m) ==> m@ == b.spec_module_name().unwrap()@)
    &&& (a.spec_self_type() matches Some(t) ==> b.spec_self_type() matches Some(u) && t@ == u@)
}

/// The `init_detours()` function of one context is that of any context
/// agreeing with it up to the tokens' values.
pub proof fn lemma_init_fn_same_ctx(f: InitFn, detours: Seq<Detour>, ptrs: Seq<Ptr>, a: ExpansionContext, b: ExpansionContext, paths: CratePaths)
    requires
        init_fn_of(f, detours, ptrs, a, paths),
        same_ctx(a, b),
    ensures
        init_fn_of(f, detours, ptrs, b, paths),
{
    assert forall|k: int| 0 <= k < detours.len() implies init_of_detour(#[trigger] f.inits@[k], detours[k], b, paths) by {
        assert(init_of_detour(f.inits@[k], detours[k], a, paths));
    }
    assert forall|k: int| 0 <= k < ptrs.len() implies init_of_ptr(#[trigger] f.inits@[detours.len() + k], ptrs[k], b, paths) by {
        assert(init_of_ptr(f.inits@[detours.len() + k], ptrs[k], a, paths));
    }
}

} // verus!
