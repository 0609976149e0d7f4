//! What `#[hook_module]` adds to a module.
use vstd::prelude::*;
use crate::codegen::chain::{chain_alias_of, chain_aliases, chained, Alias, AliasKind};
use crate::codegen::detour::{detour_items, detour_items_of, free_with_receiver, DetourItems};
use crate::codegen::init::{emit_init_detours_fn, init_fn_of, InitFn};
use crate::codegen::ptr::{accessor_type, accessor_type_of, module_static, module_static_of, AccessorType, PtrStatic};
use crate::codegen::chain::ChainStatic;
use crate::codegen::detour::StaticDetourItem;
use crate::collect::module::{CollectedModule, ModuleDecl};
use crate::collect::{Item, MacroError};
use crate::model::{CratePaths, ExpansionContext};
use crate::signature::CALL_SITE;
use crate::tokens::{span_of, Tok};

verus! {

/// `pub const MODULE_NAME: &str = value;` (`""` when there is no value).
pub struct ModuleNameDecl {
    pub value: Option<Tok>,
    pub span: usize,
}

/// Whether `m` declares the module name of context `ctx`: the literal given
/// to the macro, at its span, or `""` at the call site.
pub open spec fn module_name_decl_of(m: ModuleNameDecl, ctx: ExpansionContext) -> bool {
    match ctx.spec_module_name() {
        Some(t) => m.value matches Some(v) && v@ == t@ && m.span == span_of(t@),
        None => m.value is None && m.span == CALL_SITE,
    }
}

/// The `MODULE_NAME` constant of context `ctx`.
pub fn module_name_decl(ctx: &ExpansionContext) -> (r: ModuleNameDecl)
    ensures
        module_name_decl_of(r, *ctx),
{
    match ctx.module_name() {
        Some(m) => ModuleNameDecl { value: Some(m.copy()), span: m.span() },
        None => ModuleNameDecl { value: None, span: CALL_SITE },
    }
}

/// The accessor type and static of one pointer in a module.
pub struct ModulePtrItems {
    pub accessor: AccessorType,
    pub static_item: PtrStatic,
}

/// The expanded module's parts: its head as it was, the kept items,
/// `MODULE_NAME`, each detour's items, each pointer's items, the chain
/// aliases, and `init_detours()` (see [`module_entries`] for their order).
pub struct ModuleExpansion {
    pub attrs: Vec<Tok>,
    pub vis: Vec<Tok>,
    pub unsafety: Option<Tok>,
    pub mod_token: Tok,
    pub name: Tok,
    pub brace_span: usize,
    pub items: Vec<Item>,
    pub module_name: ModuleNameDecl,
    pub detours: Vec<DetourItems>,
    pub ptrs: Vec<ModulePtrItems>,
    pub aliases: Vec<Alias>,
    pub init: InitFn,
}

/// Whether `e` is the expansion of collected module `c` in context `ctx`.
pub open spec fn module_expansion_of(e: ModuleExpansion, c: CollectedModule, ctx: ExpansionContext, paths: CratePaths) -> bool {
    &&& e.attrs == c.module.attrs
    &&& e.vis == c.module.vis
    &&& e.unsafety == c.module.unsafety
    &&& e.mod_token == c.module.mod_token
    &&& e.name == c.module.name
    &&& e.brace_span == c.module.brace_span
    &&& c.module.content == Some(e.items)
    &&& module_name_decl_of(e.module_name, ctx)
    &&& e.detours@.len() == c.detours@.len()
    &&& forall|k: int| 0 <= k < c.detours@.len() ==> detour_items_of(#[trigger] e.detours@[k], c.detours@[k], paths, false)
    &&& e.ptrs@.len() == c.ptrs@.len()
    &&& forall|k: int| 0 <= k < c.ptrs@.len() ==> {
        &&& accessor_type_of(#[trigger] e.ptrs@[k].accessor, c.ptrs@[k])
        &&& e.ptrs@[k].accessor.addr_public
        &&& module_static_of(e.ptrs@[k].static_item, c.ptrs@[k])
    }
    &&& e.aliases@.len() == chained(c.detours@).len()
    &&& forall|k: int| 0 <= k < e.aliases@.len() ==> chain_alias_of(#[trigger] e.aliases@[k], c.detours@[chained(c.detours@)[k]], AliasKind::Static)
    &&& init_fn_of(e.init, c.detours@, c.ptrs@, ctx, paths)
}

/// The collected module once expanded. Fails when it has no content, or
/// when a hooked free function takes `self`.
pub fn generate(collected: CollectedModule, ctx: &ExpansionContext, paths: &CratePaths) -> (r: Result<ModuleExpansion, MacroError>)
    ensures
        collected.module.content is None ==> r matches Err(MacroError::NoModuleContent),
        r is Ok <==> (collected.module.content is Some
            && forall|k: int| 0 <= k < collected.detours@.len() ==> !free_with_receiver(#[trigger] collected.detours@[k])),
        r matches Ok(e) ==> module_expansion_of(e, collected, *ctx, *paths),
        r matches Err(e) ==> (e is NoModuleContent || e is SelfNotSupported),
        collected.module.content is Some ==> (r matches Err(e) ==> e is SelfNotSupported),
{
    let CollectedModule { module, detours, ptrs } = collected;
    let ModuleDecl { attrs, vis, unsafety, mod_token, name, brace_span, content } = module;
    let items = match content {
        Some(c) => c,
        None => {
            return Err(MacroError::NoModuleContent);
        },
    };
    let module_name = module_name_decl(ctx);
    let detour_out = match detour_items(&detours, paths, false) {
        Ok(v) => v,
        Err(e) => {
            return Err(e);
        },
    };
    let mut ptr_out: Vec<ModulePtrItems> = Vec::new();
    let mut i: usize = 0;
    while i < ptrs.len()
        invariant
            i <= ptrs@.len(),
            ptr_out@.len() == i,
            forall|k: int| 0 <= k < i ==> {
                &&& accessor_type_of(#[trigger] ptr_out@[k].accessor, ptrs@[k])
                &&& ptr_out@[k].accessor.addr_public
                &&& module_static_of(ptr_out@[k].static_item, ptrs@[k])
            },
        decreases ptrs@.len() - i,
    {
        ptr_out.push(ModulePtrItems { accessor: accessor_type(&ptrs[i]), static_item: module_static(&ptrs[i]) });
        i = i + 1;
    }
    let aliases = chain_aliases(&detours, AliasKind::Static);
    let init = emit_init_detours_fn(&detours, &ptrs, ctx, paths);
    Ok(ModuleExpansion {
        attrs,
        vis,
        unsafety,
        mod_token,
        name,
        brace_span,
        items,
        module_name,
        detours: detour_out,
        ptrs: ptr_out,
        aliases,
        init,
    })
}

/// One item of an expanded module.
pub enum ModuleEntry {
    Kept(Item),
    ModuleName(ModuleNameDecl),
    StaticDetour(StaticDetourItem),
    Chain(ChainStatic),
    Accessor(AccessorType),
    PtrStatic(PtrStatic),
    Alias(Alias),
    Init(InitFn),
}

/// The items of each detour in order: its static, then its chain if it has one.
pub open spec fn detour_entries(s: Seq<DetourItems>) -> Seq<ModuleEntry>
    decreases s.len(),
{
    if s.len() == 0 {
        Seq::empty()
    } else {
        let d = s[s.len() - 1];
        detour_entries(s.drop_last()) + seq![ModuleEntry::StaticDetour(d.detour)] + match d.chain {
            Some(c) => seq![ModuleEntry::Chain(c)],
            None => Seq::empty(),
        }
    }
}

/// The items of each pointer in order: its accessor type, then its static.
pub open spec fn ptr_entries(s: Seq<ModulePtrItems>) -> Seq<ModuleEntry>
    decreases s.len(),
{
    if s.len() == 0 {
        Seq::empty()
    } else {
        let p = s[s.len() - 1];
        ptr_entries(s.drop_last()) + seq![ModuleEntry::Accessor(p.accessor), ModuleEntry::PtrStatic(p.static_item)]
    }
}

/// The content of an expanded module, in order: the kept items,
/// `MODULE_NAME`, each detour's items, each pointer's items, the chain
/// aliases, and `init_detours()`.
pub open spec fn module_entries(
    items: Seq<Item>,
    module_name: ModuleNameDecl,
    detours: Seq<DetourItems>,
    ptrs: Seq<ModulePtrItems>,
    aliases: Seq<Alias>,
    init: InitFn,
) -> Seq<ModuleEntry> {
    items.map_values(|x: Item| ModuleEntry::Kept(x)) + seq![ModuleEntry::ModuleName(module_name)] + detour_entries(detours)
        + ptr_entries(ptrs) + aliases.map_values(|a: Alias| ModuleEntry::Alias(a)) + seq![ModuleEntry::Init(init)]
}

/// A module as it is written out: its head, and its content.
pub struct ExpandedModule {
    pub attrs: Vec<Tok>,
    pub vis: Vec<Tok>,
    pub unsafety: Option<Tok>,
    pub mod_token: Tok,
    pub name: Tok,
    pub brace_span: usize,
    pub content: Vec<ModuleEntry>,
}

fn push_kept(out: &mut Vec<ModuleEntry>, items: Vec<Item>)
    ensures
        final(out)@ == old(out)@ + items@.map_values(|x: Item| ModuleEntry::Kept(x)),
{
    let ghost o0 = out@;
    let ghost s0 = items@;
    let mut rest = items;
    let mut i: usize = 0;
    let total = rest.len();
    while rest.len() > 0
        invariant
            i <= s0.len(),
            s0.len() == total,
            i + rest@.len() == s0.len(),
            rest@ == s0.subrange(i as int, s0.len() as int),
            out@ == o0 + s0.subrange(0, i as int).map_values(|x: Item| ModuleEntry::Kept(x)),
        decreases rest@.len(),
    {
        assert(i < total);
        let x = rest.remove(0);
        assert(x == s0[i as int]);
        out.push(ModuleEntry::Kept(x));
        assert(s0.subrange(0, i + 1).map_values(|x: Item| ModuleEntry::Kept(x))
            =~= s0.subrange(0, i as int).map_values(|x: Item| ModuleEntry::Kept(x)).push(ModuleEntry::Kept(s0[i as int])));
        i = i + 1;
    }
    assert(s0.subrange(0, i as int) =~= s0);
}

fn push_aliases(out: &mut Vec<ModuleEntry>, aliases: Vec<Alias>)
    ensures
        final(out)@ == old(out)@ + aliases@.map_values(|a: Alias| ModuleEntry::Alias(a)),
{
    let ghost o0 = out@;
    let ghost s0 = aliases@;
    let mut rest = aliases;
    let mut i: usize = 0;
    let total = rest.len();
    while rest.len() > 0
        invariant
            i <= s0.len(),
            s0.len() == total,
            i + rest@.len() == s0.len(),
            rest@ == s0.subrange(i as int, s0.len() as int),
            out@ == o0 + s0.subrange(0, i as int).map_values(|a: Alias| ModuleEntry::Alias(a)),
        decreases rest@.len(),
    {
        assert(i < total);
        let x = rest.remove(0);
        assert(x == s0[i as int]);
        out.push(ModuleEntry::Alias(x));
        assert(s0.subrange(0, i + 1).map_values(|a: Alias| ModuleEntry::Alias(a))
            =~= s0.subrange(0, i as int).map_values(|a: Alias| ModuleEntry::Alias(a)).push(ModuleEntry::Alias(s0[i as int])));
        i = i + 1;
    }
    assert(s0.subrange(0, i as int) =~= s0);
}

fn push_detours(out: &mut Vec<ModuleEntry>, detours: Vec<DetourItems>)
    ensures
        final(out)@ == old(out)@ + detour_entries(detours@),
{
    let ghost o0 = out@;
    let ghost s0 = detours@;
    let mut rest = detours;
    let mut i: usize = 0;
    let total = rest.len();
    while rest.len() > 0
        invariant
            i <= s0.len(),
            s0.len() == total,
            i + rest@.len() == s0.len(),
            rest@ == s0.subrange(i as int, s0.len() as int),
            out@ == o0 + detour_entries(s0.subrange(0, i as int)),
        decreases rest@.len(),
    {
        assert(i < total);
        let x = rest.remove(0);
        assert(x == s0[i as int]);
        let ghost before = out@;
        let DetourItems { detour, chain } = x;
        out.push(ModuleEntry::StaticDetour(detour));
        match chain {
            Some(c) => out.push(ModuleEntry::Chain(c)),
            None => {},
        }
        proof {
            let b = s0.subrange(0, i + 1);
            assert(b.drop_last() =~= s0.subrange(0, i as int));
            assert(b[b.len() - 1] == s0[i as int]);
            assert(out@ =~= o0 + detour_entries(b));
        }
        i = i + 1;
    }
    assert(s0.subrange(0, i as int) =~= s0);
}

fn push_ptrs(out: &mut Vec<ModuleEntry>, ptrs: Vec<ModulePtrItems>)
    ensures
        final(out)@ == old(out)@ + ptr_entries(ptrs@),
{
    let ghost o0 = out@;
    let ghost s0 = ptrs@;
    let mut rest = ptrs;
    let mut i: usize = 0;
    let total = rest.len();
    while rest.len() > 0
        invariant
            i <= s0.len(),
            s0.len() == total,
            i + rest@.len() == s0.len(),
            rest@ == s0.subrange(i as int, s0.len() as int),
            out@ == o0 + ptr_entries(s0.subrange(0, i as int)),
        decreases rest@.len(),
    {
        assert(i < total);
        let x = rest.remove(0);
        assert(x == s0[i as int]);
        let ModulePtrItems { accessor, static_item } = x;
        out.push(ModuleEntry::Accessor(accessor));
        out.push(ModuleEntry::PtrStatic(static_item));
        proof {
            let b = s0.subrange(0, i + 1);
            assert(b.drop_last() =~= s0.subrange(0, i as int));
            assert(b[b.len() - 1] == s0[i as int]);
            assert(out@ =~= o0 + ptr_entries(b));
        }
        i = i + 1;
    }
    assert(s0.subrange(0, i as int) =~= s0);
}

/// The module content made of the given parts, in the order of [`module_entries`].
pub fn module_content(
    items: Vec<Item>,
    module_name: ModuleNameDecl,
    detours: Vec<DetourItems>,
    ptrs: Vec<ModulePtrItems>,
    aliases: Vec<Alias>,
    init: InitFn,
) -> (r: Vec<ModuleEntry>)
    ensures
        r@ == module_entries(items@, module_name, detours@, ptrs@, aliases@, init),
{
    let mut out: Vec<ModuleEntry> = Vec::new();
    push_kept(&mut out, items);
    out.push(ModuleEntry::ModuleName(module_name));
    push_detours(&mut out, detours);
    push_ptrs(&mut out, ptrs);
    push_aliases(&mut out, aliases);
    out.push(ModuleEntry::Init(init));
    assert(out@ =~= module_entries(items@, module_name, detours@, ptrs@, aliases@, init));
    out
}

impl ModuleExpansion {
    /// The expanded module as it is written out: the same head, and the
    /// parts as its content, in the order of [`module_entries`].
    pub fn into_module(self) -> (r: ExpandedModule)
        ensures
            r.attrs == self.attrs,
            r.vis == self.vis,
            r.unsafety == self.unsafety,
            r.mod_token == self.mod_token,
            r.name == self.name,
            r.brace_span == self.brace_span,
            r.content@ == module_entries(self.items@, self.module_name, self.detours@, self.ptrs@, self.aliases@, self.init),
    {
        let ModuleExpansion { attrs, vis, unsafety, mod_token, name, brace_span, items, module_name, detours, ptrs, aliases, init } = self;
        let content = module_content(items, module_name, detours, ptrs, aliases, init);
        ExpandedModule { attrs, vis, unsafety, mod_token, name, brace_span, content }
    }
}

} // verus!
