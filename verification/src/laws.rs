//! Properties that hold across the library's functions.
use vstd::prelude::*;
use crate::codegen::chain::{chain_alias_of, chain_static_of, AliasKind, ChainStatic, Alias};
use crate::codegen::detour::{chain_static_name, chain_type_name, static_detour_of, Forward, StaticDetourItem};
use crate::codegen::init::{init_of_detour, init_of_ptr, takes_module, InitAction, InitItem};
use crate::codegen::ptr::{accessor_type_name, impl_ptr_static_name, impl_static_of, module_static_of, ptr_const_of, PtrStatic};
use crate::collect::{
    any_chain, collected_from, detour_fn_name, detour_from, is_hook_attr, is_kept_item, item_after, kept_attrs, last_hook,
    lemma_positions, positions, kept_positions, Attribute, Collected, Item};
use crate::model::{CratePaths, Detour, ExpansionContext, Ptr};
use crate::signature::{is_macro_args_at, is_self_at, replace_self_seq, Signature};
use crate::tokens::{is_ident_tok, toks_view, TokV};
use crate::codegen::chain::chained;
use crate::codegen::impl_block::{impl_expansion_of, ImplExpansion};
use crate::codegen::module::{module_entries, module_expansion_of, ptr_entries, ModuleEntry, ModuleExpansion, ModulePtrItems};
use crate::collect::module::CollectedModule;
use crate::signature::{bare_arg, bare_args, is_bare_fn_type, is_chain_parts, seqs_view, BareFnType, ChainParts, FnArg};
use crate::attr::Abi;
use crate::tokens::Tok;

verus! {

/// A detour's target is looked up relative to the module named to the macro
/// when one is named, and relative to the running executable otherwise; the
/// same holds of a pointer's.
pub proof fn law_lookup_follows_module(i: InitItem, j: InitItem, d: Detour, p: Ptr, ctx: ExpansionContext, paths: CratePaths)
    requires
        init_of_detour(i, d, ctx, paths),
        init_of_ptr(j, p, ctx, paths),
    ensures
        takes_module(i.lookup.ctor) <==> ctx.spec_module_name() is Some,
        takes_module(j.lookup.ctor) <==> ctx.spec_module_name() is Some,
        i.lookup.module matches Some(m) ==> m@ == ctx.spec_module_name().unwrap()@,
        j.lookup.module matches Some(m) ==> m@ == ctx.spec_module_name().unwrap()@,
{
}

/// The names derived from an identifier never clash with it or with each
/// other: the chain static and chain type of a detour, the accessor type and
/// impl-block backing static of a pointer, and the renamed chained function.
pub proof fn law_derived_names_distinct(t: TokV)
    requires
        t is Ident,
    ensures
        chain_static_name(t) != t,
        chain_type_name(t) != t,
        chain_static_name(t) != chain_type_name(t),
        accessor_type_name(t) != t,
        impl_ptr_static_name(t) != t,
        accessor_type_name(t) != impl_ptr_static_name(t),
        detour_fn_name(t) != t,
{
    reveal_strlit("__chain");
    reveal_strlit("__ChainType");
    reveal_strlit("_PtrAccessor");
    reveal_strlit("__PTR_");
    reveal_strlit("__");
    reveal_strlit("_detour");
    let text = t->Ident_text;
    assert((Seq::<char>::empty() + text + "__chain"@).len() == text.len() + 7);
    assert((Seq::<char>::empty() + text + "__ChainType"@).len() == text.len() + 11);
    assert((Seq::<char>::empty() + text + "_PtrAccessor"@).len() == text.len() + 12);
    assert(("__PTR_"@ + text + Seq::<char>::empty()).len() == text.len() + 6);
    assert(("__"@ + text + "_detour"@).len() == text.len() + 9);
}

/// A chained hook keeps its name for the chain and hands the detour the
/// renamed function: the alias under the function's original name refers to
/// the chain static, the trampoline forwards to that same chain, the chain
/// ends in the detour static, and `init_detours()` installs the function
/// renamed `__{name}_detour`.
pub proof fn law_chained_hook_wiring(
    d: Detour,
    a: Attribute,
    sig: Signature,
    vis: Seq<TokV>,
    st: Option<TokV>,
    s: StaticDetourItem,
    c: ChainStatic,
    alias: Alias,
    kind: AliasKind,
    i: InitItem,
    ctx: ExpansionContext,
    paths: CratePaths,
)
    requires
        detour_from(d, a, sig, vis, st),
        d.attr.chain,
        static_detour_of(s, d, paths),
        chain_static_of(c, d, paths),
        chain_alias_of(alias, d, kind),
        init_of_detour(i, d, ctx, paths),
    ensures
        alias.name@ == sig.ident@,
        alias.target@ == c.static_name@,
        alias.ty_name@ == c.ty_name@,
        s.forward matches Forward::Chain { chain } && chain@ == c.static_name@,
        c.detour_name@ == s.name@,
        i.action matches InitAction::Detour { detour_name, fn_name, .. }
            && detour_name@ == s.name@ && fn_name@ == detour_fn_name(sig.ident@),
{
}

/// Whatever `init_detours()` stores a pointer's address into is what the
/// pointer's name reads: in a module the static under the constant's own
/// name; in an impl block the backing static that the constant refers to.
pub proof fn law_pointer_wiring(p: Ptr, i: InitItem, ctx: ExpansionContext, paths: CratePaths, m: PtrStatic, b: PtrStatic, k: Alias)
    requires
        init_of_ptr(i, p, ctx, paths),
        module_static_of(m, p),
        impl_static_of(b, p),
        ptr_const_of(k, p),
    ensures
        ctx is Module ==> (i.action matches InitAction::Ptr { accessor } && accessor@ == m.name@ && m.name@ == p.name@),
        ctx is Impl ==> (i.action matches InitAction::Ptr { accessor } && accessor@ == b.name@ && k.target@ == b.name@),
        k.name@ == p.name@,
        k.ty_name@ == b.ty_name@,
        m.ty_name@ == b.ty_name@,
{
}

/// Whether `y` is the function `x` as it was: same position, attributes,
/// visibility and signature.
pub open spec fn same_fn(x: Item, y: Item) -> bool {
    x matches Item::Fn(f) && y matches Item::Fn(g) && g.id == f.id && g.attrs@ == f.attrs@ && g.vis == f.vis && g.sig == f.sig
}

/// A function without `#[hook]` attributes comes through collection as it was.
pub proof fn law_unhooked_fn_unchanged(x: Item, y: Item)
    requires
        x matches Item::Fn(f) && last_hook(f.attrs@) < 0,
        item_after(x, y),
    ensures
        same_fn(x, y),
{
    if let Item::Fn(f) = x {
        lemma_no_hook(f.attrs@);
    }
}

proof fn lemma_no_hook(s: Seq<Attribute>)
    requires
        last_hook(s) < 0,
    ensures
        kept_attrs(s) == s,
        !any_chain(s),
        forall|i: int| 0 <= i < s.len() ==> !is_hook_attr(#[trigger] s[i]),
    decreases s.len(),
{
    if s.len() > 0 {
        lemma_no_hook(s.drop_last());
        assert(kept_attrs(s) =~= s);
        assert forall|i: int| 0 <= i < s.len() implies !is_hook_attr(#[trigger] s[i]) by {
            if i < s.len() - 1 {
                assert(s.drop_last()[i] == s[i]);
            }
        }
    }
}

/// Collection keeps every item but the pointer constants, in their order;
/// items that are neither functions nor constants, and functions without
/// `#[hook]` attributes, come through unchanged.
pub proof fn law_items_retained(c: Collected, content: Seq<Item>, st: Option<TokV>)
    requires
        collected_from(c, content, st),
    ensures
        c.items@.len() == kept_positions(content).len(),
        forall|k: int| 0 <= k < c.items@.len() ==> {
            let x = content[#[trigger] kept_positions(content)[k]];
            &&& is_kept_item(x)
            &&& (x is Other ==> c.items@[k] == x)
            &&& ((x matches Item::Fn(f) && last_hook(f.attrs@) < 0) ==> same_fn(x, c.items@[k]))
        },
        forall|k1: int, k2: int| 0 <= k1 < k2 < c.items@.len() ==>
            #[trigger] kept_positions(content)[k1] < #[trigger] kept_positions(content)[k2],
{
    let pk = |x: Item| is_kept_item(x);
    lemma_positions(content, pk);
    lemma_positions_sorted(content, pk);
    assert forall|k: int| 0 <= k < c.items@.len() implies {
        let x = content[#[trigger] kept_positions(content)[k]];
        &&& is_kept_item(x)
        &&& (x is Other ==> c.items@[k] == x)
        &&& ((x matches Item::Fn(f) && last_hook(f.attrs@) < 0) ==> same_fn(x, c.items@[k]))
    } by {
        let x = content[positions(content, pk)[k]];
        assert(pk(x));
        assert(item_after(x, c.items@[k]));
        if x matches Item::Fn(f) && last_hook(f.attrs@) < 0 {
            law_unhooked_fn_unchanged(x, c.items@[k]);
        }
    }
}

proof fn lemma_positions_sorted(s: Seq<Item>, p: spec_fn(Item) -> bool)
    ensures
        forall|k1: int, k2: int| 0 <= k1 < k2 < positions(s, p).len() ==> positions(s, p)[k1] < positions(s, p)[k2],
    decreases s.len(),
{
    if s.len() > 0 {
        let t = s.drop_last();
        lemma_positions_sorted(t, p);
        lemma_positions(t, p);
        let q = positions(s, p);
        assert forall|k1: int, k2: int| 0 <= k1 < k2 < q.len() implies q[k1] < q[k2] by {
            if k2 < positions(t, p).len() {
                assert(q[k1] == positions(t, p)[k1]);
                assert(q[k2] == positions(t, p)[k2]);
            } else {
                assert(q[k1] == positions(t, p)[k1]);
                assert(positions(t, p)[k1] < t.len());
            }
        }
    }
}

/// Whether no standalone `Self` stands in `s`, outside macro arguments.
pub open spec fn self_free(s: Seq<TokV>) -> bool
    decreases s,
{
    forall|k: int| 0 <= k < s.len() ==> {
        &&& !is_self_at(s, k)
        &&& (#[trigger] s[k] matches TokV::Group { body, .. } ==> is_macro_args_at(s, k) || self_free(body))
    }
}

/// Replacing `Self` by a type name other than `Self` leaves no standalone
/// `Self` in the type, groups included; the arguments of a macro invocation
/// are not part of the type and are left as they are.
pub proof fn law_replace_self_leaves_no_self(s: Seq<TokV>, st: TokV)
    requires
        st matches TokV::Ident { text, .. } && text != "Self"@,
    ensures
        self_free(replace_self_seq(s, st)),
    decreases s,
{
    let r = replace_self_seq(s, st);
    assert(!is_ident_tok(st, "Self"@));
    assert forall|j: int| 0 <= j < s.len() && #[trigger] s[j] is Punct implies r[j] == s[j] by {}
    assert forall|k: int| 0 <= k < r.len() implies {
        &&& !is_self_at(r, k)
        &&& (#[trigger] r[k] matches TokV::Group { body, .. } ==> is_macro_args_at(r, k) || self_free(body))
    } by {
        if k >= 1 {
            if s[k - 1] is Punct {
                assert(r[k - 1] == s[k - 1]);
            } else {
                assert(!(r[k - 1] is Punct));
            }
        }
        if k >= 2 && s[k - 2] is Punct {
            assert(r[k - 2] == s[k - 2]);
        }
        if k + 1 < s.len() && s[k + 1] is Punct {
            assert(r[k + 1] == s[k + 1]);
        }
        if k + 2 < s.len() && s[k + 2] is Punct {
            assert(r[k + 2] == s[k + 2]);
        }
        if !is_self_at(s, k) {
            if let TokV::Group { delim, body, span } = s[k] {
                if !is_macro_args_at(s, k) {
                    assert(decreases_to!(s => s[k]));
                    law_replace_self_leaves_no_self(body, st);
                }
            }
        }
    }
}


/// The chained detours are listed exactly: in increasing order, each listed
/// position holds a detour hooked with `chain`, and every such detour is listed.
pub proof fn law_chained_lists_every_chain(s: Seq<Detour>)
    ensures
        forall|k: int| 0 <= k < chained(s).len() ==> 0 <= #[trigger] chained(s)[k] < s.len() && s[chained(s)[k]].attr.chain,
        forall|k: int, l: int| 0 <= k < l < chained(s).len() ==> chained(s)[k] < chained(s)[l],
        forall|i: int| 0 <= i < s.len() && #[trigger] s[i].attr.chain ==> exists|k: int| 0 <= k < chained(s).len() && chained(s)[k] == i,
    decreases s.len(),
{
    if s.len() > 0 {
        let t = s.drop_last();
        law_chained_lists_every_chain(t);
        assert forall|k: int| 0 <= k < chained(t).len() implies #[trigger] t[chained(t)[k]] == s[chained(t)[k]] by {}
        assert forall|i: int| 0 <= i < s.len() && #[trigger] s[i].attr.chain implies exists|k: int| 0 <= k < chained(s).len() && chained(s)[k] == i by {
            if i < s.len() - 1 {
                assert(t[i] == s[i]);
                let k = choose|k: int| 0 <= k < chained(t).len() && chained(t)[k] == i;
                assert(chained(s)[k] == i);
            } else {
                assert(chained(s)[chained(s).len() - 1] == i);
            }
        }
    }
}

/// In an expanded module every detour hooked with `chain` has a static alias
/// under the hooked function's original name that refers to its chain
/// static, and every alias is the alias of such a detour.
pub proof fn law_every_chain_has_module_alias(e: ModuleExpansion, c: CollectedModule, ctx: ExpansionContext, paths: CratePaths)
    requires
        module_expansion_of(e, c, ctx, paths),
    ensures
        forall|i: int| 0 <= i < c.detours@.len() && #[trigger] c.detours@[i].attr.chain ==> exists|k: int|
            0 <= k < e.aliases@.len() && e.aliases@[k].kind == AliasKind::Static
                && e.aliases@[k].name@ == c.detours@[i].original_fn_name@
                && e.aliases@[k].target@ == chain_static_name(c.detours@[i].attr.detour_name@),
        forall|k: int| 0 <= k < e.aliases@.len() ==> 0 <= chained(c.detours@)[k] < c.detours@.len()
            && c.detours@[chained(c.detours@)[k]].attr.chain
            && chain_alias_of(#[trigger] e.aliases@[k], c.detours@[chained(c.detours@)[k]], AliasKind::Static),
{
    let ds = c.detours@;
    law_chained_lists_every_chain(ds);
    assert forall|i: int| 0 <= i < ds.len() && #[trigger] ds[i].attr.chain implies exists|k: int|
        0 <= k < e.aliases@.len() && e.aliases@[k].kind == AliasKind::Static
            && e.aliases@[k].name@ == ds[i].original_fn_name@
            && e.aliases@[k].target@ == chain_static_name(ds[i].attr.detour_name@) by {
        let k = choose|k: int| 0 <= k < chained(ds).len() && chained(ds)[k] == i;
        assert(chain_alias_of(e.aliases@[k], ds[chained(ds)[k]], AliasKind::Static));
    }
}

/// In an expanded impl block every detour hooked with `chain` has an
/// associated constant under the hooked method's original name that refers
/// to its chain static, and every such constant is one of these.
pub proof fn law_every_chain_has_impl_alias(e: ImplExpansion, c: Collected, ctx: ExpansionContext, paths: CratePaths)
    requires
        impl_expansion_of(e, c, ctx, paths),
    ensures
        forall|i: int| 0 <= i < c.detours@.len() && #[trigger] c.detours@[i].attr.chain ==> exists|k: int|
            0 <= k < e.chain_consts@.len() && e.chain_consts@[k].kind == AliasKind::Const
                && e.chain_consts@[k].name@ == c.detours@[i].original_fn_name@
                && e.chain_consts@[k].target@ == chain_static_name(c.detours@[i].attr.detour_name@),
        forall|k: int| 0 <= k < e.chain_consts@.len() ==> 0 <= chained(c.detours@)[k] < c.detours@.len()
            && c.detours@[chained(c.detours@)[k]].attr.chain
            && chain_alias_of(#[trigger] e.chain_consts@[k], c.detours@[chained(c.detours@)[k]], AliasKind::Const),
{
    let ds = c.detours@;
    law_chained_lists_every_chain(ds);
    assert forall|i: int| 0 <= i < ds.len() && #[trigger] ds[i].attr.chain implies exists|k: int|
        0 <= k < e.chain_consts@.len() && e.chain_consts@[k].kind == AliasKind::Const
            && e.chain_consts@[k].name@ == ds[i].original_fn_name@
            && e.chain_consts@[k].target@ == chain_static_name(ds[i].attr.detour_name@) by {
        let k = choose|k: int| 0 <= k < chained(ds).len() && chained(ds)[k] == i;
        assert(chain_alias_of(e.chain_consts@[k], ds[chained(ds)[k]], AliasKind::Const));
    }
}

/// Each pointer contributes two entries to a module's content, in the order
/// of the pointers: its accessor type, then its static.
pub proof fn law_pointer_entries(s: Seq<ModulePtrItems>)
    ensures
        ptr_entries(s).len() == 2 * s.len(),
        forall|k: int| 0 <= k < s.len() ==> ptr_entries(s)[2 * k] == ModuleEntry::Accessor(#[trigger] s[k].accessor)
            && ptr_entries(s)[2 * k + 1] == ModuleEntry::PtrStatic(s[k].static_item),
    decreases s.len(),
{
    if s.len() > 0 {
        let t = s.drop_last();
        law_pointer_entries(t);
        assert forall|k: int| 0 <= k < s.len() implies ptr_entries(s)[2 * k] == ModuleEntry::Accessor(#[trigger] s[k].accessor)
            && ptr_entries(s)[2 * k + 1] == ModuleEntry::PtrStatic(s[k].static_item) by {
            if k < t.len() {
                assert(t[k] == s[k]);
            }
        }
    }
}

/// The written content of an expanded module holds, for every pointer, its
/// accessor type and then its static, right after the kept items,
/// `MODULE_NAME` and the detours' items, in the order of the pointers.
pub proof fn law_every_pointer_written(e: ModuleExpansion)
    ensures
        ({
            let content = module_entries(e.items@, e.module_name, e.detours@, e.ptrs@, e.aliases@, e.init);
            let base = e.items@.len() + 1 + crate::codegen::module::detour_entries(e.detours@).len();
            forall|k: int| 0 <= k < e.ptrs@.len() ==> {
                &&& base + 2 * k + 1 < content.len()
                &&& content[base + 2 * k] == ModuleEntry::Accessor(#[trigger] e.ptrs@[k].accessor)
                &&& content[base + 2 * k + 1] == ModuleEntry::PtrStatic(e.ptrs@[k].static_item)
            }
        }),
{
    law_pointer_entries(e.ptrs@);
    let content = module_entries(e.items@, e.module_name, e.detours@, e.ptrs@, e.aliases@, e.init);
    let a = e.items@.map_values(|x: Item| ModuleEntry::Kept(x)) + seq![ModuleEntry::ModuleName(e.module_name)]
        + crate::codegen::module::detour_entries(e.detours@);
    let p = ptr_entries(e.ptrs@);
    let b = e.aliases@.map_values(|x: Alias| ModuleEntry::Alias(x)) + seq![ModuleEntry::Init(e.init)];
    assert(content =~= a + p + b);
    let base = e.items@.len() + 1 + crate::codegen::module::detour_entries(e.detours@).len();
    assert(a.len() == base);
    assert forall|k: int| 0 <= k < e.ptrs@.len() implies {
        &&& base + 2 * k + 1 < content.len()
        &&& content[base + 2 * k] == ModuleEntry::Accessor(#[trigger] e.ptrs@[k].accessor)
        &&& content[base + 2 * k + 1] == ModuleEntry::PtrStatic(e.ptrs@[k].static_item)
    } by {
        assert((a + p)[base + 2 * k] == p[2 * k]);
        assert((a + p)[base + 2 * k + 1] == p[2 * k + 1]);
    }
}

/// The attributes of a parameter.
pub open spec fn param_attrs(a: FnArg) -> Seq<TokV> {
    match a {
        FnArg::Receiver(r) => toks_view(r.attrs@),
        FnArg::Typed(p) => toks_view(p.attrs@),
    }
}

proof fn lemma_bare_args_with_self(args: Seq<FnArg>, st: TokV)
    ensures
        bare_args(args, Some(st)).len() == args.len(),
        forall|i: int| 0 <= i < args.len() ==> Some(#[trigger] bare_args(args, Some(st))[i]) == bare_arg(args[i], Some(st)),
    decreases args.len(),
{
    if args.len() > 0 {
        let t = args.drop_last();
        lemma_bare_args_with_self(t, st);
        assert forall|i: int| 0 <= i < args.len() implies Some(#[trigger] bare_args(args, Some(st))[i]) == bare_arg(args[i], Some(st)) by {
            if i < t.len() {
                assert(t[i] == args[i]);
            }
        }
    }
}

/// With a self type, the chain's `call` and `hook` take the parameters of the
/// detour's function type: each parameter type of the chain is the matching
/// input of the plain function type without the parameter's attributes (a
/// receiver included, as the same pointer type), and a receiver is named `self_ptr`.
pub proof fn law_chain_params_match_fn_type(
    p: ChainParts,
    f: BareFnType,
    sig: Signature,
    unsafety: Option<Tok>,
    abi: Option<Abi>,
    st: TokV,
)
    requires
        is_chain_parts(p, sig, Some(st)),
        is_bare_fn_type(f, sig, unsafety, abi, Some(st)),
    ensures
        p.arg_types@.len() == f.inputs@.len(),
        forall|i: int| 0 <= i < f.inputs@.len() ==> toks_view(#[trigger] f.inputs@[i]@) == param_attrs(sig.inputs@[i]) + toks_view(p.arg_types@[i]@),
        forall|i: int| 0 <= i < sig.inputs@.len() ==> (#[trigger] sig.inputs@[i] matches FnArg::Receiver(r)
            ==> toks_view(p.arg_names@[i]@) == seq![TokV::Ident { text: "self_ptr"@, span: r.self_span }]),
{
    lemma_bare_args_with_self(sig.inputs@, st);
    assert(seqs_view(p.arg_types@).len() == sig.inputs@.len());
    assert forall|i: int| 0 <= i < f.inputs@.len() implies toks_view(#[trigger] f.inputs@[i]@) == param_attrs(sig.inputs@[i]) + toks_view(p.arg_types@[i]@) by {
        assert(seqs_view(f.inputs@)[i] == toks_view(f.inputs@[i]@));
        assert(seqs_view(p.arg_types@)[i] == toks_view(p.arg_types@[i]@));
        assert(Some(bare_args(sig.inputs@, Some(st))[i]) == bare_arg(sig.inputs@[i], Some(st)));
    }
    assert(seqs_view(p.arg_names@).len() == sig.inputs@.len());
    assert forall|i: int| 0 <= i < sig.inputs@.len() implies (#[trigger] sig.inputs@[i] matches FnArg::Receiver(r)
        ==> toks_view(p.arg_names@[i]@) == seq![TokV::Ident { text: "self_ptr"@, span: r.self_span }]) by {
        assert(seqs_view(p.arg_names@)[i] == toks_view(p.arg_names@[i]@));
    }
}

/// Only the arguments of a macro invocation, a group right after `!`, are
/// left as written: any other group has `Self` replaced inside it.
pub proof fn law_groups_replaced_unless_macro_args(s: Seq<TokV>, st: TokV, k: int)
    requires
        0 <= k < s.len(),
        !(k >= 1 && (s[k - 1] matches TokV::Punct { ch, .. } && ch == '!')),
    ensures
        s[k] matches TokV::Group { delim, body, span }
            ==> replace_self_seq(s, st)[k] == (TokV::Group { delim, body: replace_self_seq(body, st), span }),
{
}

/// The attributes a function keeps are exactly its attributes other than
/// `#[hook]`, in their order, wherever they stand.
pub proof fn law_kept_attrs_are_non_hook(s: Seq<Attribute>)
    ensures
        kept_attrs(s) == s.filter(|a: Attribute| !is_hook_attr(a)),
    decreases s.len(),
{
    reveal(Seq::filter);
    if s.len() > 0 {
        law_kept_attrs_are_non_hook(s.drop_last());
    }
}

} // verus!
