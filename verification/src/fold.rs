//! The fold-based expansion: hooks and pointers are gathered item by item
//! into a [`Detours`] record, leniently: an attribute whose arguments do not
//! read is passed over instead of failing the expansion.
use vstd::prelude::*;

pub mod detour;
pub mod expand;
pub mod ptr;

use crate::collect::{
    arg_toks, detour_fn_name, detour_from, detour_ident, hook_args_ok, is_hook_attr, is_ptr_attr, kept_attrs, parse_hook_args, parse_ptr_args, ptr_args_ok, ptr_from, const_info_of, last_ptr, Attribute, ConstItem, FnItem,
    Item};
use crate::attr::ends_with_chain;
use crate::codegen::chain::{chain_alias_of, chain_aliases, chained, Alias, AliasKind};
use crate::codegen::detour::{detour_items, detour_items_of, free_with_receiver, DetourItems};
use crate::codegen::init::{emit_init_detours_fn, init_fn_of, init_of_ptr_at, lemma_init_fn_same_ctx, ptr_init_at, InitFn, InitItem};
use crate::codegen::module::{module_name_decl, module_name_decl_of, ModuleNameDecl, ModulePtrItems};
use crate::codegen::ptr::{accessor_type_of, impl_const, impl_static, impl_static_of, module_static, module_static_of, ptr_const_of, PtrStatic};
use crate::collect::{is_kept_item, opt_view_of, MacroError, ModItem};
use crate::model::{CratePaths, ExpansionContext};
use crate::model::{Detour, Ptr};
use crate::signature::{has_receiver, lemma_same_receivers, opt_view, sig_same_but_ident};
use crate::tokens::{copy_toks, toks_view, Tok, TokV};

verus! {

/// The positions in `s` of the `#[hook]` attributes whose arguments read.
pub open spec fn good_hooks(s: Seq<Attribute>) -> Seq<int>
    decreases s.len(),
{
    if s.len() == 0 {
        Seq::empty()
    } else if is_hook_attr(s.last()) && hook_args_ok(s.last()) {
        good_hooks(s.drop_last()).push(s.len() - 1)
    } else {
        good_hooks(s.drop_last())
    }
}

/// Whether some `#[hook]` attribute of `s` whose arguments read asks for a chain.
pub open spec fn any_good_chain(s: Seq<Attribute>) -> bool {
    exists|i: int| 0 <= i < s.len() && #[trigger] is_hook_attr(s[i]) && hook_args_ok(s[i]) && ends_with_chain(arg_toks(s[i]))
}

/// Whether `g` is function `f` once its hook attributes are taken off: all
/// of them go, and the function is renamed `__{name}_detour` when one that
/// reads asks for a chain.
pub open spec fn lenient_fn_after(f: FnItem, g: FnItem) -> bool {
    &&& g.id == f.id
    &&& g.attrs@ == kept_attrs(f.attrs@)
    &&& g.vis == f.vis
    &&& if any_good_chain(f.attrs@) {
        sig_same_but_ident(g.sig, f.sig) && g.sig.ident@ == detour_fn_name(f.sig.ident@)
    } else {
        g.sig == f.sig
    }
}

/// Whether `ds` are the detours recorded from function `f` with self type
/// `st`: one per hook attribute that reads, in order.
pub open spec fn hooks_recorded(ds: Seq<Detour>, f: FnItem, st: Option<TokV>) -> bool {
    &&& ds.len() == good_hooks(f.attrs@).len()
    &&& forall|k: int| 0 <= k < ds.len() ==> detour_from(#[trigger] ds[k], f.attrs@[good_hooks(f.attrs@)[k]], f.sig, toks_view(f.vis@), st)
}

proof fn lemma_good_hooks_bound(s: Seq<Attribute>)
    ensures
        forall|k: int| 0 <= k < good_hooks(s).len() ==> 0 <= #[trigger] good_hooks(s)[k] < s.len(),
    decreases s.len(),
{
    if s.len() > 0 {
        let t = s.drop_last();
        lemma_good_hooks_bound(t);
        assert forall|k: int| 0 <= k < good_hooks(s).len() implies 0 <= #[trigger] good_hooks(s)[k] < s.len() by {
            if k < good_hooks(t).len() {
                assert(good_hooks(s)[k] == good_hooks(t)[k]);
            }
        }
    }
}

/// Takes the hook attributes off function `f` (self type `self_ty`) and
/// records a detour for each one whose arguments read.
pub fn collect_fn_hooks(f: FnItem, self_ty: Option<&Tok>) -> (r: (FnItem, Vec<Detour>))
    ensures
        lenient_fn_after(f, r.0),
        hooks_recorded(r.1@, f, opt_view(self_ty)),
{
    let ghost f0 = f;
    let ghost a0 = f.attrs@;
    let ghost st = opt_view(self_ty);
    let FnItem { id, attrs, vis, sig } = f;
    let mut attrs = attrs;
    let mut kept: Vec<Attribute> = Vec::new();
    let mut detours: Vec<Detour> = Vec::new();
    let mut chain_seen = false;
    let ghost mut i: int = 0;
    while attrs.len() > 0
        invariant
            0 <= i <= a0.len(),
            a0 == f0.attrs@,
            st == opt_view(self_ty),
            sig == f0.sig,
            vis == f0.vis,
            attrs@ == a0.subrange(i, a0.len() as int),
            kept@ == kept_attrs(a0.subrange(0, i)),
            chain_seen == any_good_chain(a0.subrange(0, i)),
            detours@.len() == good_hooks(a0.subrange(0, i)).len(),
            forall|k: int| 0 <= k < detours@.len() ==> detour_from(#[trigger] detours@[k],
                a0[good_hooks(a0.subrange(0, i))[k]], sig, toks_view(vis@), st),
        decreases attrs@.len(),
    {
        let ghost prev = a0.subrange(0, i);
        let attr = attrs.remove(0);
        let ghost next = a0.subrange(0, i + 1);
        assert(next.drop_last() =~= prev);
        assert(next.last() == attr);
        proof {
            lemma_good_hooks_bound(prev);
        }
        if !attr.path.is_ident("hook") {
            kept.push(attr);
            proof {
                i = i + 1;
                if any_good_chain(next) {
                    let j = choose|j: int| 0 <= j < next.len() && #[trigger] is_hook_attr(next[j]) && hook_args_ok(next[j]) && ends_with_chain(arg_toks(next[j]));
                    assert(prev[j] == next[j]);
                }
                if any_good_chain(prev) {
                    let j = choose|j: int| 0 <= j < prev.len() && #[trigger] is_hook_attr(prev[j]) && hook_args_ok(prev[j]) && ends_with_chain(arg_toks(prev[j]));
                    assert(prev[j] == next[j]);
                }
            }
            continue;
        }
        match parse_hook_args(&attr) {
            Err(_) => {
                proof {
                    i = i + 1;
                    if any_good_chain(next) {
                        let j = choose|j: int| 0 <= j < next.len() && #[trigger] is_hook_attr(next[j]) && hook_args_ok(next[j]) && ends_with_chain(arg_toks(next[j]));
                        assert(prev[j] == next[j]);
                    }
                    if any_good_chain(prev) {
                        let j = choose|j: int| 0 <= j < prev.len() && #[trigger] is_hook_attr(prev[j]) && hook_args_ok(prev[j]) && ends_with_chain(arg_toks(prev[j]));
                        assert(prev[j] == next[j]);
                    }
                }
            },
            Ok(hook_attr) => {
                let original_fn_name = sig.ident.copy();
                let fn_sig = if hook_attr.chain {
                    chain_seen = true;
                    sig.copy_with_ident(detour_ident(&sig.ident))
                } else {
                    sig.copy_with_ident(sig.ident.copy())
                };
                let d = Detour {
                    attr: hook_attr,
                    original_fn_name,
                    fn_sig,
                    self_type: match self_ty {
                        Some(t) => Some(t.copy()),
                        None => None,
                    },
                    fn_visibility: copy_toks(&vis),
                };
                detours.push(d);
                proof {
                    i = i + 1;
                    assert(good_hooks(next) == good_hooks(prev).push(next.len() - 1));
                    if chain_seen {
                        if !any_good_chain(prev) {
                            assert(is_hook_attr(next[next.len() - 1]) && hook_args_ok(next[next.len() - 1])
                                && ends_with_chain(arg_toks(next[next.len() - 1])));
                        } else {
                            let j = choose|j: int| 0 <= j < prev.len() && #[trigger] is_hook_attr(prev[j]) && hook_args_ok(prev[j]) && ends_with_chain(arg_toks(prev[j]));
                            assert(prev[j] == next[j]);
                        }
                    } else {
                        if any_good_chain(next) {
                            let j = choose|j: int| 0 <= j < next.len() && #[trigger] is_hook_attr(next[j]) && hook_args_ok(next[j]) && ends_with_chain(arg_toks(next[j]));
                            if j < prev.len() {
                                assert(prev[j] == next[j]);
                            }
                        }
                    }
                }
            },
        }
    }
    proof {
        assert(a0.subrange(0, i) =~= a0);
    }
    let sig = if chain_seen {
        let nid = detour_ident(&sig.ident);
        sig.copy_with_ident(nid)
    } else {
        sig
    };
    (FnItem { id, attrs: kept, vis, sig }, detours)
}

/// The positions in `s` of the `#[ptr]` attributes whose arguments read.
pub open spec fn good_ptrs(s: Seq<Attribute>) -> Seq<int>
    decreases s.len(),
{
    if s.len() == 0 {
        Seq::empty()
    } else if is_ptr_attr(s.last()) && ptr_args_ok(s.last()) {
        good_ptrs(s.drop_last()).push(s.len() - 1)
    } else {
        good_ptrs(s.drop_last())
    }
}

/// Whether `ps` are the pointers recorded from constant `c`: one per ptr
/// attribute that reads, in order.
pub open spec fn ptrs_recorded(ps: Seq<Ptr>, c: ConstItem) -> bool {
    &&& ps.len() == good_ptrs(c.attrs@).len()
    &&& forall|k: int| 0 <= k < ps.len() ==> ptr_from(#[trigger] ps[k], c.attrs@[good_ptrs(c.attrs@)[k]], const_info_of(c))
}

/// Records a pointer for each `#[ptr]` attribute of `c` whose arguments read.
pub fn collect_const_ptrs(c: &ConstItem) -> (r: Vec<Ptr>)
    ensures
        ptrs_recorded(r@, *c),
{
    let ghost a0 = c.attrs@;
    let mut out: Vec<Ptr> = Vec::new();
    let mut i: usize = 0;
    while i < c.attrs.len()
        invariant
            i <= a0.len(),
            a0 == c.attrs@,
            out@.len() == good_ptrs(a0.subrange(0, i as int)).len(),
            forall|k: int| 0 <= k < out@.len() ==> ptr_from(#[trigger] out@[k],
                a0[good_ptrs(a0.subrange(0, i as int))[k]], const_info_of(*c)),
        decreases a0.len() - i,
    {
        let ghost prev = a0.subrange(0, i as int);
        let ghost next = a0.subrange(0, i + 1);
        assert(next.drop_last() =~= prev);
        assert(next.last() == a0[i as int]);
        let attr = &c.attrs[i];
        if attr.path.is_ident("ptr") {
            match parse_ptr_args(attr) {
                Ok(pa) => {
                    out.push(Ptr { vis: copy_toks(&c.vis), name: c.ident.copy(), ty: copy_toks(&c.ty), attr: pa });
                    assert(good_ptrs(next) == good_ptrs(prev).push(i as int));
                },
                Err(_) => {},
            }
        }
        i = i + 1;
    }
    assert(a0.subrange(0, a0.len() as int) =~= a0);
    out
}

/// How many detours the fold records from items `s`, inner modules included.
pub open spec fn n_hooks(s: Seq<Item>) -> nat
    decreases s,
{
    if s.len() == 0 {
        0
    } else {
        n_hooks(s.drop_last()) + n_hooks_item(s[s.len() - 1])
    }
}

/// How many detours the fold records from item `x`.
pub open spec fn n_hooks_item(x: Item) -> nat
    decreases x,
{
    match x {
        Item::Fn(f) => good_hooks(f.attrs@).len(),
        Item::Mod(m) => match m.content {
            Some(c) => n_hooks(c@),
            None => 0,
        },
        Item::Other { nested, .. } => n_hooks(nested@),
        _ => 0,
    }
}

/// How many pointers the fold records from items `s`, inner modules included.
pub open spec fn n_ptrs(s: Seq<Item>) -> nat
    decreases s,
{
    if s.len() == 0 {
        0
    } else {
        n_ptrs(s.drop_last()) + n_ptrs_item(s[s.len() - 1])
    }
}

/// How many pointers the fold records from item `x`.
pub open spec fn n_ptrs_item(x: Item) -> nat
    decreases x,
{
    match x {
        Item::Const(c) => if last_ptr(c.attrs@) >= 0 { good_ptrs(c.attrs@).len() } else { 0 },
        Item::Mod(m) => match m.content {
            Some(c) => n_ptrs(c@),
            None => 0,
        },
        Item::Other { nested, .. } => n_ptrs(nested@),
        _ => 0,
    }
}

/// Whether `ds` are the detours the fold records from items `s` with self
/// type `st`: those of each item in order, an inner module's content folded in turn.
pub open spec fn folded_detours(ds: Seq<Detour>, s: Seq<Item>, st: Option<TokV>) -> bool
    decreases s,
{
    &&& ds.len() == n_hooks(s)
    &&& (s.len() > 0 ==> {
        let m = n_hooks(s.drop_last());
        &&& m <= ds.len()
        &&& folded_detours(ds.subrange(0, m as int), s.drop_last(), st)
        &&& item_detours(ds.subrange(m as int, ds.len() as int), s[s.len() - 1], st)
    })
}

/// Whether `ds` are the detours the fold records from item `x` with self type `st`.
pub open spec fn item_detours(ds: Seq<Detour>, x: Item, st: Option<TokV>) -> bool
    decreases x,
{
    match x {
        Item::Fn(f) => hooks_recorded(ds, f, st),
        Item::Mod(m) => match m.content {
            Some(c) => folded_detours(ds, c@, st),
            None => ds.len() == 0,
        },
        Item::Other { nested, .. } => folded_detours(ds, nested@, st),
        _ => ds.len() == 0,
    }
}

/// Whether `ps` are the pointers the fold records from module items `s`.
pub open spec fn folded_ptrs(ps: Seq<Ptr>, s: Seq<Item>) -> bool
    decreases s,
{
    &&& ps.len() == n_ptrs(s)
    &&& (s.len() > 0 ==> {
        let m = n_ptrs(s.drop_last());
        &&& m <= ps.len()
        &&& folded_ptrs(ps.subrange(0, m as int), s.drop_last())
        &&& item_ptrs(ps.subrange(m as int, ps.len() as int), s[s.len() - 1])
    })
}

/// Whether `ps` are the pointers the fold records from module item `x`.
pub open spec fn item_ptrs(ps: Seq<Ptr>, x: Item) -> bool
    decreases x,
{
    match x {
        Item::Const(c) => if last_ptr(c.attrs@) >= 0 { ptrs_recorded(ps, c) } else { ps.len() == 0 },
        Item::Mod(m) => match m.content {
            Some(c) => folded_ptrs(ps, c@),
            None => ps.len() == 0,
        },
        Item::Other { nested, .. } => folded_ptrs(ps, nested@),
        _ => ps.len() == 0,
    }
}

/// Whether `out` is what folding module items `s` leaves: every item but the
/// pointer constants, in order, each as the fold makes it.
pub open spec fn folded_items(out: Seq<Item>, s: Seq<Item>) -> bool
    decreases s,
{
    if s.len() == 0 {
        out.len() == 0
    } else if is_kept_item(s[s.len() - 1]) {
        &&& out.len() > 0
        &&& folded_items(out.drop_last(), s.drop_last())
        &&& lenient_item_after(s[s.len() - 1], out[out.len() - 1])
    } else {
        folded_items(out, s.drop_last())
    }
}

/// Whether `y` is what the fold makes of item `x`: a function loses its hook
/// attributes (see [`lenient_fn_after`]); an inner module's content, and
/// the items nested in any other item, are folded; a constant stays as it was.
pub open spec fn lenient_item_after(x: Item, y: Item) -> bool
    decreases x,
{
    match x {
        Item::Fn(f) => y matches Item::Fn(g) && lenient_fn_after(f, g),
        Item::Mod(m) => y matches Item::Mod(n) && n.id == m.id && match m.content {
            Some(c) => n.content matches Some(d) && folded_items(d@, c@),
            None => n.content is None,
        },
        Item::Other { id, nested } => y matches Item::Other { id: id2, nested: n2 } && id2 == id
            && folded_items(n2@, nested@),
        _ => y == x,
    }
}

/// Whether a function among items `s` (inner modules included) takes `self`
/// and has a hook attribute that reads.
pub open spec fn hooked_receiver_in(s: Seq<Item>) -> bool
    decreases s,
{
    s.len() > 0 && (hooked_receiver_in(s.drop_last()) || item_hooked_receiver(s[s.len() - 1]))
}

/// Whether item `x` is, or (an inner module) holds, a function that takes
/// `self` and has a hook attribute that reads.
pub open spec fn item_hooked_receiver(x: Item) -> bool
    decreases x,
{
    match x {
        Item::Fn(f) => good_hooks(f.attrs@).len() > 0 && has_receiver(f.sig.inputs@),
        Item::Mod(m) => match m.content {
            Some(c) => hooked_receiver_in(c@),
            None => false,
        },
        Item::Other { nested, .. } => hooked_receiver_in(nested@),
        _ => false,
    }
}

proof fn lemma_item_detours_len(ds: Seq<Detour>, x: Item, st: Option<TokV>)
    requires
        item_detours(ds, x, st),
    ensures
        ds.len() == n_hooks_item(x),
{
}

proof fn lemma_item_ptrs_len(ps: Seq<Ptr>, x: Item)
    requires
        item_ptrs(ps, x),
    ensures
        ps.len() == n_ptrs_item(x),
{
}

/// Recorded detours carry the self type they were recorded with, and one
/// of them takes `self` exactly when a hooked function of the items does.
pub proof fn lemma_folded_detour_facts(ds: Seq<Detour>, s: Seq<Item>, st: Option<TokV>)
    requires
        folded_detours(ds, s, st),
    ensures
        forall|k: int| 0 <= k < ds.len() ==> opt_view_of(#[trigger] ds[k].self_type) == st,
        (exists|k: int| 0 <= k < ds.len() && has_receiver(#[trigger] ds[k].fn_sig.inputs@)) <==> hooked_receiver_in(s),
    decreases s,
{
    if s.len() > 0 {
        let m = n_hooks(s.drop_last()) as int;
        let a = ds.subrange(0, m);
        let b = ds.subrange(m, ds.len() as int);
        lemma_folded_detour_facts(a, s.drop_last(), st);
        lemma_item_detour_facts(b, s[s.len() - 1], st);
        assert forall|k: int| 0 <= k < ds.len() implies opt_view_of(#[trigger] ds[k].self_type) == st by {
            if k < m {
                assert(ds[k] == a[k]);
            } else {
                assert(ds[k] == b[k - m]);
            }
        }
        if exists|k: int| 0 <= k < ds.len() && has_receiver(#[trigger] ds[k].fn_sig.inputs@) {
            let k = choose|k: int| 0 <= k < ds.len() && has_receiver(#[trigger] ds[k].fn_sig.inputs@);
            if k < m {
                assert(ds[k] == a[k]);
            } else {
                assert(ds[k] == b[k - m]);
            }
        }
        if hooked_receiver_in(s.drop_last()) {
            let k = choose|k: int| 0 <= k < a.len() && has_receiver(#[trigger] a[k].fn_sig.inputs@);
            assert(ds[k] == a[k]);
        }
        if item_hooked_receiver(s[s.len() - 1]) {
            let k = choose|k: int| 0 <= k < b.len() && has_receiver(#[trigger] b[k].fn_sig.inputs@);
            assert(ds[k + m] == b[k]);
        }
    }
}

/// [`lemma_folded_detour_facts`] for the detours of one item.
pub proof fn lemma_item_detour_facts(ds: Seq<Detour>, x: Item, st: Option<TokV>)
    requires
        item_detours(ds, x, st),
    ensures
        forall|k: int| 0 <= k < ds.len() ==> opt_view_of(#[trigger] ds[k].self_type) == st,
        (exists|k: int| 0 <= k < ds.len() && has_receiver(#[trigger] ds[k].fn_sig.inputs@)) <==> item_hooked_receiver(x),
    decreases x,
{
    match x {
        Item::Fn(f) => {
            assert forall|k: int| 0 <= k < ds.len() implies has_receiver(#[trigger] ds[k].fn_sig.inputs@) == has_receiver(f.sig.inputs@) by {
                lemma_same_receivers(ds[k].fn_sig, f.sig);
            }
            if good_hooks(f.attrs@).len() > 0 && has_receiver(f.sig.inputs@) {
                assert(has_receiver(ds[0].fn_sig.inputs@));
            }
        },
        Item::Mod(m) => {
            if let Some(c) = m.content {
                lemma_folded_detour_facts(ds, c@, st);
            }
        },
        Item::Other { nested, .. } => {
            lemma_folded_detour_facts(ds, nested@, st);
        },
        _ => {},
    }
}

/// Whether `b` is `a` with more elements at the end.
pub open spec fn extends<T>(a: Seq<T>, b: Seq<T>) -> bool {
    a.len() <= b.len() && b.subrange(0, a.len() as int) == a
}

/// The elements `b` has past `a`.
pub open spec fn added<T>(a: Seq<T>, b: Seq<T>) -> Seq<T> {
    b.subrange(a.len() as int, b.len() as int)
}

/// A hooked function, as the fold records it.
pub type DetourInfo = Detour;

/// A pointer constant, as the fold records it.
pub type PtrItem = Ptr;

/// What the fold has gathered: the module literal given to the macro, the
/// detours and the pointers, in the order they were met.
pub struct Detours {
    pub module_name: Option<Tok>,
    pub detours: Vec<Detour>,
    pub ptrs: Vec<Ptr>,
}

impl Detours {
    /// An empty record for module literal `module_name`.
    pub fn new(module_name: Option<Tok>) -> (r: Self)
        ensures
            r.module_name == module_name,
            r.detours@.len() == 0,
            r.ptrs@.len() == 0,
    {
        Detours { module_name, detours: Vec::new(), ptrs: Vec::new() }
    }

    fn take_fn(&mut self, item_fn: FnItem, self_ty: Option<&Tok>) -> (r: FnItem)
        ensures
            lenient_fn_after(item_fn, r),
            final(self).module_name == old(self).module_name,
            final(self).ptrs == old(self).ptrs,
            extends(old(self).detours@, final(self).detours@),
            hooks_recorded(added(old(self).detours@, final(self).detours@), item_fn, opt_view(self_ty)),
    {
        let ghost d0 = self.detours@;
        let (g, mut ds) = collect_fn_hooks(item_fn, self_ty);
        let ghost dsv = ds@;
        self.detours.append(&mut ds);
        assert(self.detours@.subrange(0, d0.len() as int) =~= d0);
        assert(added(d0, self.detours@) =~= dsv);
        g
    }

    /// Takes the hook attributes off a module function and records its detours.
    pub fn fold_item_fn(&mut self, item_fn: FnItem) -> (r: FnItem)
        ensures
            lenient_fn_after(item_fn, r),
            final(self).module_name == old(self).module_name,
            final(self).ptrs == old(self).ptrs,
            extends(old(self).detours@, final(self).detours@),
            hooks_recorded(added(old(self).detours@, final(self).detours@), item_fn, None),
    {
        self.take_fn(item_fn, None)
    }

    /// Takes the hook attributes off a method of `self_ty` and records its detours.
    pub fn collect_impl_item_fn(&mut self, item_fn: FnItem, self_ty: &Tok) -> (r: FnItem)
        ensures
            lenient_fn_after(item_fn, r),
            final(self).module_name == old(self).module_name,
            final(self).ptrs == old(self).ptrs,
            extends(old(self).detours@, final(self).detours@),
            hooks_recorded(added(old(self).detours@, final(self).detours@), item_fn, Some(self_ty@)),
    {
        self.take_fn(item_fn, Some(self_ty))
    }

    fn take_ptrs(&mut self, c: &ConstItem)
        ensures
            final(self).module_name == old(self).module_name,
            final(self).detours == old(self).detours,
            extends(old(self).ptrs@, final(self).ptrs@),
            ptrs_recorded(added(old(self).ptrs@, final(self).ptrs@), *c),
    {
        let ghost p0 = self.ptrs@;
        let mut ps = collect_const_ptrs(c);
        let ghost psv = ps@;
        self.ptrs.append(&mut ps);
        assert(self.ptrs@.subrange(0, p0.len() as int) =~= p0);
        assert(added(p0, self.ptrs@) =~= psv);
    }

    /// Records the pointers of an associated constant. The constant is
    /// dropped (`None`) when one of its ptr attributes reads; otherwise it stays as it was.
    pub fn collect_impl_item_const(&mut self, item: ConstItem) -> (r: Option<ConstItem>)
        ensures
            final(self).module_name == old(self).module_name,
            final(self).detours == old(self).detours,
            extends(old(self).ptrs@, final(self).ptrs@),
            ptrs_recorded(added(old(self).ptrs@, final(self).ptrs@), item),
            r is None <==> good_ptrs(item.attrs@).len() > 0,
            r matches Some(c) ==> c == item,
    {
        let n0 = self.ptrs.len();
        self.take_ptrs(&item);
        if self.ptrs.len() > n0 {
            None
        } else {
            Some(item)
        }
    }

    /// Folds one module item: a constant carrying a `#[ptr]` attribute is
    /// dropped (`None`) and its pointers recorded; a function loses its hook
    /// attributes and its detours are recorded; an inner module's content,
    /// and the items nested in any other item, are folded in turn; another
    /// constant stays.
    pub fn fold_item(&mut self, item: Item) -> (r: Option<Item>)
        ensures
            final(self).module_name == old(self).module_name,
            extends(old(self).detours@, final(self).detours@),
            extends(old(self).ptrs@, final(self).ptrs@),
            item_detours(added(old(self).detours@, final(self).detours@), item, None),
            item_ptrs(added(old(self).ptrs@, final(self).ptrs@), item),
            if is_kept_item(item) { r matches Some(y) && lenient_item_after(item, y) } else { r is None },
        decreases item,
    {
        let ghost d0 = self.detours@;
        let ghost p0 = self.ptrs@;
        proof {
            assert(d0.subrange(0, d0.len() as int) =~= d0);
            assert(p0.subrange(0, p0.len() as int) =~= p0);
            assert(added(d0, d0) =~= Seq::<Detour>::empty());
            assert(added(p0, p0) =~= Seq::<Ptr>::empty());
        }
        match item {
            Item::Const(c) => {
                if has_ptr_attr(&c.attrs) {
                    self.take_ptrs(&c);
                    None
                } else {
                    Some(Item::Const(c))
                }
            },
            Item::Fn(f) => Some(Item::Fn(self.fold_item_fn(f))),
            Item::Mod(m) => {
                let ModItem { id, content } = m;
                match content {
                    Some(c) => {
                        let out = self.fold_items(c);
                        Some(Item::Mod(ModItem { id, content: Some(out) }))
                    },
                    None => Some(Item::Mod(ModItem { id, content: None })),
                }
            },
            Item::Other { id, nested } => {
                let out = self.fold_items(nested);
                Some(Item::Other { id, nested: out })
            },
        }
    }

    /// Folds the items of a module in order (inner modules included), and
    /// returns the items that stay.
    pub fn fold_items(&mut self, content: Vec<Item>) -> (r: Vec<Item>)
        ensures
            final(self).module_name == old(self).module_name,
            extends(old(self).detours@, final(self).detours@),
            extends(old(self).ptrs@, final(self).ptrs@),
            folded_detours(added(old(self).detours@, final(self).detours@), content@, None),
            folded_ptrs(added(old(self).ptrs@, final(self).ptrs@), content@),
            folded_items(r@, content@),
        decreases content,
    {
        let ghost c0 = content@;
        let ghost d0 = self.detours@;
        let ghost p0 = self.ptrs@;
        let total = content.len();
        let mut rest = content;
        let mut out: Vec<Item> = Vec::new();
        let mut i: usize = 0;
        proof {
            assert(c0.subrange(0, 0) =~= Seq::<Item>::empty());
            assert(d0.subrange(0, d0.len() as int) =~= d0);
            assert(p0.subrange(0, p0.len() as int) =~= p0);
            assert(added(d0, d0) =~= Seq::<Detour>::empty());
            assert(added(p0, p0) =~= Seq::<Ptr>::empty());
        }
        while rest.len() > 0
            invariant
                i <= c0.len(),
                c0.len() == total,
                i + rest@.len() == c0.len(),
                rest@ == c0.subrange(i as int, c0.len() as int),
                c0 == content@,
                self.module_name == old(self).module_name,
                extends(d0, self.detours@),
                extends(p0, self.ptrs@),
                d0 == old(self).detours@,
                p0 == old(self).ptrs@,
                folded_detours(added(d0, self.detours@), c0.subrange(0, i as int), None),
                folded_ptrs(added(p0, self.ptrs@), c0.subrange(0, i as int)),
                folded_items(out@, c0.subrange(0, i as int)),
            decreases rest@.len(),
        {
            assert(i < c0.len());
            let item = rest.remove(0);
            assert(item == c0[i as int]);
            assert(decreases_to!(content => item)) by {
                assert(decreases_to!(content => content@));
                assert(decreases_to!(content@ => content@[i as int]));
            }
            let ghost d1 = self.detours@;
            let ghost p1 = self.ptrs@;
            let ghost o1 = out@;
            let r = self.fold_item(item);
            match r {
                Some(y) => {
                    out.push(y);
                },
                None => {},
            }
            proof {
                let a = c0.subrange(0, i as int);
                let b = c0.subrange(0, i + 1);
                assert(b.drop_last() =~= a);
                assert(b[b.len() - 1] == c0[i as int]);
                lemma_added_step(d0, d1, self.detours@);
                lemma_added_step(p0, p1, self.ptrs@);
                lemma_item_detours_len(added(d1, self.detours@), c0[i as int], None);
                lemma_item_ptrs_len(added(p1, self.ptrs@), c0[i as int]);
                if is_kept_item(c0[i as int]) {
                    assert(out@.drop_last() =~= o1);
                } else {
                    assert(out@ == o1);
                }
            }
            i = i + 1;
        }
        proof {
            assert(c0.subrange(0, i as int) =~= c0);
        }
        out
    }
}

/// Adding in two steps adds the two parts in order.
proof fn lemma_added_step<T>(a: Seq<T>, b: Seq<T>, c: Seq<T>)
    requires
        extends(a, b),
        extends(b, c),
    ensures
        extends(a, c),
        added(a, c).subrange(0, added(a, b).len() as int) == added(a, b),
        added(a, c).subrange(added(a, b).len() as int, added(a, c).len() as int) == added(b, c),
        added(a, c).len() == added(a, b).len() + added(b, c).len(),
{
    assert(c.subrange(0, a.len() as int) =~= b.subrange(0, a.len() as int));
    assert(added(a, c).subrange(0, added(a, b).len() as int) =~= added(a, b));
    assert(added(a, c).subrange(added(a, b).len() as int, added(a, c).len() as int) =~= added(b, c));
}

fn has_ptr_attr(attrs: &Vec<Attribute>) -> (r: bool)
    ensures
        r == (last_ptr(attrs@) >= 0),
{
    let mut i: usize = 0;
    let mut found = false;
    while i < attrs.len()
        invariant
            i <= attrs@.len(),
            found == (last_ptr(attrs@.subrange(0, i as int)) >= 0),
        decreases attrs@.len() - i,
    {
        assert(attrs@.subrange(0, i + 1).drop_last() =~= attrs@.subrange(0, i as int));
        if attrs[i].path.is_ident("ptr") {
            found = true;
        }
        i = i + 1;
    }
    assert(attrs@.subrange(0, attrs@.len() as int) =~= attrs@);
    found
}

fn copy_module_name(m: &Option<Tok>) -> (r: Option<Tok>)
    ensures
        (r is Some) == (m is Some),
        r matches Some(t) ==> t@ == m.unwrap()@,
{
    match m {
        Some(t) => Some(t.copy()),
        None => None,
    }
}

impl Detours {
    /// `pub const MODULE_NAME: &str = ...;` for this record's module literal.
    pub fn get_module_name_decl(&self) -> (r: ModuleNameDecl)
        ensures
            module_name_decl_of(r, ExpansionContext::Module { module_name: self.module_name }),
    {
        let ctx = ExpansionContext::Module { module_name: copy_module_name(&self.module_name) };
        module_name_decl(&ctx)
    }

    /// Each detour's static and, when chained, its wrapper chain (a wrapper
    /// takes `next` after the arguments). Fails at the first free function taking `self`.
    pub fn generate_detour_decls(&self, paths: &CratePaths) -> (r: Result<Vec<DetourItems>, MacroError>)
        ensures
            r is Ok <==> (forall|k: int| 0 <= k < self.detours@.len() ==> !free_with_receiver(#[trigger] self.detours@[k])),
            r matches Ok(v) ==> v@.len() == self.detours@.len()
                && forall|k: int| 0 <= k < self.detours@.len() ==> detour_items_of(#[trigger] v@[k], self.detours@[k], *paths, false),
            r matches Err(e) ==> e is SelfNotSupported,
    {
        detour_items(&self.detours, paths, false)
    }

    /// The module-level aliases naming the chained detours' chains.
    pub fn generate_chain_aliases_for_mod(&self) -> (r: Vec<Alias>)
        ensures
            r@.len() == chained(self.detours@).len(),
            forall|k: int| 0 <= k < r@.len() ==> chain_alias_of(#[trigger] r@[k], self.detours@[chained(self.detours@)[k]], AliasKind::Static),
    {
        chain_aliases(&self.detours, AliasKind::Static)
    }

    /// The associated constants naming the chained detours' chains.
    pub fn generate_chain_consts_for_impl(&self) -> (r: Vec<Alias>)
        ensures
            r@.len() == chained(self.detours@).len(),
            forall|k: int| 0 <= k < r@.len() ==> chain_alias_of(#[trigger] r@[k], self.detours@[chained(self.detours@)[k]], AliasKind::Const),
    {
        chain_aliases(&self.detours, AliasKind::Const)
    }

    /// Each pointer's accessor type (its `addr` field private) and module static.
    pub fn generate_ptr_accessor_decls(&self) -> (r: Vec<ModulePtrItems>)
        ensures
            r@.len() == self.ptrs@.len(),
            forall|k: int| 0 <= k < r@.len() ==> {
                &&& accessor_type_of(#[trigger] r@[k].accessor, self.ptrs@[k])
                &&& !r@[k].accessor.addr_public
                &&& module_static_of(r@[k].static_item, self.ptrs@[k])
            },
    {
        let mut out: Vec<ModulePtrItems> = Vec::new();
        let mut i: usize = 0;
        while i < self.ptrs.len()
            invariant
                i <= self.ptrs@.len(),
                out@.len() == i,
                forall|k: int| 0 <= k < i ==> {
                    &&& accessor_type_of(#[trigger] out@[k].accessor, self.ptrs@[k])
                    &&& !out@[k].accessor.addr_public
                    &&& module_static_of(out@[k].static_item, self.ptrs@[k])
                },
            decreases self.ptrs@.len() - i,
        {
            out.push(self.ptrs[i].get_accessor_item());
            i = i + 1;
        }
        out
    }

    /// Each pointer's associated constant referring to its backing static.
    pub fn generate_ptr_accessor_impl_consts(&self) -> (r: Vec<Alias>)
        ensures
            r@.len() == self.ptrs@.len(),
            forall|k: int| 0 <= k < r@.len() ==> ptr_const_of(#[trigger] r@[k], self.ptrs@[k]),
    {
        let mut out: Vec<Alias> = Vec::new();
        let mut i: usize = 0;
        while i < self.ptrs.len()
            invariant
                i <= self.ptrs@.len(),
                out@.len() == i,
                forall|k: int| 0 <= k < i ==> ptr_const_of(#[trigger] out@[k], self.ptrs@[k]),
            decreases self.ptrs@.len() - i,
        {
            out.push(impl_const(&self.ptrs[i]));
            i = i + 1;
        }
        out
    }

    /// Each pointer's private backing static, for an impl block.
    pub fn generate_ptr_accessor_impl_statics(&self) -> (r: Vec<PtrStatic>)
        ensures
            r@.len() == self.ptrs@.len(),
            forall|k: int| 0 <= k < r@.len() ==> impl_static_of(#[trigger] r@[k], self.ptrs@[k]),
    {
        let mut out: Vec<PtrStatic> = Vec::new();
        let mut i: usize = 0;
        while i < self.ptrs.len()
            invariant
                i <= self.ptrs@.len(),
                out@.len() == i,
                forall|k: int| 0 <= k < i ==> impl_static_of(#[trigger] out@[k], self.ptrs@[k]),
            decreases self.ptrs@.len() - i,
        {
            out.push(impl_static(&self.ptrs[i]));
            i = i + 1;
        }
        out
    }

    /// Each pointer's static under the constant's own name, for a module.
    pub fn generate_ptr_accessor_statics(&self) -> (r: Vec<PtrStatic>)
        ensures
            r@.len() == self.ptrs@.len(),
            forall|k: int| 0 <= k < r@.len() ==> module_static_of(#[trigger] r@[k], self.ptrs@[k]),
    {
        let mut out: Vec<PtrStatic> = Vec::new();
        let mut i: usize = 0;
        while i < self.ptrs.len()
            invariant
                i <= self.ptrs@.len(),
                out@.len() == i,
                forall|k: int| 0 <= k < i ==> module_static_of(#[trigger] out@[k], self.ptrs@[k]),
            decreases self.ptrs@.len() - i,
        {
            out.push(module_static(&self.ptrs[i]));
            i = i + 1;
        }
        out
    }

    /// Each pointer's initialisation, storing into the backing static when
    /// `use_self` (an impl block) and into the static under its own name otherwise.
    pub fn generate_ptr_inits(&self, use_self: bool, paths: &CratePaths) -> (r: Vec<InitItem>)
        ensures
            r@.len() == self.ptrs@.len(),
            forall|k: int| 0 <= k < r@.len() ==> init_of_ptr_at(#[trigger] r@[k], self.ptrs@[k], self.module_name, use_self, *paths),
    {
        let mut out: Vec<InitItem> = Vec::new();
        let mut i: usize = 0;
        while i < self.ptrs.len()
            invariant
                i <= self.ptrs@.len(),
                out@.len() == i,
                forall|k: int| 0 <= k < i ==> init_of_ptr_at(#[trigger] out@[k], self.ptrs@[k], self.module_name, use_self, *paths),
            decreases self.ptrs@.len() - i,
        {
            out.push(ptr_init_at(&self.ptrs[i], self.module_name.as_ref(), use_self, paths));
            i = i + 1;
        }
        out
    }

    /// The module's `init_detours()`: the detours', then the pointers' initialisations.
    pub fn generate_init_detours(&self, paths: &CratePaths) -> (r: InitFn)
        ensures
            init_fn_of(r, self.detours@, self.ptrs@, ExpansionContext::Module { module_name: self.module_name }, *paths),
    {
        let ctx = ExpansionContext::Module { module_name: copy_module_name(&self.module_name) };
        let r = emit_init_detours_fn(&self.detours, &self.ptrs, &ctx, paths);
        proof {
            lemma_init_fn_same_ctx(r, self.detours@, self.ptrs@, ctx, ExpansionContext::Module { module_name: self.module_name }, *paths);
        }
        r
    }

    /// The impl block's `init_detours()` for type `struct_name`: the
    /// detours', then the pointers' initialisations.
    pub fn generate_init_detours_for_impl(&self, struct_name: &Tok, paths: &CratePaths) -> (r: InitFn)
        ensures
            init_fn_of(r, self.detours@, self.ptrs@, ExpansionContext::Impl { module_name: self.module_name, self_type: *struct_name }, *paths),
    {
        let ctx = ExpansionContext::Impl { module_name: copy_module_name(&self.module_name), self_type: struct_name.copy() };
        let r = emit_init_detours_fn(&self.detours, &self.ptrs, &ctx, paths);
        proof {
            lemma_init_fn_same_ctx(r, self.detours@, self.ptrs@, ctx,
                ExpansionContext::Impl { module_name: self.module_name, self_type: *struct_name }, *paths);
        }
        r
    }
}

} // verus!
