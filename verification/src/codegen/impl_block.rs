//! What `#[hook_impl]` writes for an impl block.
use vstd::prelude::*;
use crate::codegen::chain::{chain_alias_of, chain_aliases, chained, Alias, AliasKind};
use crate::codegen::detour::{detour_items, detour_items_of, free_with_receiver, DetourItems};
use crate::codegen::init::{emit_init_detours_fn, init_fn_of, InitFn};
use crate::codegen::ptr::{accessor_type, accessor_type_of, impl_const, impl_static, impl_static_of, ptr_const_of, AccessorType, PtrStatic};
use crate::collect::{Collected, Item, MacroError};
use crate::model::{CratePaths, ExpansionContext};

verus! {

/// The accessor type and private backing static of one pointer, written before the impl block.
pub struct ImplPtrItems {
    pub accessor: AccessorType,
    pub backing: PtrStatic,
}

/// The expansion, in the order it is written: each detour's items and each
/// pointer's items before the impl block; then the impl block with its kept
/// items followed by `init_detours()`, the chain constants and the pointer constants.
pub struct ImplExpansion {
    pub detours: Vec<DetourItems>,
    pub ptrs: Vec<ImplPtrItems>,
    pub items: Vec<Item>,
    pub init: InitFn,
    pub chain_consts: Vec<Alias>,
    pub ptr_consts: Vec<Alias>,
}

/// Whether `e` is the expansion of collected impl block `c` in context `ctx`.
pub open spec fn impl_expansion_of(e: ImplExpansion, c: Collected, ctx: ExpansionContext, paths: CratePaths) -> bool {
    &&& e.detours@.len() == c.detours@.len()
    &&& forall|k: int| 0 <= k < c.detours@.len() ==> detour_items_of(#[trigger] e.detours@[k], c.detours@[k], paths, false)
    &&& e.ptrs@.len() == c.ptrs@.len()
    &&& forall|k: int| 0 <= k < c.ptrs@.len() ==> {
        &&& accessor_type_of(#[trigger] e.ptrs@[k].accessor, c.ptrs@[k])
        &&& e.ptrs@[k].accessor.addr_public
        &&& impl_static_of(e.ptrs@[k].backing, c.ptrs@[k])
    }
    &&& e.items == c.items
    &&& init_fn_of(e.init, c.detours@, c.ptrs@, ctx, paths)
    &&& e.chain_consts@.len() == chained(c.detours@).len()
    &&& forall|k: int| 0 <= k < e.chain_consts@.len() ==> chain_alias_of(#[trigger] e.chain_consts@[k], c.detours@[chained(c.detours@)[k]], AliasKind::Const)
    &&& e.ptr_consts@.len() == c.ptrs@.len()
    &&& forall|k: int| 0 <= k < c.ptrs@.len() ==> ptr_const_of(#[trigger] e.ptr_consts@[k], c.ptrs@[k])
}

/// The impl block's expansion. Fails when a hooked function without a self type takes `self`.
pub fn generate(collected: Collected, ctx: &ExpansionContext, paths: &CratePaths) -> (r: Result<ImplExpansion, MacroError>)
    ensures
        r is Ok <==> (forall|k: int| 0 <= k < collected.detours@.len() ==> !free_with_receiver(#[trigger] collected.detours@[k])),
        r matches Ok(e) ==> impl_expansion_of(e, collected, *ctx, *paths),
        r matches Err(e) ==> e is SelfNotSupported,
{
    let Collected { items, detours, ptrs } = collected;
    let init = emit_init_detours_fn(&detours, &ptrs, ctx, paths);
    let chain_consts = chain_aliases(&detours, AliasKind::Const);
    let mut ptr_consts: Vec<Alias> = Vec::new();
    let mut i: usize = 0;
    while i < ptrs.len()
        invariant
            i <= ptrs@.len(),
            ptr_consts@.len() == i,
            forall|k: int| 0 <= k < i ==> ptr_const_of(#[trigger] ptr_consts@[k], ptrs@[k]),
        decreases ptrs@.len() - i,
    {
        ptr_consts.push(impl_const(&ptrs[i]));
        i = i + 1;
    }
    let detour_out = match detour_items(&detours, paths, false) {
        Ok(v) => v,
        Err(e) => {
            return Err(e);
        },
    };
    let mut ptr_out: Vec<ImplPtrItems> = Vec::new();
    let mut j: usize = 0;
    while j < ptrs.len()
        invariant
            j <= ptrs@.len(),
            ptr_out@.len() == j,
            forall|k: int| 0 <= k < j ==> {
                &&& accessor_type_of(#[trigger] ptr_out@[k].accessor, ptrs@[k])
                &&& ptr_out@[k].accessor.addr_public
                &&& impl_static_of(ptr_out@[k].backing, ptrs@[k])
            },
        decreases ptrs@.len() - j,
    {
        ptr_out.push(ImplPtrItems { accessor: accessor_type(&ptrs[j]), backing: impl_static(&ptrs[j]) });
        j = j + 1;
    }
    Ok(ImplExpansion { detours: detour_out, ptrs: ptr_out, items, init, chain_consts, ptr_consts })
}

} // verus!
