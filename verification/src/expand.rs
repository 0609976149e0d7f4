//! The two attribute macros end to end: collect, then generate.
use vstd::prelude::*;
use crate::codegen::detour::free_with_receiver;
use crate::codegen::impl_block::{impl_expansion_of, ImplExpansion};
use crate::codegen::module::{module_expansion_of, ModuleExpansion};
use crate::collect::module::{collected_module_from, collected_of, CollectedModule, ModuleDecl};
use crate::collect::impl_block::{extract_self_type, SelfTy};
use crate::collect::{collected_from, is_attr_error, is_hooked_fn, item_ok, items_error, last_hook, lemma_positions, Collected, Item, MacroError};
use crate::model::{CratePaths, ExpansionContext};
use crate::signature::{has_receiver, lemma_same_receivers};
use crate::tokens::Tok;

verus! {

/// Whether `x` is a hooked function that takes `self`.
pub open spec fn hooked_with_receiver(x: Item) -> bool {
    x matches Item::Fn(f) && last_hook(f.attrs@) >= 0 && has_receiver(f.sig.inputs@)
}

/// The detours collected from `content` with no self type are free functions
/// taking `self` exactly when some hooked function of `content` takes `self`.
proof fn lemma_free_receivers(c: Collected, content: Seq<Item>)
    requires
        collected_from(c, content, None),
    ensures
        (forall|k: int| 0 <= k < c.detours@.len() ==> !free_with_receiver(#[trigger] c.detours@[k]))
            <==> (forall|i: int| 0 <= i < content.len() ==> !hooked_with_receiver(#[trigger] content[i])),
{
    let ph = |x: Item| is_hooked_fn(x);
    let hooked = crate::collect::positions(content, ph);
    lemma_positions(content, ph);
    if forall|i: int| 0 <= i < content.len() ==> !hooked_with_receiver(#[trigger] content[i]) {
        assert forall|k: int| 0 <= k < c.detours@.len() implies !free_with_receiver(#[trigger] c.detours@[k]) by {
            let i = hooked[k];
            assert(ph(content[i]));
            if let Item::Fn(f) = content[i] {
                lemma_same_receivers(c.detours@[k].fn_sig, f.sig);
                assert(!hooked_with_receiver(content[i]));
            }
        }
    }
    if forall|k: int| 0 <= k < c.detours@.len() ==> !free_with_receiver(#[trigger] c.detours@[k]) {
        assert forall|i: int| 0 <= i < content.len() implies !hooked_with_receiver(#[trigger] content[i]) by {
            if hooked_with_receiver(content[i]) {
                assert(ph(content[i]));
                let k = choose|k: int| 0 <= k < hooked.len() && hooked[k] == i;
                if let Item::Fn(f) = content[i] {
                    lemma_same_receivers(c.detours@[k].fn_sig, f.sig);
                    assert(free_with_receiver(c.detours@[k]));
                }
            }
        }
    }
}

/// `#[hook_module]` (with the module literal `module_name`, if given) on
/// `module`.
pub fn expand_module(module: ModuleDecl, module_name: Option<Tok>, paths: &CratePaths) -> (r: Result<ModuleExpansion, MacroError>)
    ensures
        r is Ok <==> (module.content matches Some(c) && (forall|i: int| 0 <= i < c@.len() ==> item_ok(#[trigger] c@[i]))
            && (forall|i: int| 0 <= i < c@.len() ==> !hooked_with_receiver(#[trigger] c@[i]))),
        module.content is None ==> r matches Err(MacroError::NoModuleContent),
        (module.content matches Some(c) && (forall|i: int| 0 <= i < c@.len() ==> item_ok(#[trigger] c@[i]))
            && (exists|i: int| 0 <= i < c@.len() && hooked_with_receiver(#[trigger] c@[i])))
            ==> r matches Err(MacroError::SelfNotSupported { .. }),
        (module.content matches Some(c) && !(forall|i: int| 0 <= i < c@.len() ==> item_ok(#[trigger] c@[i])))
            ==> (r matches Err(e) && is_attr_error(e) && items_error(module.content.unwrap()@, e)),
        r matches Ok(e) ==> exists|col: CollectedModule| #![trigger collected_module_from(col, module)]
            collected_module_from(col, module) && module_expansion_of(e, col, ExpansionContext::Module { module_name }, *paths),
{
    let ghost md = module;
    let ghost m0 = module_name;
    let ctx = ExpansionContext::Module { module_name };
    let collected = match crate::collect::module::collect(module, &ctx) {
        Ok(c) => c,
        Err(e) => {
            return Err(e);
        },
    };
    let ghost col = collected;
    proof {
        lemma_free_receivers(collected_of(col), md.content.unwrap()@);
    }
    let r = crate::codegen::module::generate(collected, &ctx, paths);
    proof {
        if r is Ok {
            assert(ctx == ExpansionContext::Module { module_name: m0 });
            assert(collected_module_from(col, md) && module_expansion_of(r->Ok_0, col, ctx, *paths));
        }
    }
    r
}

/// `#[hook_impl]` (with the module literal `module_name`, if given) on an
/// impl block for `self_ty` whose items are `items`.
pub fn expand_impl(self_ty: &SelfTy, items: Vec<Item>, module_name: Option<Tok>, paths: &CratePaths) -> (r: Result<ImplExpansion, MacroError>)
    ensures
        r is Ok <==> ((self_ty matches SelfTy::Path(p) && p.spec_ident() is Some)
            && forall|i: int| 0 <= i < items@.len() ==> item_ok(#[trigger] items@[i])),
        !(self_ty matches SelfTy::Path(p) && p.spec_ident() is Some) ==> r matches Err(MacroError::ExpectedSimpleStructName),
        (self_ty matches SelfTy::Path(p) && p.spec_ident() is Some) ==> (r matches Err(e) ==> is_attr_error(e) && items_error(items@, e)),
        r matches Ok(e) ==> (self_ty matches SelfTy::Path(p) && p.spec_ident() matches Some(t)
            && exists|st: Tok, col: Collected| st@ == t@ && collected_from(col, items@, Some(t@))
                && impl_expansion_of(e, col, ExpansionContext::Impl { module_name, self_type: st }, *paths)),
{
    let ghost m0 = module_name;
    let self_type = match extract_self_type(self_ty) {
        Ok(t) => t,
        Err(e) => {
            return Err(e);
        },
    };
    let ghost st = self_type;
    let ctx = ExpansionContext::Impl { module_name, self_type };
    let collected = match crate::collect::impl_block::collect(items, &ctx) {
        Ok(c) => c,
        Err(e) => {
            return Err(e);
        },
    };
    let ghost col = collected;
    proof {
        let ph = |x: Item| is_hooked_fn(x);
        lemma_positions(items@, ph);
        assert forall|k: int| 0 <= k < col.detours@.len() implies !free_with_receiver(#[trigger] col.detours@[k]) by {
            let i = crate::collect::positions(items@, ph)[k];
            assert(ph(items@[i]));
        }
    }
    let r = crate::codegen::impl_block::generate(collected, &ctx, paths);
    proof {
        if r is Ok {
            assert(ctx == ExpansionContext::Impl { module_name: m0, self_type: st });
            assert(collected_from(col, items@, Some(st@)) && impl_expansion_of(r->Ok_0, col, ctx, *paths));
        }
    }
    r
}

} // verus!
