//! Collecting from a `#[hook_impl]` impl block.
use vstd::prelude::*;
use crate::collect::{collect_items, collected_from, is_attr_error, item_ok, items_error, Collected, Item, MacroError, PathModel};
use crate::model::ExpansionContext;
use crate::tokens::Tok;

verus! {

/// What is collected from an impl block.
pub type CollectedImpl = Collected;

/// The type an impl block is for.
pub enum SelfTy {
    /// A path type (with or without a qualified self).
    Path(PathModel),
    /// Any other type.
    Other,
}

/// The implementing type's name: the impl must be for a plain one-segment path.
pub fn extract_self_type(self_ty: &SelfTy) -> (r: Result<Tok, MacroError>)
    ensures
        r is Ok <==> (self_ty matches SelfTy::Path(p) && p.spec_ident() is Some),
        r matches Ok(t) ==> (self_ty matches SelfTy::Path(p) && t@ == p.spec_ident().unwrap()@),
        r matches Err(e) ==> e is ExpectedSimpleStructName,
{
    match self_ty {
        SelfTy::Path(p) => match p.get_ident() {
            Some(t) => Ok(t.copy()),
            None => Err(MacroError::ExpectedSimpleStructName),
        },
        SelfTy::Other => Err(MacroError::ExpectedSimpleStructName),
    }
}

/// Collects the hooked methods and pointer constants of an impl block whose
/// items are `items`; the context must name the implementing type.
pub fn collect(items: Vec<Item>, ctx: &ExpansionContext) -> (r: Result<Collected, MacroError>)
    ensures
        ctx.spec_self_type() is None ==> r matches Err(MacroError::MissingSelfType),
        ctx.spec_self_type() is Some ==> (r matches Err(e) ==> is_attr_error(e) && items_error(items@, e)),
        r is Ok <==> (ctx.spec_self_type() is Some && forall|i: int| 0 <= i < items@.len() ==> item_ok(#[trigger] items@[i])),
        r matches Ok(c) ==> collected_from(c, items@, Some(ctx.spec_self_type().unwrap()@)),
{
    match ctx.self_type() {
        Some(st) => collect_items(items, Some(st)),
        None => Err(MacroError::MissingSelfType),
    }
}

} // verus!
