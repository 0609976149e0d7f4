//! Collecting from a `#[hook_module]` module.
use vstd::prelude::*;
use crate::collect::{collect_items, collected_from, is_attr_error, item_ok, items_error, Collected, Item, MacroError};
use crate::model::{Detour, ExpansionContext, Ptr};
use crate::tokens::Tok;

verus! {

/// A module: its attributes, visibility, `unsafe`, `mod` keyword and name,
/// the span of its braces, and its content (`None` for `mod name;`).
pub struct ModuleDecl {
    pub attrs: Vec<Tok>,
    pub vis: Vec<Tok>,
    pub unsafety: Option<Tok>,
    pub mod_token: Tok,
    pub name: Tok,
    pub brace_span: usize,
    pub content: Option<Vec<Item>>,
}

/// Whether `a` and `b` agree in everything but their content.
pub open spec fn same_head(a: ModuleDecl, b: ModuleDecl) -> bool {
    &&& a.attrs == b.attrs
    &&& a.vis == b.vis
    &&& a.unsafety == b.unsafety
    &&& a.mod_token == b.mod_token
    &&& a.name == b.name
    &&& a.brace_span == b.brace_span
}

/// What is collected from a module: the module with the items that stay,
/// and the detours and pointers recorded from it.
pub struct CollectedModule {
    pub module: ModuleDecl,
    pub detours: Vec<Detour>,
    pub ptrs: Vec<Ptr>,
}

/// The collected content of `c` as one record.
pub open spec fn collected_of(c: CollectedModule) -> Collected {
    Collected { items: c.module.content.unwrap(), detours: c.detours, ptrs: c.ptrs }
}

/// Whether `c` is what collecting module `m` yields: the same module, with
/// the items that stay as its content.
pub open spec fn collected_module_from(c: CollectedModule, m: ModuleDecl) -> bool {
    &&& same_head(c.module, m)
    &&& c.module.content is Some
    &&& m.content is Some
    &&& collected_from(collected_of(c), m.content.unwrap()@, None)
}

/// Collects the hooked functions and pointer constants of `module`, and
/// leaves the items that stay as its content. Fails without content.
pub fn collect(module: ModuleDecl, ctx: &ExpansionContext) -> (r: Result<CollectedModule, MacroError>)
    ensures
        r is Ok <==> (module.content matches Some(c) && forall|i: int| 0 <= i < c@.len() ==> item_ok(#[trigger] c@[i])),
        module.content is None ==> r matches Err(MacroError::NoModuleContent),
        module.content matches Some(c) ==> (r matches Err(e) ==> is_attr_error(e) && items_error(c@, e)),
        r matches Ok(c) ==> collected_module_from(c, module),
{
    let ghost m0 = module;
    let ModuleDecl { attrs, vis, unsafety, mod_token, name, brace_span, content } = module;
    match content {
        Some(c) => match collect_items(c, None) {
            Ok(Collected { items, detours, ptrs }) => {
                let module = ModuleDecl { attrs, vis, unsafety, mod_token, name, brace_span, content: Some(items) };
                Ok(CollectedModule { module, detours, ptrs })
            },
            Err(e) => Err(e),
        },
        None => Err(MacroError::NoModuleContent),
    }
}

} // verus!
