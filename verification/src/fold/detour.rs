//! What the fold writes for each recorded detour.
use vstd::prelude::*;
use crate::codegen::chain::{chain_alias_of, chain_static_of, chain_static_with, impl_const, module_alias, Alias, AliasKind, ChainStatic};
use crate::codegen::detour::{static_detour, static_detour_of, StaticDetourItem};
use crate::codegen::init::{detour_init, init_of_detour, InitItem};
use crate::model::{CratePaths, Detour, ExpansionContext};
use crate::signature::has_receiver;
use crate::tokens::Tok;

verus! {

fn copy_module_name(m: Option<&Tok>) -> (r: Option<Tok>)
    ensures
        (r is Some) == (m is Some),
        r matches Some(t) ==> t@ == m.unwrap()@,
{
    match m {
        Some(t) => Some(t.copy()),
        None => None,
    }
}

impl Detour {
    /// The detour's static. A free function (no self type) cannot take `self`.
    pub fn get_static_detour(&self, paths: &CratePaths) -> (r: StaticDetourItem)
        requires
            self.self_type is None ==> !has_receiver(self.fn_sig.inputs@),
        ensures
            static_detour_of(r, *self, *paths),
    {
        static_detour(self, paths)
    }

    /// The module-level alias naming the chain after the hooked function.
    pub fn get_chain_mod_alias(&self) -> (r: Alias)
        ensures
            chain_alias_of(r, *self, AliasKind::Static),
    {
        module_alias(self)
    }

    /// The associated constant naming the chain after the hooked method.
    pub fn get_chain_impl_const(&self) -> (r: Alias)
        ensures
            chain_alias_of(r, *self, AliasKind::Const),
    {
        impl_const(self)
    }

    /// The wrapper chain; a wrapper takes the arguments, then `next`.
    pub fn get_chain_static(&self, paths: &CratePaths) -> (r: ChainStatic)
        ensures
            chain_static_of(r, *self, *paths),
            !r.next_first,
    {
        chain_static_with(self, paths, false)
    }

    /// The initialisation installing `struct_name::{fn}` for module literal `module_name`.
    pub fn generate_detour_init_with_prefix(&self, module_name: Option<&Tok>, struct_name: &Tok, paths: &CratePaths) -> (r: InitItem)
        ensures
            init_of_detour(r, *self, ExpansionContext::Impl {
                module_name: match module_name { Some(t) => Some(*t), None => None },
                self_type: *struct_name,
            }, *paths),
    {
        let ctx = ExpansionContext::Impl { module_name: copy_module_name(module_name), self_type: struct_name.copy() };
        detour_init(self, &ctx, paths)
    }

    /// The initialisation installing the free function, for module literal `module_name`.
    pub fn generate_detour_init(&self, module_name: Option<&Tok>, paths: &CratePaths) -> (r: InitItem)
        ensures
            init_of_detour(r, *self, ExpansionContext::Module {
                module_name: match module_name { Some(t) => Some(*t), None => None },
            }, *paths),
    {
        let ctx = ExpansionContext::Module { module_name: copy_module_name(module_name) };
        detour_init(self, &ctx, paths)
    }
}

} // verus!
