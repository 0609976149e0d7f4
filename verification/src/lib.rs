//! Verified core of the `retour-utils` detour helpers: runtime lookup data and
//! the decisions behind the `#[hook_module]` / `#[hook_impl]` attribute macros.
pub mod lookup;
pub mod text;
pub mod tokens;
pub mod attr;
pub mod signature;
pub mod model;
pub mod collect;
pub mod codegen;
pub mod expand;
pub mod laws;
pub mod parse;
pub mod helpers;
pub mod fold;
