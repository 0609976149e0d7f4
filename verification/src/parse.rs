//! The hook attribute of the fold-based expansion, under its own names: its
//! arguments are read exactly as `#[hook(...)]`'s, and written back without
//! the visibility and qualifiers.
use vstd::prelude::*;
use crate::attr::{target_toks, HookAttr, LookupTarget};
use crate::codegen::init::{emit_lookup_data, lookup_ctor, takes_module, LookupCall};
use crate::model::CratePaths;
use crate::tokens::{push_tok, toks_view, Tok};

verus! {

/// The arguments of a hook attribute.
pub type HookAttributeArgs = HookAttr;

/// Where a hooked target is found.
pub type HookArg = LookupTarget;

impl HookAttr {
    /// The detour name, the comma and the lookup target, as tokens.
    pub fn to_tokens(&self) -> (r: Vec<Tok>)
        ensures
            toks_view(r@) == seq![self.detour_name@, self.comma@] + target_toks(self.target),
    {
        let mut r: Vec<Tok> = Vec::new();
        r.push(self.detour_name.copy());
        r.push(self.comma.copy());
        let t = self.target.to_tokens();
        crate::tokens::extend_toks(&mut r, &t);
        assert(toks_view(r@) =~= seq![self.detour_name@, self.comma@] + target_toks(self.target));
        r
    }
}

impl LookupTarget {
    /// The target as tokens: keyword, `=` and value.
    pub fn to_tokens(&self) -> (r: Vec<Tok>)
        ensures
            toks_view(r@) == target_toks(*self),
    {
        let mut r: Vec<Tok> = Vec::new();
        match self {
            LookupTarget::Offset { keyword, eq, minus, value } => {
                push_tok(&mut r, keyword);
                push_tok(&mut r, eq);
                match minus {
                    Some(m) => push_tok(&mut r, m),
                    None => {},
                }
                push_tok(&mut r, value);
            },
            LookupTarget::Symbol { keyword, eq, value } => {
                push_tok(&mut r, keyword);
                push_tok(&mut r, eq);
                push_tok(&mut r, value);
            },
        }
        assert(toks_view(r@) =~= target_toks(*self));
        r
    }

    /// The `LookupData` construction for this target in a module named
    /// `module_name`, if any (relative to the current executable otherwise).
    pub fn get_lookup_data_new_fn(&self, module_name: Option<&Tok>, paths: &CratePaths) -> (r: LookupCall)
        ensures
            r.ctor == lookup_ctor(*self, module_name is Some),
            takes_module(r.ctor) <==> module_name is Some,
            r.module matches Some(m) ==> module_name matches Some(n) && m@ == n@,
            r.module is Some == module_name is Some,
            toks_view(r.value@) == self.spec_value_toks(),
            r.path@.len() == 2 && r.path@[0]@ == paths.runtime@ && r.path@[1]@ == "LookupData"@,
    {
        emit_lookup_data(self, module_name, paths)
    }
}

} // verus!
