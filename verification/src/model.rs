//! The records the macros collect and the context they expand in.
use vstd::prelude::*;
use crate::attr::{HookAttr, PtrAttr};
use crate::signature::Signature;
use crate::text::push_str;
use crate::tokens::Tok;

verus! {

/// A hooked function, as collected from its `#[hook(...)]` attribute.
pub struct Detour {
    pub attr: HookAttr,
    pub original_fn_name: Tok,
    pub fn_sig: Signature,
    pub self_type: Option<Tok>,
    pub fn_visibility: Vec<Tok>,
}

/// A value reached through a pointer, as collected from its `#[ptr(...)]` attribute.
pub struct Ptr {
    pub vis: Vec<Tok>,
    pub name: Tok,
    pub ty: Vec<Tok>,
    pub attr: PtrAttr,
}

/// Where the macro expands: a module, or an inherent impl block of `self_type`.
pub enum ExpansionContext {
    Module { module_name: Option<Tok> },
    Impl { module_name: Option<Tok>, self_type: Tok },
}

impl ExpansionContext {
    pub open spec fn spec_module_name(&self) -> Option<Tok> {
        match self {
            ExpansionContext::Module { module_name } => *module_name,
            ExpansionContext::Impl { module_name, .. } => *module_name,
        }
    }

    pub open spec fn spec_self_type(&self) -> Option<Tok> {
        match self {
            ExpansionContext::Module { .. } => None,
            ExpansionContext::Impl { self_type, .. } => Some(*self_type),
        }
    }

    /// The module literal given to the macro, if any.
    pub fn module_name(&self) -> (r: Option<&Tok>)
        ensures
            r == match self.spec_module_name() {
                Some(t) => Some(&t),
                None => None::<&Tok>,
            },
    {
        match self {
            ExpansionContext::Module { module_name } => module_name.as_ref(),
            ExpansionContext::Impl { module_name, .. } => module_name.as_ref(),
        }
    }

    /// The implementing type, in an impl block.
    pub fn self_type(&self) -> (r: Option<&Tok>)
        ensures
            r == match self.spec_self_type() {
                Some(t) => Some(&t),
                None => None::<&Tok>,
            },
    {
        match self {
            ExpansionContext::Module { .. } => None,
            ExpansionContext::Impl { self_type, .. } => Some(self_type),
        }
    }
}

/// How a crate that generated code refers to was found in the caller's manifest.
pub enum FoundCrate {
    /// The caller is the crate itself.
    Itself,
    /// The crate is a dependency known under this name.
    Name(Vec<char>),
}

/// The name under which generated code refers to a crate: `default` for the
/// crate itself, else the dependency's name with `-` written as `_`.
pub open spec fn crate_ident_spec(found: FoundCrate, default: Seq<char>) -> Seq<char> {
    match found {
        FoundCrate::Itself => default,
        FoundCrate::Name(n) => Seq::new(n@.len(), |i: int| if n@[i] == '-' { '_' } else { n@[i] }),
    }
}

/// The name under which generated code refers to a crate (see [`crate_ident_spec`]).
pub fn resolve_crate(found: &FoundCrate, default: &str) -> (r: Vec<char>)
    ensures
        r@ == crate_ident_spec(*found, default@),
{
    match found {
        FoundCrate::Itself => {
            let mut v: Vec<char> = Vec::new();
            push_str(&mut v, default);
            assert(v@ =~= default@);
            v
        },
        FoundCrate::Name(n) => {
            let mut v: Vec<char> = Vec::new();
            let mut i: usize = 0;
            while i < n.len()
                invariant
                    i <= n@.len(),
                    v@ =~= Seq::new(i as nat, |j: int| if n@[j] == '-' { '_' } else { n@[j] }),
                decreases n@.len() - i,
            {
                let c = n[i];
                v.push(if c == '-' { '_' } else { c });
                i = i + 1;
            }
            v
        },
    }
}

/// The paths generated code uses: the runtime crate and the detour crate.
pub struct CratePaths {
    pub runtime: Vec<char>,
    pub retour: Vec<char>,
}

/// The path `::krate::seg1::seg2...` as its segments.
pub open spec fn crate_path(krate: Seq<char>, rest: Seq<Seq<char>>) -> Seq<Seq<char>> {
    seq![krate] + rest
}

fn path_of(krate: &Vec<char>, a: &str, b: Option<&str>) -> (r: Vec<Vec<char>>)
    ensures
        r@.len() == (if b is Some { 3int } else { 2int }),
        r@[0]@ == krate@,
        r@[1]@ == a@,
        b matches Some(w) ==> r@[2]@ == w@,
{
    let mut r: Vec<Vec<char>> = Vec::new();
    r.push(krate.clone());
    let mut x: Vec<char> = Vec::new();
    push_str(&mut x, a);
    r.push(x);
    if let Some(w) = b {
        let mut y: Vec<char> = Vec::new();
        push_str(&mut y, w);
        r.push(y);
    }
    proof {
        assert(r@[0]@ =~= krate@);
    }
    r
}

impl CratePaths {
    /// Paths from the two crates' names as found in the caller's manifest
    /// (`retour-utils` and `retour`).
    pub fn init(runtime: &FoundCrate, retour: &FoundCrate) -> (r: Self)
        ensures
            r.runtime@ == crate_ident_spec(*runtime, "retour_utils"@),
            r.retour@ == crate_ident_spec(*retour, "retour"@),
    {
        CratePaths { runtime: resolve_crate(runtime, "retour_utils"), retour: resolve_crate(retour, "retour") }
    }

    /// `::runtime::LookupData`
    pub fn lookup_data(&self) -> (r: Vec<Vec<char>>)
        ensures
            r@.len() == 2 && r@[0]@ == self.runtime@ && r@[1]@ == "LookupData"@,
    {
        path_of(&self.runtime, "LookupData", None)
    }

    /// `::retour::StaticDetour`
    pub fn static_detour(&self) -> (r: Vec<Vec<char>>)
        ensures
            r@.len() == 2 && r@[0]@ == self.retour@ && r@[1]@ == "StaticDetour"@,
    {
        path_of(&self.retour, "StaticDetour", None)
    }

    /// `::retour::Function`
    pub fn function(&self) -> (r: Vec<Vec<char>>)
        ensures
            r@.len() == 2 && r@[0]@ == self.retour@ && r@[1]@ == "Function"@,
    {
        path_of(&self.retour, "Function", None)
    }

    /// `::runtime::Error`
    pub fn error(&self) -> (r: Vec<Vec<char>>)
        ensures
            r@.len() == 2 && r@[0]@ == self.runtime@ && r@[1]@ == "Error"@,
    {
        path_of(&self.runtime, "Error", None)
    }

    /// `::runtime::init_detour`
    pub fn init_detour(&self) -> (r: Vec<Vec<char>>)
        ensures
            r@.len() == 2 && r@[0]@ == self.runtime@ && r@[1]@ == "init_detour"@,
    {
        path_of(&self.runtime, "init_detour", None)
    }

    /// `::runtime::__private::StaticDetour`
    pub fn private_static_detour(&self) -> (r: Vec<Vec<char>>)
        ensures
            r@.len() == 3 && r@[0]@ == self.runtime@ && r@[1]@ == "__private"@ && r@[2]@ == "StaticDetour"@,
    {
        path_of(&self.runtime, "__private", Some("StaticDetour"))
    }

    /// `::runtime::__private::Mutex`
    pub fn private_mutex(&self) -> (r: Vec<Vec<char>>)
        ensures
            r@.len() == 3 && r@[0]@ == self.runtime@ && r@[1]@ == "__private"@ && r@[2]@ == "Mutex"@,
    {
        path_of(&self.runtime, "__private", Some("Mutex"))
    }
}

} // verus!
