//! The `static NAME: StaticDetour<fn(..)>` item of each detour, with the
//! trampoline `__ffi_detour` the detour is created from.
use vstd::prelude::*;
use crate::attr::{abi_toks, opt_tok, vis_toks, Abi};
use crate::codegen::chain::{chain_static_with, chain_static_of, ChainStatic};
use crate::collect::{opt_view_of, MacroError};
use crate::model::{CratePaths, Detour};
use crate::signature::{
    arg_name, arg_names, arg_names_with_self, receiver_spans, bare_fn_type, copy_abi, copy_opt_tok, copy_output, has_receiver,
    is_bare_fn_type, opt_view, ret_toks, seqs_view, trampoline_arg, trampoline_args, BareFnType, ReturnType};
use crate::tokens::{affixed, suffix_ident, toks_view, Tok, TokV};

verus! {

/// The static holding a chained detour's wrapper chain: `{detour_name}__chain`.
pub open spec fn chain_static_name(detour_name: TokV) -> TokV {
    affixed(detour_name, Seq::empty(), "__chain"@)
}

/// The type of a chained detour's wrapper chain: `{detour_name}__ChainType`.
pub open spec fn chain_type_name(detour_name: TokV) -> TokV {
    affixed(detour_name, Seq::empty(), "__ChainType"@)
}

/// The trampoline `[unsafe] [extern "abi"] fn __ffi_detour(params) -> ret`.
pub struct Trampoline {
    pub unsafety: Option<Tok>,
    pub abi: Option<Abi>,
    pub params: Vec<Vec<Tok>>,
    pub output: Option<ReturnType>,
}

/// Whether `t` is the trampoline of detour `d`.
pub open spec fn trampoline_of(t: Trampoline, d: Detour) -> bool {
    &&& opt_tok(t.unsafety) == opt_tok(d.attr.unsafety)
    &&& abi_toks(t.abi) == abi_toks(d.attr.abi)
    &&& seqs_view(t.params@) == Seq::new(
        d.fn_sig.inputs@.len(),
        |i: int| trampoline_arg(d.fn_sig.inputs@[i], opt_view_of(d.self_type)),
    )
    &&& ret_toks(t.output) == ret_toks(d.fn_sig.output)
}

/// The trampoline of detour `d`: the hooked function's qualifiers from the
/// attribute, its parameters (lowered when there is a self type) and its
/// return type. A free function (no self type) cannot take `self`.
pub fn ffi_trampoline_decl(d: &Detour) -> (r: Trampoline)
    requires
        d.self_type is None ==> !has_receiver(d.fn_sig.inputs@),
    ensures
        trampoline_of(r, *d),
{
    let st = d.self_type.as_ref();
    assert(opt_view(st) == opt_view_of(d.self_type));
    Trampoline {
        unsafety: copy_opt_tok(&d.attr.unsafety),
        abi: copy_abi(&d.attr.abi),
        params: trampoline_args(&d.fn_sig, st),
        output: copy_output(&d.fn_sig.output),
    }
}

/// What the trampoline forwards its arguments to.
pub enum Forward {
    /// `{detour_name}__chain.call(args)`: the wrapper chain.
    Chain { chain: Tok },
    /// `(detour_name.__detour())(args)`: the hooked function itself.
    Original { detour: Tok },
}

/// `vis static name: StaticDetour<fn_type> = { trampoline; StaticDetour::__new(__ffi_detour) };`
pub struct StaticDetourItem {
    pub vis: Vec<Tok>,
    pub static_detour: Vec<Vec<char>>,
    pub name: Tok,
    pub fn_type: BareFnType,
    pub trampoline: Trampoline,
    pub forward: Forward,
    /// The arguments the trampoline forwards, in order.
    pub args: Vec<Vec<Tok>>,
}

/// Whether `x` is the static of detour `d` with crate paths `paths`.
pub open spec fn static_detour_of(x: StaticDetourItem, d: Detour, paths: CratePaths) -> bool {
    &&& toks_view(x.vis@) == vis_toks(d.attr.visibility)
    &&& x.static_detour@.len() == 2
    &&& x.static_detour@[0]@ == paths.retour@
    &&& x.static_detour@[1]@ == "StaticDetour"@
    &&& x.name@ == d.attr.detour_name@
    &&& is_bare_fn_type(x.fn_type, d.fn_sig, d.attr.unsafety, d.attr.abi, opt_view_of(d.self_type))
    &&& trampoline_of(x.trampoline, d)
    &&& match x.forward {
        Forward::Chain { chain } => d.attr.chain && chain@ == chain_static_name(d.attr.detour_name@),
        Forward::Original { detour } => !d.attr.chain && detour@ == d.attr.detour_name@,
    }
    &&& seqs_view(x.args@) == Seq::new(d.fn_sig.inputs@.len(), |i: int| arg_name(d.fn_sig.inputs@[i]))
}

/// The static of detour `d`. A free function (no self type) cannot take `self`.
pub fn static_detour(d: &Detour, paths: &CratePaths) -> (r: StaticDetourItem)
    requires
        d.self_type is None ==> !has_receiver(d.fn_sig.inputs@),
    ensures
        static_detour_of(r, *d, *paths),
{
    let st = d.self_type.as_ref();
    assert(opt_view(st) == opt_view_of(d.self_type));
    let fn_type = bare_fn_type(&d.fn_sig, &d.attr.unsafety, &d.attr.abi, st);
    let trampoline = ffi_trampoline_decl(d);
    let args = match st {
        Some(_) => arg_names_with_self(&d.fn_sig),
        None => match arg_names(&d.fn_sig) {
            Ok(v) => v,
            Err(_) => {
                assert(false);
                Vec::new()
            },
        },
    };
    let forward = if d.attr.chain {
        Forward::Chain { chain: suffix_ident(&d.attr.detour_name, "__chain") }
    } else {
        Forward::Original { detour: d.attr.detour_name.copy() }
    };
    StaticDetourItem {
        vis: d.attr.visibility.to_tokens(),
        static_detour: paths.static_detour(),
        name: d.attr.detour_name.copy(),
        fn_type,
        trampoline,
        forward,
        args,
    }
}

/// Whether `d` is a free function (no self type) that takes `self`.
pub open spec fn free_with_receiver(d: Detour) -> bool {
    d.self_type is None && has_receiver(d.fn_sig.inputs@)
}

/// The items of one detour: its static, and its wrapper chain when it has one.
pub struct DetourItems {
    pub detour: StaticDetourItem,
    pub chain: Option<ChainStatic>,
}

/// Whether `x` holds the items of detour `d` with crate paths `paths`, a
/// wrapper of its chain taking `next` first or last as `next_first` says.
pub open spec fn detour_items_of(x: DetourItems, d: Detour, paths: CratePaths, next_first: bool) -> bool {
    &&& static_detour_of(x.detour, d, paths)
    &&& (x.chain is Some) == d.attr.chain
    &&& (x.chain matches Some(c) ==> chain_static_of(c, d, paths) && c.next_first == next_first)
}

/// The items of each detour, in order, chain wrappers taking `next` first
/// or last as `next_first` says. Fails at the first free function that
/// takes `self`, with the spans of its receivers.
pub fn detour_items(detours: &Vec<Detour>, paths: &CratePaths, next_first: bool) -> (r: Result<Vec<DetourItems>, MacroError>)
    ensures
        r is Ok <==> (forall|k: int| 0 <= k < detours@.len() ==> !free_with_receiver(#[trigger] detours@[k])),
        r matches Ok(v) ==> v@.len() == detours@.len()
            && forall|k: int| 0 <= k < detours@.len() ==> detour_items_of(#[trigger] v@[k], detours@[k], *paths, next_first),
        r matches Err(e) ==> (e matches MacroError::SelfNotSupported { spans } && spans@.len() > 0
            && exists|k: int| 0 <= k < detours@.len() && #[trigger] free_with_receiver(detours@[k])
                && spans@ == receiver_spans(detours@[k].fn_sig.inputs@)
                && forall|j: int| 0 <= j < k ==> !free_with_receiver(#[trigger] detours@[j])),
{
    let mut out: Vec<DetourItems> = Vec::new();
    let mut i: usize = 0;
    while i < detours.len()
        invariant
            i <= detours@.len(),
            out@.len() == i,
            forall|k: int| 0 <= k < i ==> !free_with_receiver(#[trigger] detours@[k]),
            forall|k: int| 0 <= k < i ==> detour_items_of(#[trigger] out@[k], detours@[k], *paths, next_first),
        decreases detours@.len() - i,
    {
        let d = &detours[i];
        if d.self_type.is_none() {
            match arg_names(&d.fn_sig) {
                Ok(_) => {},
                Err(spans) => {
                    assert(free_with_receiver(detours@[i as int]));
                    return Err(MacroError::SelfNotSupported { spans });
                },
            }
        }
        let detour = static_detour(d, paths);
        let chain = if d.attr.chain {
            Some(chain_static_with(d, paths, next_first))
        } else {
            None
        };
        out.push(DetourItems { detour, chain });
        i = i + 1;
    }
    Ok(out)
}

} // verus!
