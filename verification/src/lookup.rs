//! Where a hooked function or pointed-to value lives: a module (or the
//! current executable) together with an offset or an exported symbol.
use vstd::prelude::*;

verus! {

/// Location of a target inside a loaded module.
pub enum LookupData {
    Offset { module: &'static str, offset: usize },
    Symbol { module: &'static str, symbol: &'static str },
    /// Offset relative to the current executable/process base address.
    SelfOffset { offset: usize },
    /// Exported symbol from the current executable/process.
    SelfSymbol { symbol: &'static str },
}

/// What remains to be asked of the loaded module to find the target's address:
/// either the address is already known, or a nul-terminated symbol must be
/// looked up in the module's export table.
pub enum AddressRequest {
    Address(usize),
    Symbol(String),
}

/// Whether `s` holds an interior nul character (which a C string cannot hold).
pub open spec fn has_nul(s: Seq<char>) -> bool {
    exists|i: int| 0 <= i < s.len() && s[i] == '\0'
}

impl LookupData {
    pub fn from_offset(module: &'static str, offset: usize) -> (r: Self)
        ensures
            r == (LookupData::Offset { module, offset }),
    {
        LookupData::Offset { module, offset }
    }

    pub fn from_symbol(module: &'static str, symbol: &'static str) -> (r: Self)
        ensures
            r == (LookupData::Symbol { module, symbol }),
    {
        LookupData::Symbol { module, symbol }
    }

    pub fn from_self_offset(offset: usize) -> (r: Self)
        ensures
            r == (LookupData::SelfOffset { offset }),
    {
        LookupData::SelfOffset { offset }
    }

    pub fn from_self_symbol(symbol: &'static str) -> (r: Self)
        ensures
            r == (LookupData::SelfSymbol { symbol }),
    {
        LookupData::SelfSymbol { symbol }
    }

    /// The module named by this lookup, if any; `None` means the current executable.
    pub open spec fn spec_module(&self) -> Option<Seq<char>> {
        match self {
            LookupData::Offset { module, .. } => Some(module@),
            LookupData::Symbol { module, .. } => Some(module@),
            LookupData::SelfOffset { .. } => None,
            LookupData::SelfSymbol { .. } => None,
        }
    }

    /// The module that must be loaded to resolve this lookup; `None` for the current executable.
    pub fn get_module(&self) -> (r: Option<&'static str>)
        ensures
            match r {
                Some(m) => self.spec_module() == Some(m@),
                None => self.spec_module() is None,
            },
    {
        match self {
            LookupData::Offset { module, .. } => Some(*module),
            LookupData::Symbol { module, .. } => Some(*module),
            LookupData::SelfOffset { .. } => None,
            LookupData::SelfSymbol { .. } => None,
        }
    }

    /// What to ask of the module whose handle address is `base`: an offset
    /// lookup yields `base + offset`, which must fit in `usize`; a symbol
    /// lookup yields the symbol followed by a nul terminator (`None` when the
    /// symbol itself contains a nul character).
    pub fn address_from_handle(&self, base: usize) -> (r: Option<AddressRequest>)
        requires
            match self {
                LookupData::Offset { offset, .. } | LookupData::SelfOffset { offset } => base + *offset <= usize::MAX,
                _ => true,
            },
        ensures
            match self {
                LookupData::Offset { offset, .. } | LookupData::SelfOffset { offset } => {
                    r matches Some(AddressRequest::Address(a)) && a == base + *offset
                },
                LookupData::Symbol { symbol, .. } | LookupData::SelfSymbol { symbol } => {
                    if has_nul(symbol@) {
                        r is None
                    } else {
                        r matches Some(AddressRequest::Symbol(s)) && s@ == symbol@.push('\0')
                    }
                },
            },
    {
        match self {
            LookupData::Offset { offset, .. } | LookupData::SelfOffset { offset } => {
                Some(AddressRequest::Address(base + *offset))
            },
            LookupData::Symbol { symbol, .. } | LookupData::SelfSymbol { symbol } => {
                match nul_terminated(symbol) {
                    Some(s) => Some(AddressRequest::Symbol(s)),
                    None => None,
                }
            },
        }
    }
}

/// `s` followed by a nul terminator, or `None` when `s` already holds a nul.
pub fn nul_terminated(s: &str) -> (r: Option<String>)
    ensures
        has_nul(s@) <==> r is None,
        r matches Some(t) ==> t@ == s@.push('\0'),
{
    let n = s.unicode_len();
    let mut i: usize = 0;
    while i < n
        invariant
            n == s@.len(),
            i <= n,
            forall|j: int| 0 <= j < i ==> s@[j] != '\0',
        decreases n - i,
    {
        if s.get_char(i) == '\0' {
            return None;
        }
        i = i + 1;
    }
    let mut out = String::from_str(s);
    out.append("\0");
    proof {
        reveal_strlit("\0");
    }
    assert(out@ =~= s@.push('\0'));
    Some(out)
}

} // verus!
