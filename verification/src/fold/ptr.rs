//! What the fold writes for each pointer constant.
use vstd::prelude::*;
use crate::codegen::init::{init_of_ptr_at, ptr_init_at, InitItem};
use crate::codegen::module::ModulePtrItems;
use crate::codegen::ptr::{accessor_type_of, accessor_type_with, module_static, module_static_of};
use crate::model::{CratePaths, Ptr};
use crate::tokens::Tok;

verus! {

impl Ptr {
    /// The accessor type (its `addr` field private) and the static under the
    /// constant's own name.
    pub fn get_accessor_item(&self) -> (r: ModulePtrItems)
        ensures
            accessor_type_of(r.accessor, *self),
            !r.accessor.addr_public,
            module_static_of(r.static_item, *self),
    {
        ModulePtrItems { accessor: accessor_type_with(self, false), static_item: module_static(self) }
    }

    /// The initialisation storing the resolved address into the static under
    /// the constant's own name, for module literal `module_name`.
    pub fn generate_ptr_init(&self, module_name: Option<&Tok>, paths: &CratePaths) -> (r: InitItem)
        ensures
            init_of_ptr_at(r, *self, match module_name { Some(t) => Some(*t), None => None }, false, *paths),
    {
        ptr_init_at(self, module_name, false, paths)
    }
}

} // verus!
