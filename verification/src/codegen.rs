//! What the attribute macros generate, as plain-value plans: the names,
//! types and argument lists of every generated item, in the order they are emitted.
pub mod chain;
pub mod detour;
pub mod impl_block;
pub mod init;
pub mod module;
pub mod ptr;
