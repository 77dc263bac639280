//! Generator of Zig source for crossing the WebAssembly component ABI.
//!
//! Given function descriptors, low-level signatures and abstract
//! lowering/lifting instruction sequences, the library emits the text of one
//! Zig module per world: wrappers around externally linked low-level
//! functions (imports) and low-level entry points that call a user-supplied
//! implementation (exports), filed in nested namespace scopes.

pub mod emit;
pub mod ident;
pub mod numeric;
pub mod scopes;
pub mod text;
pub mod types;
pub mod world;
