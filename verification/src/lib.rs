//! A verified interpreter core for a stack-based, structured virtual machine
//! following the WebAssembly 1.0 execution model.
//!
//! The crate decodes a binary module (LEB128 integers, type/function/code
//! sections, instruction opcodes) into an in-memory representation and
//! executes instruction sequences over an operand stack with structured
//! control flow (blocks, loops, conditionals and labelled branches).

pub mod error;
pub mod leb128;
pub mod location;
pub mod module;
pub mod primitives;
pub mod sections;
pub mod engine;
pub mod types;

use vstd::prelude::*;

verus! {

} // verus!
