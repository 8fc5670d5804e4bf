//! A miniature multi-stage compiler: an intent sequence is validated,
//! lowered to a high-level IR over named variables, lowered again to a
//! low-level IR over virtual registers and basic blocks, and finally
//! emitted as textual backend IR for an outside toolchain.

use vstd::prelude::*;

pub mod codegen_llvm;
pub mod codegen_python;
pub mod ir;
pub mod lowering;
pub mod lowering_hl_to_ll;
pub mod numfmt;
pub mod parser;
pub mod pipeline;
pub mod semantic_analyzer;

verus! {

/// A no-op whose only purpose is to give build systems a symbol to pull
/// in, so that the crate is linked even when nothing else is referenced.
pub fn ensure_linked() {
}

} // verus!
