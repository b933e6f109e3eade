//! The nand2tetris software toolchain with its behaviour proved: the Hack
//! assembler (`hack`), the VM translator (`vm`) and the Jack compiler's
//! tokenizer, symbol tables and compilation engine (`jack`).
use vstd::prelude::*;

pub mod text;
pub mod name_map;
pub mod hack;
pub mod vm;
pub mod jack;

verus! {

} // verus!
