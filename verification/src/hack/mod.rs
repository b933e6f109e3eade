//! The Hack assembler: symbolic Hack assembly to 16-bit binary words.
pub mod code;
pub mod parser;
pub mod symboltable;
pub mod assembler;
