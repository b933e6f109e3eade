//! The Jack compiler: Jack classes to VM code.
pub mod tokens;
pub mod tokenizer;
pub mod symbol_table;
pub mod registry;
pub mod vm_model;
pub mod grammar;
pub mod vm_code;
pub mod meaning;
pub mod comp_engine;
