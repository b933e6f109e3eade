//! The VM translator: stack-machine commands to Hack assembly.
pub mod parser;
pub mod instr;
pub mod machine;
pub mod behaviour;
pub mod codewriter;
pub mod writer_model;
pub mod translator;
pub mod sources;
