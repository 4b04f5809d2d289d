//! A small register-machine assembly toolchain: a parser for an
//! assembly-like source dialect, a lowering pass that resolves labels and
//! register storage into a flat instruction stream, an executor for that
//! stream with width-exact arithmetic, a host I/O bridge the executing
//! program writes into, and a renderer for span-annotated parse diagnostics.

pub mod codegen;
pub mod diagnostics;
pub mod io;
pub mod laws;
pub mod machine;
pub mod opcodes;
pub mod parser;
