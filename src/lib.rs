//! A small scripting-language toolchain: a scanner that turns source text into
//! tokens, a single-pass Pratt compiler that emits bytecode, a stack-based
//! virtual machine, and a line-marked block allocator for a future heap.
//!
//! - [`scanner`] and [`token`]: source text to tokens.
//! - [`compiler`]: tokens to bytecode, written into a [`vm::VM`].
//! - [`vm`]: executes bytecode one step at a time.
//! - [`eval`]: arithmetic expressions as trees, and what their compiled code
//!   computes.
//! - [`block`] and [`bump`]: aligned blocks, line marks, bump allocation.
//! - [`emu`]: the scanner of story scripts.
//! - [`error`]: the errors of all of them; [`text`]: character classes.
pub mod block;
pub mod bump;
pub mod compiler;
pub mod emu;
pub mod error;
pub mod eval;
pub mod scanner;
pub mod text;
pub mod token;
pub mod vm;
