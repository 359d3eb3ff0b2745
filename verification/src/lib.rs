//! A small stack-machine interpreter for a dynamically typed scripting
//! language with C-family syntax and loose equality.
//!
//! A caller hands `bytecode::compile_to_image` a syntax tree (`ast`), gets a
//! flat instruction stream (`bytecode::Image`) back, and executes it with
//! `vm::VM` against a persistent variable environment (`scope::Scope`).
//! The value model and its coercion rules live in `vm` and `operations`;
//! `semantics` states what a tree means and proves that compiling and
//! running realise that meaning exactly.

pub mod ast;
pub mod bytecode;
pub mod numbers;
pub mod operations;
pub mod repl;
pub mod scope;
pub mod semantics;
pub mod temp;
pub mod types;
pub mod vm;
