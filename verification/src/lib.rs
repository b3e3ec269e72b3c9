//! A code-generation back end for a small statically-typed source language.
//!
//! The library lowers an already-parsed syntax tree ([`ast`]) into a loadable
//! binary class file for a stack-based virtual machine: it manages a
//! deduplicating constant pool, emits per-method stack-machine bytecode with
//! argument/local slot tracking, formats type descriptors, and serializes the
//! exact binary class-file layout, accumulating positional diagnostics
//! instead of aborting on the first semantic error.

pub mod ast;
pub mod bytebuf;
pub mod compiler;
pub mod constant_pool;
pub mod error;
pub mod method;
pub mod strutil;
pub mod structure;
pub mod ty;
