//! The execution core of an expression language for transforming events.
//!
//! A program is a stream of bytecode in a [`machine::Vm`]. [`machine::Vm::interpret`]
//! runs it on a stack machine against an event and a store of local
//! variables, with errors that wait in a register until the program handles
//! them. [`semantics`] says what each instruction does, [`replies`] how a run
//! goes on from what its host says. [`kind::Kind`] describes ahead of a run
//! what values may turn up, and [`kind::Kind::find_at_path`] finds the kind
//! that lies at a path inside another.

pub mod access;
pub mod arithmetic;
pub mod config;
pub mod context;
pub mod error;
pub mod find;
pub mod interpret;
pub mod keymap;
pub mod kind;
pub mod machine;
pub mod number;
pub mod output;
pub mod path;
pub mod replies;
pub mod semantics;
pub mod state;
pub mod text;
pub mod value;
pub mod variable;
