//! An SSA intermediate representation for the Fuel virtual machine.
//!
//! Every entity of a program (function, block, value, type, pointer) lives in a
//! pool of the [`context::Context`] and is named by a copyable handle.  Blocks
//! carry formal parameters in place of phi nodes.
//!
//! The instructions and what can be asked of them are in [`instruction`];
//! [`inserter`] appends them to blocks and [`iteration`] walks over them.
//! [`typing`] says what type a value has, [`substitution`] what a replacement
//! map does to an operand, and [`wellformed`] what a well-formed program is.
//! [`arena`] holds what is taken on trust about the pools.
//!
//! Beside the representation, [`new_project`] holds the decisions of the
//! command that sets up a project directory.

pub mod arena;
pub mod assembly;
pub mod block;
pub mod constant;
pub mod context;
pub mod function;
pub mod handle;
pub mod inserter;
pub mod instruction;
pub mod irtype;
pub mod iteration;
pub mod module;
pub mod new_project;
pub mod pointer;
pub mod substitution;
pub mod typing;
pub mod value;
pub mod wellformed;
