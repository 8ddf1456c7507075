//! Build-time compiler for declarative task-type descriptors.
//!
//! The crate reads schema descriptors, compiles their command templates,
//! and emits source code: a data model, a recursive document parser and an
//! executor per task type.  It also carries the runtime pieces that the
//! emitted code relies on: variable interpolation, condition gating, prefix
//! inheritance and the built-in copy task.

pub mod ast;
pub mod command_parser;
pub mod compare;
pub mod copy_task;
pub mod dependency_tracker;
pub mod descriptor;
pub mod element;
pub mod errors;
pub mod generator;
pub mod interpolation;
pub mod module;
pub mod runtime;
pub mod text;
pub mod util;
