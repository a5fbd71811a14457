//! A step-granular evaluator for a small expression language.
//!
//! The machine keeps an explicit stack of frame continuations instead of
//! recursing over the syntax tree, so that every intermediate state can be
//! observed between two steps. Each executable transition is proved to
//! agree with a mathematical model of the machine, given in [`model`].
//!
//! - [`ast`]: the syntax trees that the machine consumes.
//! - [`num`], [`value`]: numbers of any size, and values.
//! - [`vm_types`]: the state of the machine, and its views.
//! - [`persist`]: the persistent collections that hold the state.
//! - [`model`]: the machine as a transition system over views.
//! - [`vm`]: the executable machine, proved against the model.
//! - [`laws`], [`paren`]: what holds of the model.

pub mod ast;
pub mod laws;
pub mod model;
pub mod num;
pub mod paren;
pub mod persist;
pub mod value;
pub mod vm;
pub mod vm_types;
