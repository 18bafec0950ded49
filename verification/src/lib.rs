//! A safe binding layer over the YASL scripting runtime.
//!
//! The runtime is reached through a C interface that works on an implicit
//! value stack. This crate holds the part of the binding that is pure logic,
//! and proves it:
//!
//! - `status`: the result codes and type tags of the runtime;
//! - `ident`: the grammar of identifiers;
//! - `names`: the registry that keeps each name at one place;
//! - `globals`: the variables that the host has declared in one interpreter;
//! - `object` and `table`: owned host values;
//! - `stack`: the operations on the stack, and a model of what each does;
//! - `marshal`: the state machine that copies a value out of the stack;
//! - `materialize`: what that machine yields on a stack that keeps to the
//!   model;
//! - `bridge`: batches of foreign functions;
//! - `abi`: host integers as the integers of the C interface.
//!
//! The calls of the C interface themselves are made by the caller of this
//! crate.

pub mod abi;
pub mod bridge;
pub mod globals;
pub mod ident;
pub mod marshal;
pub mod materialize;
pub mod names;
pub mod object;
pub mod stack;
pub mod status;
pub mod table;

pub use bridge::{MetatableFunction, YaslCFn};
pub use globals::{GlobalError, Globals};
pub use ident::{is_valid_identifier, InvalidIdentifier};
pub use marshal::{Materializer, Outcome, Step};
pub use names::{NameHandle, NameRegistry};
pub use object::{HashableF64, HashableObject, Object};
pub use stack::{Reply, StackOp};
pub use status::{state_result, StateError, StateSuccess, Type};
pub use table::Table;
