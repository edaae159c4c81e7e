//! Predikit: a compiler and execution engine for a small declarative
//! check language. Checks ("does this file exist?", "is this port open?")
//! are composed into boolean trees with `all` / `any` / `none` aggregation,
//! negation and retry policies. The compiler resolves check names against a
//! registry, materializes parameter schemas and type-checks actual
//! parameters; the engine evaluates instance trees bottom-up and reports
//! progress through an ordered stream of lifecycle events.
use vstd::prelude::*;

pub mod ast;
pub mod builtin;
pub mod builtin_tools;
pub mod compiler;
pub mod data;
pub mod engine;
pub mod events;
pub mod foreign;
pub mod instance;
pub mod params;
pub mod strmap;
pub mod tokens;
pub mod validators;
pub mod strutil;
pub mod tools;

verus! {

/// Instance identifiers are plain integers; the compiler assigns them
/// monotonically starting at `FIRST_INSTANCE_ID`.
pub type ChkInstId = usize;

/// The first instance id a compiled file assigns. Low ids are reserved as
/// sentinels, so the counter starts well above them.
pub const FIRST_INSTANCE_ID: usize = 1000;

} // verus!
