//! Generation of middleware-chaining service wrappers.
//!
//! An annotated implementation block, described as plain values
//! ([`syntax`]), is analysed method by method ([`analyze`]) into records
//! ([`rpc`]); their middlewares are gathered into one sorted registry
//! ([`registry`]); each generated method runs its hooks around the real
//! call ([`plan`]); and the wrapper's source text is emitted ([`emit`],
//! [`generate`]).

pub mod analyze;
pub mod canon;
pub mod emit;
pub mod generate;
pub mod plan;
pub mod registry;
pub mod rpc;
pub mod service;
pub mod syntax;
pub mod text;
