//! Moving values between the type level and the value level: type-level
//! naturals, booleans and heterogeneous lists that reflect to runtime values,
//! the structural encoding of derived reflections, value-bearing `frunk`
//! lists, scoped reification of runtime values, const-generic dispatch and
//! the generation of dispatch tables for traits, pointer-graph flattening,
//! and async step-graph extraction.

pub mod reflection;

pub mod naturals;
pub mod booleans;
pub mod hlist;
pub mod frunk_bridge;
pub mod schema;
pub mod const_reify;
pub mod attr_args;
pub mod reifiable;
pub mod text;
pub mod async_trace;
pub mod graph;
