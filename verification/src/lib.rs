//! A binding layer between native, strongly-typed objects and a
//! garbage-collected scripting engine: type-tagged object identity,
//! prototype-chain type checking, interface object construction, constant
//! and enum marshalling, and proxy property forwarding, verified against an
//! explicit model of the engine's object store.

#![allow(non_snake_case)]

pub mod engine;
pub mod eventtarget;
pub mod interface;
pub mod proxy;
pub mod tag;
pub mod values;
pub mod wrapper;
pub mod xray;
