//! Structural hashing of a decoded blockchain runtime schema.
//!
//! A schema is a registry of type definitions plus a list of modules
//! ("pallets"), an extrinsic (outer transaction envelope) description and a
//! root call type.  The library reduces such a schema to a 32-byte digest that
//! is stable under irrelevant declaration-order differences (module order,
//! variant order) while remaining sensitive to every structural difference
//! (field order, names, encoded default values).

pub mod schema;
pub mod encode;
pub mod order;
pub mod hasher;
pub mod compose;
pub mod laws;
