//! A minimal entity–component–system engine: a `World` maps opaque
//! identifiers to per-entity component bundles and yields, for a chosen set
//! of component fields, the entities that hold every requested field, in
//! spawn order.

pub mod component;
pub mod identifier;
pub mod query;
pub mod world;
