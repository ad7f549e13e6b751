//! Verified core of a small distributed entity/component runtime: entity
//! references, their storage encoding, the router's worker bookkeeping, the
//! worker-side state, the component code generator and the schema dispatch.

pub mod codegen;
pub mod entity;
pub mod macro_traits;
pub mod router;
pub mod reflection;
pub mod schema;
pub mod schema_builder;
pub mod services;
pub mod storage;

pub use crate::entity::{ComponentRef, EntityRef, Id};
