//! Traits that the derive macros implement for component types.
use vstd::prelude::*;

verus! {

/// A type that can tell whether it has changed since it was last stored.
pub trait Dirty {
    fn dirty() -> bool;
}

/// A component type that has a flatbuffers builder.
pub trait BuilderExt {
    fn hello_macro();
}

/// A component type that has a flatbuffers reader.
pub trait ReaderExt {
    fn hello_macro();
}

} // verus!
