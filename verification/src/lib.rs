//! Partial borrows: borrowing a subset of a struct's fields — some mutably,
//! some immutably, some not at all — as a value of its own.
//!
//! Each field slot holds a [`capability::Capability`]; narrowing a slot is
//! the `acquire` operation of a small lattice that applies Rust's aliasing
//! rule per field ([`capability`]). A reference-struct applies the lattice
//! to every field of one struct at once ([`refstruct`]), with each slot
//! wrapped in a tracked [`tracking::Field`]. The tracking layer records, per
//! borrowed field, whether the granted access was actually exercised, and
//! turns over-broad borrows into one combined report per narrowing call
//! site ([`report`]), collected by a rate-limited sink ([`warnings`]). The
//! surface syntax of a borrow list and the names and shapes the derive
//! generates from a struct are handled in [`frontend`] and [`derive`];
//! [`hlist`] and [`reflect`] carry the type-level encoding the generated
//! code indexes fields with.

pub mod capability;
pub mod derive;
pub mod frontend;
pub mod hlist;
pub mod reflect;
pub mod refstruct;
pub mod report;
pub mod tracking;
pub mod warnings;
