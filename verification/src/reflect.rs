//! Field reflection: a struct exposes its field types as a heterogeneous
//! list, which the derive-generated code indexes to name one field's type.

use vstd::prelude::*;

verus! {

/// A struct whose field types are known as a heterogeneous list.
pub trait HasFields {
    type Fields;
}

} // verus!
