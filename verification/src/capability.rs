//! The field-capability lattice.
//!
//! A single struct field, relative to one reference-struct value, is in one of
//! three states: exclusively and mutably borrowed, shared read-only, or
//! hidden (inaccessible through this value). Narrowing a slot from a held
//! capability to a requested one is the `acquire` operation; the lattice
//! decides which transitions are legal and what capability is left for the
//! "rest" of the struct afterwards.

use vstd::prelude::*;

verus! {

/// The access level a reference-struct value holds over one field:
/// exclusive mutable access, shared read-only access, or none (`Hidden`).
#[derive(Clone, Copy, Debug, PartialEq, Eq, Structural)]
pub enum Capability {
    Mut,
    Ref,
    Hidden,
}

/// How a borrowed field may be, or was, exercised: read, or mutated.
#[derive(Clone, Copy, Debug, PartialEq, Eq, Structural)]
pub enum Usage {
    Ref,
    Mut,
}

/// Order on observed usage levels: `None < Some(Ref) < Some(Mut)`.
pub open spec fn usage_le(a: Option<Usage>, b: Option<Usage>) -> bool {
    match (a, b) {
        (Option::None, _) => true,
        (Option::Some(Usage::Ref), Option::Some(_)) => true,
        (Option::Some(Usage::Mut), Option::Some(Usage::Mut)) => true,
        _ => false,
    }
}

/// The larger of two usage levels.
pub open spec fn usage_max(a: Option<Usage>, b: Option<Usage>) -> Option<Usage> {
    if usage_le(a, b) {
        b
    } else {
        a
    }
}

/// Computes the larger of two usage levels.
pub fn opt_usage_max(a: Option<Usage>, b: Option<Usage>) -> (r: Option<Usage>)
    ensures
        r == usage_max(a, b),
{
    match (a, b) {
        (Option::None, _) => b,
        (Option::Some(Usage::Ref), Option::Some(Usage::Mut)) => b,
        (Option::Some(Usage::Ref), Option::Some(Usage::Ref)) => b,
        _ => a,
    }
}

/// Decides the order on usage levels.
pub fn usage_le_exec(a: Option<Usage>, b: Option<Usage>) -> (r: bool)
    ensures
        r == usage_le(a, b),
{
    match (a, b) {
        (Option::None, _) => true,
        (Option::Some(Usage::Ref), Option::Some(_)) => true,
        (Option::Some(Usage::Mut), Option::Some(Usage::Mut)) => true,
        _ => false,
    }
}

/// The usage order is transitive.
pub proof fn lemma_usage_le_trans(a: Option<Usage>, b: Option<Usage>, c: Option<Usage>)
    requires
        usage_le(a, b),
        usage_le(b, c),
    ensures
        usage_le(a, c),
{
}

/// Order on capabilities: `Hidden < Ref < Mut`. Narrowing only ever moves
/// down this order.
pub open spec fn cap_le(a: Capability, b: Capability) -> bool {
    match (a, b) {
        (Capability::Hidden, _) => true,
        (Capability::Ref, Capability::Ref) => true,
        (Capability::Ref, Capability::Mut) => true,
        (Capability::Mut, Capability::Mut) => true,
        _ => false,
    }
}

/// Whether narrowing a slot from `held` to `requested` is legal. Hiding is
/// always legal; an exclusive holder may hand out anything; a shared holder
/// may only hand out further shared access. Everything else (in particular
/// requesting any access to a hidden slot, or `Mut` from a `Ref`) is illegal.
pub open spec fn acquire_allowed(held: Capability, requested: Capability) -> bool {
    match (held, requested) {
        (_, Capability::Hidden) => true,
        (Capability::Mut, _) => true,
        (Capability::Ref, Capability::Ref) => true,
        _ => false,
    }
}

/// The capability left for the rest of the struct after a legal narrowing:
/// hiding takes nothing, granting `Mut` empties the slot, and granting `Ref`
/// downgrades the remainder to read-only sharing.
pub open spec fn rest_after(held: Capability, requested: Capability) -> Capability {
    match requested {
        Capability::Hidden => held,
        Capability::Mut => Capability::Hidden,
        Capability::Ref => Capability::Ref,
    }
}

/// The single-slot narrowing decision: `Some((granted, rest))` for the legal
/// transitions of the lattice, `None` for every other combination. In the
/// type-level rendering of this lattice the `None` cases are the transitions
/// with no implementation, i.e. the ones the trait solver rejects.
pub fn acquire_cap(held: Capability, requested: Capability) -> (r: Option<
    (Capability, Capability),
>)
    ensures
        r is Some <==> acquire_allowed(held, requested),
        r matches Some(p) ==> p.0 == requested && p.1 == rest_after(held, requested),
{
    match (held, requested) {
        (Capability::Mut, Capability::Hidden) => Some((Capability::Hidden, Capability::Mut)),
        (Capability::Ref, Capability::Hidden) => Some((Capability::Hidden, Capability::Ref)),
        (Capability::Hidden, Capability::Hidden) => Some(
            (Capability::Hidden, Capability::Hidden),
        ),
        (Capability::Mut, Capability::Mut) => Some((Capability::Mut, Capability::Hidden)),
        (Capability::Mut, Capability::Ref) => Some((Capability::Ref, Capability::Ref)),
        (Capability::Ref, Capability::Ref) => Some((Capability::Ref, Capability::Ref)),
        _ => None,
    }
}

/// Narrowing never widens: both the granted capability and the remainder are
/// at most the capability that was held.
pub proof fn lemma_narrow_never_widens(held: Capability, requested: Capability)
    requires
        acquire_allowed(held, requested),
    ensures
        cap_le(requested, held),
        cap_le(rest_after(held, requested), held),
{
}

/// Exclusivity: once a narrowing has actually granted access to a field
/// (anything other than `Hidden`), the rest left behind can never grant
/// `Mut` to that field again while the first grant exists; and if the first
/// grant was `Mut`, the rest can grant nothing at all beyond `Hidden`.
pub proof fn lemma_rest_excludes_aliasing(held: Capability, requested: Capability)
    requires
        acquire_allowed(held, requested),
        !(requested is Hidden),
    ensures
        !acquire_allowed(rest_after(held, requested), Capability::Mut),
        requested is Mut ==> forall|again: Capability|
            acquire_allowed(rest_after(held, requested), again) ==> again is Hidden,
{
}

/// A type-level boolean: whether usage-tracking instrumentation is
/// compiled in for the values it tags.
pub trait Bool {
    /// The value this type stands for.
    spec fn spec_bool() -> bool;

    /// Returns the value this type stands for.
    fn bool() -> (b: bool)
        ensures
            b == Self::spec_bool(),
    ;
}

/// The type-level `true`: tracking is compiled in.
pub struct True;

/// The type-level `false`: tracking is compiled out.
pub struct False;

impl Bool for True {
    open spec fn spec_bool() -> bool {
        true
    }

    fn bool() -> (b: bool) {
        true
    }
}

impl Bool for False {
    open spec fn spec_bool() -> bool {
        false
    }

    fn bool() -> (b: bool) {
        false
    }
}

/// Hiding is idempotent: narrowing any capability down to `Hidden` is always
/// legal and leaves the held capability with the rest; narrowing the
/// resulting `Hidden` slot to `Hidden` again succeeds and still yields
/// `Hidden` on both sides.
pub proof fn lemma_hidden_idempotent(held: Capability)
    ensures
        acquire_allowed(held, Capability::Hidden),
        rest_after(held, Capability::Hidden) == held,
        acquire_allowed(Capability::Hidden, Capability::Hidden),
        rest_after(Capability::Hidden, Capability::Hidden) is Hidden,
{
}

} // verus!
