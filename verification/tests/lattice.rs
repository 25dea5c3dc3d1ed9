//! The field-capability lattice, exercised transition by transition.

use borrow::capability::{
    acquire_cap, opt_usage_max, usage_le_exec, Bool, Capability, False, True, Usage,
};

#[test]
fn legal_transitions_match_the_table() {
    // Hiding never takes anything away from the rest.
    assert_eq!(
        acquire_cap(Capability::Mut, Capability::Hidden),
        Some((Capability::Hidden, Capability::Mut))
    );
    assert_eq!(
        acquire_cap(Capability::Ref, Capability::Hidden),
        Some((Capability::Hidden, Capability::Ref))
    );
    assert_eq!(
        acquire_cap(Capability::Hidden, Capability::Hidden),
        Some((Capability::Hidden, Capability::Hidden))
    );
    // Handing out exclusive access empties the rest.
    assert_eq!(
        acquire_cap(Capability::Mut, Capability::Mut),
        Some((Capability::Mut, Capability::Hidden))
    );
    // Handing out shared access downgrades the rest to shared as well.
    assert_eq!(
        acquire_cap(Capability::Mut, Capability::Ref),
        Some((Capability::Ref, Capability::Ref))
    );
    // Shared access shares freely.
    assert_eq!(
        acquire_cap(Capability::Ref, Capability::Ref),
        Some((Capability::Ref, Capability::Ref))
    );
}

#[test]
fn illegal_transitions_are_rejected() {
    // Requesting exclusive access over a shared holder.
    assert_eq!(acquire_cap(Capability::Ref, Capability::Mut), None);
    // Requesting anything over a hidden slot.
    assert_eq!(acquire_cap(Capability::Hidden, Capability::Mut), None);
    assert_eq!(acquire_cap(Capability::Hidden, Capability::Ref), None);
}

#[test]
fn hiding_is_idempotent() {
    let (granted, rest) = acquire_cap(Capability::Mut, Capability::Hidden).unwrap();
    assert_eq!(granted, Capability::Hidden);
    assert_eq!(rest, Capability::Mut);
    let (granted2, rest2) = acquire_cap(granted, Capability::Hidden).unwrap();
    assert_eq!(granted2, Capability::Hidden);
    assert_eq!(rest2, Capability::Hidden);
}

#[test]
fn no_mut_after_a_grant() {
    // After granting Ref, the rest is Ref and cannot yield Mut.
    let (_, rest) = acquire_cap(Capability::Mut, Capability::Ref).unwrap();
    assert_eq!(acquire_cap(rest, Capability::Mut), None);
    // After granting Mut, the rest is Hidden and can yield nothing at all.
    let (_, rest) = acquire_cap(Capability::Mut, Capability::Mut).unwrap();
    assert_eq!(acquire_cap(rest, Capability::Mut), None);
    assert_eq!(acquire_cap(rest, Capability::Ref), None);
}

#[test]
fn usage_levels_are_ordered() {
    assert!(usage_le_exec(None, Some(Usage::Ref)));
    assert!(usage_le_exec(Some(Usage::Ref), Some(Usage::Mut)));
    assert!(!usage_le_exec(Some(Usage::Mut), Some(Usage::Ref)));
    assert!(!usage_le_exec(Some(Usage::Ref), None));
    assert_eq!(opt_usage_max(None, Some(Usage::Ref)), Some(Usage::Ref));
    assert_eq!(
        opt_usage_max(Some(Usage::Mut), Some(Usage::Ref)),
        Some(Usage::Mut)
    );
    assert_eq!(opt_usage_max(None, None), None);
}

#[test]
fn type_level_booleans() {
    assert!(True::bool());
    assert!(!False::bool());
}
