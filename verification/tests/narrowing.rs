//! Struct-level narrowing: round trips, hiding, per-field borrows, and the
//! rejected transitions.

use borrow::capability::Capability;
use borrow::refstruct::{
    as_refs_mut, borrow_field, borrow_field_mut, drop_struct, partial_borrow, release_field,
    split,
};
use borrow::tracking::TrackingCtx;
use borrow::warnings::WarningSink;

fn labels() -> Vec<String> {
    vec![
        "nodes".to_string(),
        "edges".to_string(),
        "groups".to_string(),
    ]
}

fn caps_of(s: &borrow::refstruct::RefStruct) -> Vec<Capability> {
    s.fields.iter().map(|f| f.capability).collect()
}

#[test]
fn all_mut_round_trip_keeps_every_slot() {
    // Narrowing a freshly built all-mutable reference-struct to the
    // all-mutable target yields a value equal, slot for slot, to the one
    // built directly.
    let mut ctx = TrackingCtx::new();
    let g = as_refs_mut(&mut ctx, labels(), "main.rs:1".to_string());
    let all_mut = vec![Capability::Mut, Capability::Mut, Capability::Mut];
    let (tgt, rest) = split(&mut ctx, &g, &all_mut, true, "main.rs:2".to_string());
    assert_eq!(caps_of(&tgt), caps_of(&g));
    assert_eq!(caps_of(&rest), vec![Capability::Hidden; 3]);
    for i in 0..3 {
        assert_eq!(tgt.fields[i].label, g.fields[i].label);
    }
}

#[test]
fn hiding_everything_twice_succeeds() {
    let mut ctx = TrackingCtx::new();
    let mut sink = WarningSink::new();
    let g = as_refs_mut(&mut ctx, labels(), "main.rs:1".to_string());
    let hidden = vec![
        Capability::Hidden,
        Capability::Hidden,
        Capability::Hidden,
    ];
    let h1 = partial_borrow(&mut ctx, &g, &hidden, true, "main.rs:2".to_string(), &mut sink);
    assert_eq!(caps_of(&h1), hidden);
    // Hiding the all-hidden result again still succeeds and stays hidden.
    assert!(h1.split_allowed(&hidden));
    let h2 = partial_borrow(&mut ctx, &h1, &hidden, true, "main.rs:3".to_string(), &mut sink);
    assert_eq!(caps_of(&h2), hidden);
    drop_struct(&mut ctx, h2, &mut sink);
    drop_struct(&mut ctx, h1, &mut sink);
    drop_struct(&mut ctx, g, &mut sink);
    assert!(sink.lines.is_empty());
}

#[test]
fn rejected_narrowings_never_pass() {
    let mut ctx = TrackingCtx::new();
    let mut sink = WarningSink::new();
    let g = as_refs_mut(&mut ctx, labels(), "main.rs:1".to_string());
    // Downgrade the first field to shared access.
    let to_ref = vec![Capability::Ref, Capability::Hidden, Capability::Hidden];
    let shared = partial_borrow(&mut ctx, &g, &to_ref, true, "main.rs:2".to_string(), &mut sink);
    // A shared holder cannot hand out exclusive access.
    let want_mut = vec![Capability::Mut, Capability::Hidden, Capability::Hidden];
    assert!(!shared.split_allowed(&want_mut));
    // A hidden slot cannot hand out anything.
    let want_ref_hidden = vec![Capability::Hidden, Capability::Ref, Capability::Hidden];
    assert!(!shared.split_allowed(&want_ref_hidden));
    // The legal narrowings of the same value still pass.
    let to_ref_again = vec![Capability::Ref, Capability::Hidden, Capability::Hidden];
    assert!(shared.split_allowed(&to_ref_again));
}

#[test]
fn borrowing_one_field_mutably_hides_it_from_the_rest() {
    let mut ctx = TrackingCtx::new();
    let mut sink = WarningSink::new();
    let g = as_refs_mut(&mut ctx, labels(), "main.rs:1".to_string());
    let (f, rest) = borrow_field_mut(&mut ctx, &g, 0, true, "main.rs:2".to_string());
    assert_eq!(f.capability, Capability::Mut);
    assert_eq!(f.label, "nodes");
    assert_eq!(
        caps_of(&rest),
        vec![Capability::Hidden, Capability::Mut, Capability::Mut]
    );
    f.use_as_mut(&mut ctx);
    release_field(&mut ctx, f, &mut sink);
    drop_struct(&mut ctx, rest, &mut sink);
    drop_struct(&mut ctx, g, &mut sink);
    assert!(sink.lines.is_empty());
}

#[test]
fn borrowing_one_field_shared_keeps_it_readable_in_the_rest() {
    let mut ctx = TrackingCtx::new();
    let mut sink = WarningSink::new();
    let g = as_refs_mut(&mut ctx, labels(), "main.rs:1".to_string());
    let (f, rest) = borrow_field(&mut ctx, &g, 1, true, "main.rs:2".to_string());
    assert_eq!(f.capability, Capability::Ref);
    assert_eq!(f.label, "edges");
    assert_eq!(
        caps_of(&rest),
        vec![Capability::Mut, Capability::Ref, Capability::Mut]
    );
    f.use_as_ref(&mut ctx);
    release_field(&mut ctx, f, &mut sink);
    drop_struct(&mut ctx, rest, &mut sink);
    drop_struct(&mut ctx, g, &mut sink);
    assert!(sink.lines.is_empty());
}

#[test]
fn partial_borrow_drops_the_rest_silently() {
    let mut ctx = TrackingCtx::new();
    let mut sink = WarningSink::new();
    let g = as_refs_mut(&mut ctx, labels(), "main.rs:1".to_string());
    let targets = vec![Capability::Mut, Capability::Ref, Capability::Hidden];
    let tgt = partial_borrow(&mut ctx, &g, &targets, true, "main.rs:2".to_string(), &mut sink);
    assert_eq!(caps_of(&tgt), targets);
    assert!(sink.lines.is_empty());
    tgt.fields[0].use_as_mut(&mut ctx);
    tgt.fields[1].use_as_ref(&mut ctx);
    drop_struct(&mut ctx, tgt, &mut sink);
    drop_struct(&mut ctx, g, &mut sink);
    assert!(sink.lines.is_empty());
}
