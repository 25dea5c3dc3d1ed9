//! Usage-tracker reports: the exact warning text for over-broad borrows.

use borrow::capability::Capability;
use borrow::refstruct::{as_refs_mut, drop_struct, split};
use borrow::tracking::TrackingCtx;
use borrow::warnings::WarningSink;

fn graph_labels() -> Vec<String> {
    vec![
        "nodes".to_string(),
        "edges".to_string(),
        "groups".to_string(),
    ]
}

#[test]
fn over_broad_borrow_warns_at_both_call_sites() {
    let mut ctx = TrackingCtx::new();
    let mut sink = WarningSink::new();
    let g = as_refs_mut(&mut ctx, graph_labels(), "main.rs:10".to_string());

    // A call site requesting every field mutably.
    let all_mut = vec![Capability::Mut, Capability::Mut, Capability::Mut];
    let (a_tgt, a_rest) = split(&mut ctx, &g, &all_mut, true, "app.rs:20".to_string());

    // An inner call site narrowing to `nodes` mutably, but only reading it.
    let only_nodes = vec![Capability::Mut, Capability::Hidden, Capability::Hidden];
    let (b_tgt, b_rest) = split(&mut ctx, &a_tgt, &only_nodes, true, "app.rs:30".to_string());
    b_tgt.fields[0].use_as_ref(&mut ctx);

    drop_struct(&mut ctx, b_rest, &mut sink);
    drop_struct(&mut ctx, b_tgt, &mut sink);
    drop_struct(&mut ctx, a_tgt, &mut sink);
    drop_struct(&mut ctx, a_rest, &mut sink);
    drop_struct(&mut ctx, g, &mut sink);

    assert_eq!(sink.lines.len(), 2);
    assert_eq!(
        sink.lines[0],
        "Warning [app.rs:30]:\n    Borrowed as mut but used as ref: nodes.\n    To fix the issue, use: &<nodes>."
    );
    assert_eq!(
        sink.lines[1],
        "Warning [app.rs:20]:\n    Borrowed but not used: edges, groups.\n    To fix the issue, use: &<mut nodes>."
    );
}

#[test]
fn fully_used_borrows_warn_nowhere() {
    let mut ctx = TrackingCtx::new();
    let mut sink = WarningSink::new();
    let g = as_refs_mut(&mut ctx, graph_labels(), "main.rs:10".to_string());
    let all_mut = vec![Capability::Mut, Capability::Mut, Capability::Mut];
    let (tgt, rest) = split(&mut ctx, &g, &all_mut, true, "app.rs:20".to_string());
    for f in &tgt.fields {
        f.use_as_mut(&mut ctx);
    }
    drop_struct(&mut ctx, tgt, &mut sink);
    drop_struct(&mut ctx, rest, &mut sink);
    drop_struct(&mut ctx, g, &mut sink);
    assert!(sink.lines.is_empty());
}

#[test]
fn unused_field_names_are_sorted() {
    let mut ctx = TrackingCtx::new();
    let mut sink = WarningSink::new();
    let labels = vec!["zeta".to_string(), "alpha".to_string(), "mid".to_string()];
    let g = as_refs_mut(&mut ctx, labels, "main.rs:1".to_string());
    let all_mut = vec![Capability::Mut, Capability::Mut, Capability::Mut];
    let (tgt, rest) = split(&mut ctx, &g, &all_mut, true, "site.rs:2".to_string());
    // Only the field in the middle is actually exercised.
    tgt.fields[2].use_as_mut(&mut ctx);
    drop_struct(&mut ctx, tgt, &mut sink);
    drop_struct(&mut ctx, rest, &mut sink);
    drop_struct(&mut ctx, g, &mut sink);
    assert_eq!(sink.lines.len(), 1);
    assert_eq!(
        sink.lines[0],
        "Warning [site.rs:2]:\n    Borrowed but not used: alpha, zeta.\n    To fix the issue, use: &<mut mid>."
    );
}

#[test]
fn entirely_idle_borrows_stay_silent() {
    // When no field under a call site was used at all, nothing is reported:
    // the borrow sits in conditional code, and an unused-variable
    // diagnostic already points at it.
    let mut ctx = TrackingCtx::new();
    let mut sink = WarningSink::new();
    let g = as_refs_mut(&mut ctx, graph_labels(), "main.rs:1".to_string());
    let all_mut = vec![Capability::Mut, Capability::Mut, Capability::Mut];
    let (tgt, rest) = split(&mut ctx, &g, &all_mut, true, "site.rs:9".to_string());
    drop_struct(&mut ctx, tgt, &mut sink);
    drop_struct(&mut ctx, rest, &mut sink);
    drop_struct(&mut ctx, g, &mut sink);
    assert!(sink.lines.is_empty());
}

#[test]
fn marking_all_fields_as_used_silences_the_report() {
    let mut ctx = TrackingCtx::new();
    let mut sink = WarningSink::new();
    let g = as_refs_mut(&mut ctx, graph_labels(), "main.rs:1".to_string());
    let all_mut = vec![Capability::Mut, Capability::Mut, Capability::Mut];
    let (tgt, rest) = split(&mut ctx, &g, &all_mut, true, "site.rs:3".to_string());
    tgt.mark_all_fields_as_used(&mut ctx);
    drop_struct(&mut ctx, tgt, &mut sink);
    drop_struct(&mut ctx, rest, &mut sink);
    drop_struct(&mut ctx, g, &mut sink);
    assert!(sink.lines.is_empty());
}

#[test]
fn disabling_field_tracking_silences_the_report() {
    let mut ctx = TrackingCtx::new();
    let mut sink = WarningSink::new();
    let g = as_refs_mut(&mut ctx, graph_labels(), "main.rs:1".to_string());
    let all_mut = vec![Capability::Mut, Capability::Mut, Capability::Mut];
    let (mut tgt, rest) = split(&mut ctx, &g, &all_mut, true, "site.rs:4".to_string());
    tgt.disable_field_usage_tracking();
    drop_struct(&mut ctx, tgt, &mut sink);
    drop_struct(&mut ctx, rest, &mut sink);
    drop_struct(&mut ctx, g, &mut sink);
    assert!(sink.lines.is_empty());
}

#[test]
fn verified_inner_site_scenario_runs_as_proved() {
    let mut ctx = TrackingCtx::new();
    let mut sink = WarningSink::new();
    let t = borrow::refstruct::over_broad_borrow_reports_inner_site(
        &mut ctx,
        &mut sink,
        "nodes".to_string(),
        "main.rs:1".to_string(),
        "outer.rs:2".to_string(),
        "inner.rs:3".to_string(),
    );
    assert_eq!(sink.count, 1);
    assert_eq!(sink.lines.len(), 1);
    assert_eq!(
        sink.lines[0],
        "Warning [inner.rs:3]:\n    Borrowed as mut but used as ref: nodes.\n    To fix the issue, use: &<nodes>."
    );
    assert_eq!(ctx.trackers[t].entries.len(), 1);
    assert_eq!(ctx.trackers[t].entries[0].0, "nodes");
}

#[test]
fn verified_both_sites_scenario_runs_as_proved() {
    let mut ctx = TrackingCtx::new();
    let mut sink = WarningSink::new();
    let (t_inner, t_outer) = borrow::refstruct::over_broad_borrow_reports_both_sites(
        &mut ctx,
        &mut sink,
        "nodes".to_string(),
        "edges".to_string(),
        "main.rs:1".to_string(),
        "outer.rs:2".to_string(),
        "inner.rs:3".to_string(),
    );
    assert_eq!(sink.count, 2);
    assert_eq!(
        sink.lines[0],
        "Warning [inner.rs:3]:\n    Borrowed as mut but used as ref: nodes.\n    To fix the issue, use: &<nodes>."
    );
    assert_eq!(
        sink.lines[1],
        "Warning [outer.rs:2]:\n    Borrowed but not used: edges.\n    To fix the issue, use: &<mut nodes>."
    );
    assert_eq!(ctx.trackers[t_inner].entries.len(), 1);
    assert_eq!(ctx.trackers[t_outer].entries.len(), 2);
}
