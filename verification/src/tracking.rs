//! Per-field usage tracking.
//!
//! Every borrowed field slot is wrapped in a [`Field`] that owns the slot's
//! capability together with its tracking record: the field's name, the usage
//! that was requested when the wrapper was created, a shared cell recording
//! the maximum usage actually observed, and an optional link to the parent
//! slot's cell, so that exercising a narrowed borrow also counts as use of
//! the broader borrow it came from. The shared cells and the per-call-site
//! aggregation records live in a [`TrackingCtx`] and are addressed by index,
//! which plays the role of the reference-counted cells of a runtime
//! implementation.

use vstd::prelude::*;
use crate::capability::{
    Capability, Usage, usage_le, usage_max, opt_usage_max, usage_le_exec, acquire_allowed,
    rest_after,
};

verus! {

/// What one dropped field wrapper reports to its call-site tracker: the
/// usage that was requested for it, and the largest usage actually observed.
#[derive(Clone, Copy, Debug)]
pub struct UsageResult {
    pub requested: Option<Usage>,
    pub needed: Option<Usage>,
}

/// One narrowing call site's aggregation record: where the narrowing
/// happened, and the usage results of all field wrappers created under it.
pub struct UsageTracker {
    /// The call site, as `file:line`.
    pub loc: String,
    /// One entry per dropped field wrapper: the field's name and its result.
    pub entries: Vec<(String, UsageResult)>,
}

impl UsageTracker {
    /// An empty aggregation record for the call site `loc`.
    pub fn new(loc: String) -> (r: UsageTracker)
        ensures
            r.loc == loc,
            r.entries@ =~= Seq::<(String, UsageResult)>::empty(),
    {
        UsageTracker { loc, entries: Vec::new() }
    }
}

/// The arena holding all shared usage cells and all call-site trackers of
/// one tracking session. Field wrappers address both by index.
pub struct TrackingCtx {
    /// Shared "maximum usage observed" cells. A fresh cell holds `None`.
    pub cells: Vec<Option<Usage>>,
    /// Call-site aggregation records, in order of creation.
    pub trackers: Vec<UsageTracker>,
}

/// `newer` keeps every element of `older`, possibly appending more.
pub open spec fn seq_extends<A>(older: Seq<A>, newer: Seq<A>) -> bool {
    &&& older.len() <= newer.len()
    &&& forall|i: int| 0 <= i < older.len() ==> newer[i] == older[i]
}

/// The usage cells after raising cell `at` (if any) to at least `u`.
pub open spec fn bump(cells: Seq<Option<Usage>>, at: Option<usize>, u: Option<Usage>) -> Seq<
    Option<Usage>,
> {
    match at {
        Some(p) => cells.update(p as int, usage_max(cells[p as int], u)),
        None => cells,
    }
}

/// `newer` equals `older` except that tracker `t` gained entry `e`.
pub open spec fn tracker_entry_pushed(
    older: Seq<UsageTracker>,
    newer: Seq<UsageTracker>,
    t: int,
    e: (String, UsageResult),
) -> bool {
    &&& newer.len() == older.len()
    &&& forall|i: int| 0 <= i < older.len() && i != t ==> newer[i] == older[i]
    &&& newer[t].loc == older[t].loc
    &&& newer[t].entries@ =~= older[t].entries@.push(e)
}

impl TrackingCtx {
    /// An empty tracking session.
    pub fn new() -> (r: TrackingCtx)
        ensures
            r.cells@ =~= Seq::<Option<Usage>>::empty(),
            r.trackers@ =~= Seq::<UsageTracker>::empty(),
    {
        TrackingCtx { cells: Vec::new(), trackers: Vec::new() }
    }

    /// Creates the aggregation record for one narrowing call site `loc`.
    pub fn new_tracker(&mut self, loc: String) -> (t: usize)
        ensures
            t == old(self).trackers@.len(),
            final(self).cells@ =~= old(self).cells@,
            final(self).trackers@.len() == old(self).trackers@.len() + 1,
            forall|i: int|
                0 <= i < old(self).trackers@.len() ==> final(self).trackers@[i] == old(
                    self,
                ).trackers@[i],
            final(self).trackers@[t as int].loc == loc,
            final(self).trackers@[t as int].entries@ =~= Seq::<(String, UsageResult)>::empty(),
    {
        let t = self.trackers.len();
        self.trackers.push(UsageTracker::new(loc));
        t
    }

    /// Allocates a fresh usage cell, initially `None` (untouched).
    fn new_cell(&mut self) -> (c: usize)
        ensures
            c == old(self).cells@.len(),
            final(self).cells@ =~= old(self).cells@.push(None),
            final(self).trackers@ =~= old(self).trackers@,
    {
        let c = self.cells.len();
        self.cells.push(None);
        c
    }

    /// Raises usage cell `cell` to at least `usage`.
    pub fn register_usage(&mut self, cell: usize, usage: Option<Usage>)
        requires
            cell < old(self).cells@.len(),
        ensures
            final(self).cells@ =~= bump(old(self).cells@, Some(cell), usage),
            final(self).trackers@ =~= old(self).trackers@,
    {
        let cur = self.cells[cell];
        self.cells.set(cell, opt_usage_max(cur, usage));
    }

    /// Appends one field's usage result to tracker `t`.
    fn set_usage(&mut self, t: usize, label: String, usage: UsageResult)
        requires
            t < old(self).trackers@.len(),
        ensures
            final(self).cells@ =~= old(self).cells@,
            tracker_entry_pushed(
                old(self).trackers@,
                final(self).trackers@,
                t as int,
                (label, usage),
            ),
    {
        self.trackers[t].entries.push((label, usage));
    }
}

/// A tracked field slot: the capability it holds plus its tracking record.
pub struct Field {
    /// The field's name, used in diagnostics.
    pub label: String,
    /// The capability this wrapper holds over the field.
    pub capability: Capability,
    /// The usage level that was requested when this wrapper was created.
    pub requested: Option<Usage>,
    /// Index of the shared cell recording the maximum usage observed.
    pub cell: usize,
    /// Cell of the slot this wrapper was narrowed from, if any.
    pub parent_cell: Option<usize>,
    /// Whether the drop-time report for this one wrapper was silenced.
    pub disabled: bool,
    /// Whether tracking is compiled in for this wrapper at all.
    pub enabled: bool,
    /// The call-site tracker this wrapper reports to, if any.
    pub tracker: Option<usize>,
}

impl Field {
    /// The wrapper's indices all lie inside the tracking session.
    pub open spec fn wf(self, ctx: TrackingCtx) -> bool {
        &&& self.cell < ctx.cells@.len()
        &&& (self.parent_cell matches Some(p) ==> p < ctx.cells@.len())
        &&& (self.tracker matches Some(t) ==> t < ctx.trackers@.len())
    }

    /// A top-level field wrapper, as built by `as_refs_mut`: a fresh cell,
    /// no parent, reporting to tracker `tracker`.
    pub fn new(
        ctx: &mut TrackingCtx,
        label: String,
        requested: Option<Usage>,
        capability: Capability,
        enabled: bool,
        tracker: usize,
    ) -> (r: Field)
        requires
            tracker < old(ctx).trackers@.len(),
        ensures
            final(ctx).cells@ =~= old(ctx).cells@.push(None),
            final(ctx).trackers@ =~= old(ctx).trackers@,
            r.label == label,
            r.capability == capability,
            r.requested == requested,
            r.cell == old(ctx).cells@.len(),
            r.parent_cell is None,
            !r.disabled,
            r.enabled == enabled,
            r.tracker == Some(tracker),
            r.wf(*final(ctx)),
    {
        let cell = ctx.new_cell();
        Field {
            label,
            capability,
            requested,
            cell,
            parent_cell: None,
            disabled: false,
            enabled,
            tracker: Some(tracker),
        }
    }

    /// A narrowed child of this slot holding `capability` and requesting
    /// `requested`: a fresh cell whose parent is this slot's cell, reporting
    /// to tracker `tracker`.
    pub fn new_child(
        &self,
        ctx: &mut TrackingCtx,
        requested: Usage,
        capability: Capability,
        enabled: bool,
        tracker: usize,
    ) -> (r: Field)
        requires
            self.wf(*old(ctx)),
            tracker < old(ctx).trackers@.len(),
        ensures
            final(ctx).cells@ =~= old(ctx).cells@.push(None),
            final(ctx).trackers@ =~= old(ctx).trackers@,
            r.label@ == self.label@,
            r.capability == capability,
            r.requested == Some(requested),
            r.cell == old(ctx).cells@.len(),
            r.parent_cell == Some(self.cell),
            !r.disabled,
            r.enabled == enabled,
            r.tracker == Some(tracker),
            r.wf(*final(ctx)),
    {
        let cell = ctx.new_cell();
        Field {
            label: clone_string(&self.label),
            capability,
            requested: Some(requested),
            cell,
            parent_cell: Some(self.cell),
            disabled: false,
            enabled,
            tracker: Some(tracker),
        }
    }

    /// The "rest" half of a narrowing that kept `capability`: a fresh child
    /// cell, but with reporting silenced, so the untouched remainder of a
    /// struct never warns.
    pub fn new_child_disabled(&self, ctx: &mut TrackingCtx, capability: Capability) -> (r: Field)
        requires
            self.wf(*old(ctx)),
        ensures
            final(ctx).cells@ =~= old(ctx).cells@.push(None),
            final(ctx).trackers@ =~= old(ctx).trackers@,
            r.label@ == self.label@,
            r.capability == capability,
            r.requested == Some(Usage::Mut),
            r.cell == old(ctx).cells@.len(),
            r.parent_cell == Some(self.cell),
            r.disabled,
            r.enabled == self.enabled,
            r.tracker is None,
            r.wf(*final(ctx)),
    {
        let cell = ctx.new_cell();
        Field {
            label: clone_string(&self.label),
            capability,
            requested: Some(Usage::Mut),
            cell,
            parent_cell: Some(self.cell),
            disabled: true,
            enabled: self.enabled,
            tracker: None,
        }
    }

    /// A silenced clone of this wrapper, sharing its usage cell, holding
    /// `capability`. Used when a narrowing consumes a borrowed copy of a
    /// reference-struct, and for the hidden side of a narrowing.
    pub fn clone_disabled(&self, capability: Capability) -> (r: Field)
        ensures
            r.label@ == self.label@,
            r.capability == capability,
            r.requested == self.requested,
            r.cell == self.cell,
            r.parent_cell == self.parent_cell,
            r.disabled,
            r.enabled == self.enabled,
            r.tracker is None,
            forall|c: TrackingCtx| self.wf(c) ==> r.wf(c),
    {
        Field {
            label: clone_string(&self.label),
            capability,
            requested: self.requested,
            cell: self.cell,
            parent_cell: self.parent_cell,
            disabled: true,
            enabled: self.enabled,
            tracker: None,
        }
    }

    /// A silenced clone keeping this wrapper's capability.
    pub fn clone_field_disabled_usage_tracking(&self) -> (r: Field)
        ensures
            r.label@ == self.label@,
            r.capability == self.capability,
            r.requested == self.requested,
            r.cell == self.cell,
            r.parent_cell == self.parent_cell,
            r.disabled,
            r.enabled == self.enabled,
            r.tracker is None,
            forall|c: TrackingCtx| self.wf(c) ==> r.wf(c),
    {
        self.clone_disabled(self.capability)
    }

    /// A silenced clone whose capability is `Hidden`.
    pub fn clone_as_hidden(&self) -> (r: Field)
        ensures
            r.label@ == self.label@,
            r.capability is Hidden,
            r.requested == self.requested,
            r.cell == self.cell,
            r.parent_cell == self.parent_cell,
            r.disabled,
            r.enabled == self.enabled,
            r.tracker is None,
            forall|c: TrackingCtx| self.wf(c) ==> r.wf(c),
    {
        self.clone_disabled(Capability::Hidden)
    }

    /// Permanently silences the drop-time report for this one wrapper.
    pub fn disable_usage_tracking(&mut self)
        ensures
            *final(self) == (Field { disabled: true, ..*old(self) }),
    {
        self.disabled = true;
    }

    /// Records a read of the wrapped field. This is one of the two
    /// instrumentation points: apart from the recorded side channel the
    /// wrapper behaves exactly like the reference it stands for.
    pub fn use_as_ref(&self, ctx: &mut TrackingCtx)
        requires
            self.wf(*old(ctx)),
            !(self.capability is Hidden),
        ensures
            final(ctx).cells@ =~= bump(old(ctx).cells@, Some(self.cell), Some(Usage::Ref)),
            final(ctx).trackers@ =~= old(ctx).trackers@,
    {
        ctx.register_usage(self.cell, Some(Usage::Ref));
    }

    /// Records a mutation of the wrapped field; requires exclusive access.
    pub fn use_as_mut(&self, ctx: &mut TrackingCtx)
        requires
            self.wf(*old(ctx)),
            self.capability is Mut,
        ensures
            final(ctx).cells@ =~= bump(old(ctx).cells@, Some(self.cell), Some(Usage::Mut)),
            final(ctx).trackers@ =~= old(ctx).trackers@,
    {
        ctx.register_usage(self.cell, Some(Usage::Mut));
    }

    /// Force-records full usage without an actual access, to whitelist
    /// intentionally unused borrows.
    pub fn mark_as_used(&self, ctx: &mut TrackingCtx)
        requires
            self.wf(*old(ctx)),
        ensures
            final(ctx).cells@ =~= bump(old(ctx).cells@, Some(self.cell), Some(Usage::Mut)),
            final(ctx).trackers@ =~= old(ctx).trackers@,
    {
        ctx.register_usage(self.cell, Some(Usage::Mut));
    }
}

/// The usage cells after dropping field `f` whose observed usage was
/// `needed`: the observation always propagates to the parent cell, and an
/// under-used active wrapper additionally raises the parent to `Mut`, so
/// that an ancestor borrow is not blamed until its descendants are fixed.
pub open spec fn drop_field_cells(cells: Seq<Option<Usage>>, f: Field) -> Seq<Option<Usage>> {
    let needed = cells[f.cell as int];
    let after_parent = bump(cells, f.parent_cell, needed);
    if !f.disabled && f.enabled && !usage_le(f.requested, needed) {
        bump(after_parent, f.parent_cell, Some(Usage::Mut))
    } else {
        after_parent
    }
}

/// Drops one field wrapper: propagates its observed usage to its parent
/// cell, and, when its report is active, records the requested/observed pair
/// with its call-site tracker.
pub fn drop_field(ctx: &mut TrackingCtx, f: Field)
    requires
        f.wf(*old(ctx)),
    ensures
        final(ctx).cells@ =~= drop_field_cells(old(ctx).cells@, f),
        ({
            if !f.disabled && f.enabled && f.tracker is Some {
                tracker_entry_pushed(
                    old(ctx).trackers@,
                    final(ctx).trackers@,
                    f.tracker->0 as int,
                    (
                        f.label,
                        UsageResult {
                            requested: f.requested,
                            needed: old(ctx).cells@[f.cell as int],
                        },
                    ),
                )
            } else {
                final(ctx).trackers@ =~= old(ctx).trackers@
            }
        }),
{
    let needed = ctx.cells[f.cell];
    if let Some(p) = f.parent_cell {
        ctx.register_usage(p, needed);
    }
    let active = !f.disabled && f.enabled;
    if active {
        if let Some(t) = f.tracker {
            ctx.set_usage(t, f.label, UsageResult { requested: f.requested, needed });
        }
        if !usage_le_exec(f.requested, needed) {
            if let Some(p) = f.parent_cell {
                ctx.register_usage(p, Some(Usage::Mut));
            }
        }
    }
}

/// Clones a string, keeping its characters.
fn clone_string(s: &String) -> (r: String)
    ensures
        r@ == s@,
{
    s.clone()
}

/// Narrows one field slot from the capability held by `this` to `requested`,
/// returning the granted wrapper and the "rest" wrapper, or `None` when the
/// lattice forbids the transition. The granted side of a real narrowing
/// records the newly requested usage level under call-site tracker
/// `tracker`; the rest side, and the hidden side of a hiding step, are
/// always silenced.
pub fn acquire(
    ctx: &mut TrackingCtx,
    this: Field,
    requested: Capability,
    enabled: bool,
    tracker: usize,
) -> (r: Option<(Field, Field)>)
    requires
        this.wf(*old(ctx)),
        tracker < old(ctx).trackers@.len(),
    ensures
        r is Some <==> acquire_allowed(this.capability, requested),
        final(ctx).trackers@ =~= old(ctx).trackers@,
        seq_extends(old(ctx).cells@, final(ctx).cells@),
        r is None ==> final(ctx).cells@ =~= old(ctx).cells@,
        r matches Some(p) ==> {
            &&& p.0.capability == requested
            &&& p.1.capability == rest_after(this.capability, requested)
            &&& p.0.label@ == this.label@
            &&& p.1.label@ == this.label@
            &&& p.1.disabled
            &&& p.1.tracker is None
            &&& p.0.wf(*final(ctx))
            &&& p.1.wf(*final(ctx))
            &&& (requested is Hidden ==> {
                &&& p.0.cell == this.cell
                &&& p.0.parent_cell == this.parent_cell
                &&& p.0.disabled
                &&& p.0.tracker is None
                &&& p.1.cell == old(ctx).cells@.len()
                &&& p.1.parent_cell == Some(this.cell)
                &&& final(ctx).cells@ =~= old(ctx).cells@.push(None)
            })
            &&& (!(requested is Hidden) ==> {
                &&& !p.0.disabled
                &&& p.0.enabled == enabled
                &&& p.0.tracker == Some(tracker)
                &&& p.0.cell == old(ctx).cells@.len()
                &&& p.0.parent_cell == Some(this.cell)
                &&& p.0.requested == Some(
                    if requested is Mut {
                        Usage::Mut
                    } else {
                        Usage::Ref
                    },
                )
            })
            &&& (requested is Mut ==> {
                &&& p.1.cell == this.cell
                &&& p.1.parent_cell == this.parent_cell
                &&& final(ctx).cells@ =~= old(ctx).cells@.push(None)
            })
            &&& (requested is Ref ==> {
                &&& p.1.cell == old(ctx).cells@.len() + 1
                &&& p.1.parent_cell == Some(this.cell)
                &&& final(ctx).cells@ =~= old(ctx).cells@.push(None).push(None)
            })
        },
{
    match (this.capability, requested) {
        (_, Capability::Hidden) => {
            let target = this.clone_as_hidden();
            let rest = this.new_child_disabled(ctx, this.capability);
            Some((target, rest))
        },
        (Capability::Mut, Capability::Mut) => {
            let rest = this.clone_as_hidden();
            let target = this.new_child(ctx, Usage::Mut, Capability::Mut, enabled, tracker);
            Some((target, rest))
        },
        (Capability::Mut, Capability::Ref) => {
            let target = this.new_child(ctx, Usage::Ref, Capability::Ref, enabled, tracker);
            let rest = this.new_child_disabled(ctx, Capability::Ref);
            Some((target, rest))
        },
        (Capability::Ref, Capability::Ref) => {
            let target = this.new_child(ctx, Usage::Ref, Capability::Ref, enabled, tracker);
            let rest = this.new_child_disabled(ctx, Capability::Ref);
            Some((target, rest))
        },
        _ => None,
    }
}

/// Raising a cell never lowers any cell.
pub proof fn lemma_bump_raise(cells: Seq<Option<Usage>>, at: Option<usize>, u: Option<Usage>)
    requires
        at matches Some(p) ==> p < cells.len(),
    ensures
        forall|c: int|
            0 <= c < cells.len() ==> usage_le(#[trigger] cells[c], bump(cells, at, u)[c]),
{
}

/// Dropping one slot never lowers any usage cell.
pub proof fn lemma_drop_field_cells_raise(cells: Seq<Option<Usage>>, f: Field)
    requires
        f.cell < cells.len(),
        f.parent_cell matches Some(p) ==> p < cells.len(),
    ensures
        forall|c: int|
            0 <= c < cells.len() ==> usage_le(#[trigger] cells[c], drop_field_cells(cells, f)[c]),
{
    let needed = cells[f.cell as int];
    let after_parent = bump(cells, f.parent_cell, needed);
    lemma_bump_raise(cells, f.parent_cell, needed);
    assert(after_parent.len() == cells.len());
    lemma_bump_raise(after_parent, f.parent_cell, Some(Usage::Mut));
    assert forall|c: int| 0 <= c < cells.len() implies usage_le(
        cells[c],
        drop_field_cells(cells, f)[c],
    ) by {
        crate::capability::lemma_usage_le_trans(
            cells[c],
            after_parent[c],
            bump(after_parent, f.parent_cell, Some(Usage::Mut))[c],
        );
    }
}

} // verus!
