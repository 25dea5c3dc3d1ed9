//! Reference-structs: the struct-level application of the capability
//! lattice.
//!
//! A reference-struct stands for one partial borrow of a user struct: one
//! tracked [`Field`] slot per field, plus the call-site tracker that will
//! report over-broad borrows when the value is dropped. Narrowing applies
//! the lattice to every slot at once and yields the requested
//! reference-struct together with the "rest" that keeps whatever was not
//! granted.

use vstd::prelude::*;
use vstd::pervasive::unreached;
use crate::capability::{Capability, Usage, usage_le, usage_max, acquire_allowed, rest_after};
use crate::tracking::{
    TrackingCtx, Field, UsageTracker, UsageResult, acquire, drop_field, seq_extends, bump,
    drop_field_cells,
};
use crate::report::views_of;
use crate::warnings::{WarningSink, warned};

verus! {

/// One partial borrow of a struct: a tracked slot per field, and the
/// call-site tracker its slots report to.
pub struct RefStruct {
    /// The field slots, in field declaration order.
    pub fields: Vec<Field>,
    /// The call-site tracker of the narrowing that produced this value.
    pub tracker: usize,
}

/// Every slot transition from `caps` to `targets` is legal.
pub open spec fn acquire_all_allowed(caps: Seq<Capability>, targets: Seq<Capability>) -> bool {
    forall|i: int| 0 <= i < targets.len() ==> acquire_allowed(caps[i], targets[i])
}

/// The per-slot capabilities left with the rest after narrowing `caps` to
/// `targets`.
pub open spec fn rest_caps(caps: Seq<Capability>, targets: Seq<Capability>) -> Seq<Capability> {
    Seq::new(targets.len(), |i: int| rest_after(caps[i], targets[i]))
}

impl RefStruct {
    /// The slots' indices lie inside the session, and every slot reports to
    /// this value's own tracker, if it reports at all.
    pub open spec fn wf(self, ctx: TrackingCtx) -> bool {
        &&& self.tracker < ctx.trackers@.len()
        &&& forall|i: int| 0 <= i < self.fields@.len() ==> self.fields@[i].wf(ctx)
        &&& forall|i: int|
            0 <= i < self.fields@.len() ==> (self.fields@[i].tracker is None
                || self.fields@[i].tracker == Some(self.tracker))
    }

    /// The capability each slot holds, in field order.
    pub open spec fn caps(self) -> Seq<Capability> {
        self.fields@.map_values(|f: Field| f.capability)
    }

    /// The field names, in field order.
    pub open spec fn labels(self) -> Seq<Seq<char>> {
        self.fields@.map_values(|f: Field| f.label@)
    }

    /// Decides whether narrowing this value to `targets` is legal for every
    /// slot. The illegal combinations are exactly the ones the type-level
    /// rendering of the lattice rejects at compile time.
    pub fn split_allowed(&self, targets: &Vec<Capability>) -> (r: bool)
        requires
            targets@.len() == self.fields@.len(),
        ensures
            r == acquire_all_allowed(self.caps(), targets@),
    {
        let n = self.fields.len();
        let mut i: usize = 0;
        while i < n
            invariant
                i <= n,
                n == self.fields@.len(),
                targets@.len() == n,
                forall|j: int| 0 <= j < i ==> acquire_allowed(self.caps()[j], targets@[j]),
            decreases n - i,
        {
            let legal = match (self.fields[i].capability, targets[i]) {
                (_, Capability::Hidden) => true,
                (Capability::Mut, _) => true,
                (Capability::Ref, Capability::Ref) => true,
                _ => false,
            };
            if !legal {
                return false;
            }
            i = i + 1;
        }
        true
    }

    /// Silences the drop-time report of every slot of this value.
    pub fn disable_field_usage_tracking(&mut self)
        ensures
            final(self).tracker == old(self).tracker,
            final(self).fields@.len() == old(self).fields@.len(),
            forall|i: int|
                0 <= i < old(self).fields@.len() ==> final(self).fields@[i] == (Field {
                    disabled: true,
                    ..old(self).fields@[i]
                }),
    {
        let n = self.fields.len();
        let mut i: usize = 0;
        while i < n
            invariant
                i <= n,
                n == self.fields@.len(),
                self.tracker == old(self).tracker,
                self.fields@.len() == old(self).fields@.len(),
                forall|j: int|
                    0 <= j < i ==> self.fields@[j] == (Field {
                        disabled: true,
                        ..old(self).fields@[j]
                    }),
                forall|j: int| i <= j < n ==> self.fields@[j] == old(self).fields@[j],
            decreases n - i,
        {
            self.fields[i].disable_usage_tracking();
            i = i + 1;
        }
    }

    /// Force-records full usage of every slot, to whitelist intentionally
    /// unused borrows, for example behind a trait interface.
    pub fn mark_all_fields_as_used(&self, ctx: &mut TrackingCtx)
        requires
            self.wf(*old(ctx)),
        ensures
            final(ctx).cells@ =~= bump_all_mut(old(ctx).cells@, self.fields@),
            final(ctx).cells@.len() == old(ctx).cells@.len(),
            final(ctx).trackers@ =~= old(ctx).trackers@,
    {
        let n = self.fields.len();
        let mut i: usize = 0;
        proof {
            assert(bump_all_mut(old(ctx).cells@, self.fields@.take(0)) =~= old(ctx).cells@);
        }
        while i < n
            invariant
                i <= n,
                n == self.fields@.len(),
                self.wf(*old(ctx)),
                ctx.cells@ =~= bump_all_mut(old(ctx).cells@, self.fields@.take(i as int)),
                ctx.cells@.len() == old(ctx).cells@.len(),
                ctx.trackers@ =~= old(ctx).trackers@,
            decreases n - i,
        {
            let ghost pre = self.fields@.take(i as int);
            ctx.register_usage(self.fields[i].cell, Some(Usage::Mut));
            proof {
                assert(self.fields@.take(i + 1).drop_last() =~= pre);
                assert(self.fields@.take(i + 1).last() == self.fields@[i as int]);
            }
            i = i + 1;
        }
        proof {
            assert(self.fields@.take(n as int) =~= self.fields@);
        }
    }
}

impl RefStruct {
    /// A transient copy of this value: every slot keeps its capability and
    /// shares its usage cell with the original, but has its own report
    /// silenced, and the copy reports to a fresh call-site tracker.
    /// Narrowing consumes such a copy while the borrowed original stays
    /// usable; usage of the narrowed result still reaches the original
    /// slots through the shared cells.
    pub fn clone_ref_disabled_usage_tracking(&self, ctx: &mut TrackingCtx, loc: String) -> (r:
        RefStruct)
        requires
            self.wf(*old(ctx)),
        ensures
            r.wf(*final(ctx)),
            r.fields@.len() == self.fields@.len(),
            r.caps() =~= self.caps(),
            r.labels() =~= self.labels(),
            forall|i: int|
                0 <= i < self.fields@.len() ==> (#[trigger] r.fields@[i]).disabled
                    && r.fields@[i].tracker is None,
            forall|i: int|
                0 <= i < self.fields@.len() ==> (#[trigger] r.fields@[i]).cell
                    == self.fields@[i].cell && r.fields@[i].parent_cell
                    == self.fields@[i].parent_cell,
            r.tracker == old(ctx).trackers@.len(),
            final(ctx).cells@ =~= old(ctx).cells@,
            final(ctx).trackers@.len() == old(ctx).trackers@.len() + 1,
            forall|i: int|
                0 <= i < old(ctx).trackers@.len() ==> final(ctx).trackers@[i] == old(
                    ctx,
                ).trackers@[i],
            final(ctx).trackers@[r.tracker as int].loc == loc,
            final(ctx).trackers@[r.tracker as int].entries@ =~= Seq::<(
                String,
                UsageResult,
            )>::empty(),
    {
        let t0 = ctx.new_tracker(loc);
        let ghost ctxa = *ctx;
        let mut cfields: Vec<Field> = Vec::new();
        let n = self.fields.len();
        let mut i: usize = 0;
        while i < n
            invariant
                i <= n,
                n == self.fields@.len(),
                self.wf(ctxa),
                t0 < ctxa.trackers@.len(),
                *ctx == ctxa,
                cfields@.len() == i,
                forall|j: int| 0 <= j < i ==> (#[trigger] cfields@[j]).wf(ctxa),
                forall|j: int|
                    0 <= j < i ==> (#[trigger] cfields@[j]).capability
                        == self.fields@[j].capability,
                forall|j: int|
                    0 <= j < i ==> (#[trigger] cfields@[j]).label@ == self.fields@[j].label@,
                forall|j: int| 0 <= j < i ==> (#[trigger] cfields@[j]).disabled,
                forall|j: int| 0 <= j < i ==> (#[trigger] cfields@[j]).tracker is None,
                forall|j: int|
                    0 <= j < i ==> (#[trigger] cfields@[j]).cell == self.fields@[j].cell
                        && cfields@[j].parent_cell == self.fields@[j].parent_cell,
            decreases n - i,
        {
            let c = self.fields[i].clone_field_disabled_usage_tracking();
            cfields.push(c);
            i = i + 1;
        }
        let r = RefStruct { fields: cfields, tracker: t0 };
        proof {
            assert(r.caps() =~= self.caps());
            assert(r.labels() =~= self.labels());
            assert(r.wf(*ctx));
        }
        r
    }
}

/// The usage cells after force-marking every given slot as fully used.
pub open spec fn bump_all_mut(cells: Seq<Option<Usage>>, fields: Seq<Field>) -> Seq<Option<Usage>>
    decreases fields.len(),
{
    if fields.len() == 0 {
        cells
    } else {
        bump(
            bump_all_mut(cells, fields.drop_last()),
            Some(fields.last().cell),
            Some(Usage::Mut),
        )
    }
}

/// Builds the all-mutable reference-struct over the named fields: every slot
/// holds `Mut`, requested usage `Mut`, with a fresh call-site tracker at
/// `loc`. The freshly built value's own reports are silenced immediately, so
/// the top-level borrow itself never warns; only its later narrowings do.
pub fn as_refs_mut(ctx: &mut TrackingCtx, labels: Vec<String>, loc: String) -> (r: RefStruct)
    ensures
        r.wf(*final(ctx)),
        r.fields@.len() == labels@.len(),
        r.labels() =~= views_of(labels@),
        forall|i: int| 0 <= i < labels@.len() ==> r.caps()[i] is Mut,
        forall|i: int|
            0 <= i < labels@.len() ==> {
                let f = #[trigger] r.fields@[i];
                &&& f.requested == Some(Usage::Mut)
                &&& f.disabled
                &&& f.enabled
                &&& f.parent_cell is None
                &&& f.tracker == Some(r.tracker)
            },
        r.tracker == old(ctx).trackers@.len(),
        seq_extends(old(ctx).cells@, final(ctx).cells@),
        final(ctx).trackers@.len() == old(ctx).trackers@.len() + 1,
        forall|i: int|
            0 <= i < old(ctx).trackers@.len() ==> final(ctx).trackers@[i] == old(ctx).trackers@[i],
        final(ctx).trackers@[r.tracker as int].loc == loc,
        final(ctx).trackers@[r.tracker as int].entries@ =~= Seq::<(String, UsageResult)>::empty(),
{
    let t = ctx.new_tracker(loc);
    let ghost ctx1 = *ctx;
    let mut fields: Vec<Field> = Vec::new();
    let n = labels.len();
    let mut i: usize = 0;
    while i < n
        invariant
            i <= n,
            n == labels@.len(),
            t < ctx.trackers@.len(),
            ctx.trackers@ =~= ctx1.trackers@,
            seq_extends(ctx1.cells@, ctx.cells@),
            fields@.len() == i,
            forall|j: int| 0 <= j < i ==> fields@[j].wf(*ctx),
            forall|j: int|
                0 <= j < i ==> {
                    let f = #[trigger] fields@[j];
                    &&& f.capability is Mut
                    &&& f.requested == Some(Usage::Mut)
                    &&& !f.disabled
                    &&& f.enabled
                    &&& f.parent_cell is None
                    &&& f.tracker == Some(t)
                    &&& f.label@ == labels@[j]@
                },
        decreases n - i,
    {
        let lab = clone_string_pub(&labels[i]);
        let f = Field::new(ctx, lab, Some(Usage::Mut), Capability::Mut, true, t);
        fields.push(f);
        i = i + 1;
    }
    let mut r = RefStruct { fields, tracker: t };
    r.disable_field_usage_tracking();
    proof {
        assert(r.labels() =~= views_of(labels@));
        assert(forall|i: int| 0 <= i < labels@.len() ==> r.caps()[i] is Mut);
    }
    r
}

/// Clones a string, keeping its characters.
pub fn clone_string_pub(s: &String) -> (r: String)
    ensures
        r@ == s@,
{
    s.clone()
}

/// What narrowing promises: the target holds exactly the requested
/// capabilities, the rest holds what the lattice leaves over, both keep the
/// field names, the rest never warns, and the target's slots report the
/// newly requested usage to the target's own fresh call-site tracker.
pub open spec fn split_post(
    src: Seq<Field>,
    targets: Seq<Capability>,
    enabled: bool,
    loc: Seq<char>,
    ctx0: TrackingCtx,
    ctx1: TrackingCtx,
    tgt: RefStruct,
    rest: RefStruct,
) -> bool {
    let caps0 = src.map_values(|f: Field| f.capability);
    let labels0 = src.map_values(|f: Field| f.label@);
    &&& tgt.wf(ctx1)
    &&& rest.wf(ctx1)
    &&& tgt.fields@.len() == targets.len()
    &&& rest.fields@.len() == targets.len()
    &&& tgt.caps() =~= targets
    &&& rest.caps() =~= rest_caps(caps0, targets)
    &&& tgt.labels() =~= labels0
    &&& rest.labels() =~= labels0
    &&& forall|i: int| 0 <= i < targets.len() ==> (#[trigger] rest.fields@[i]).disabled
    &&& forall|i: int|
        0 <= i < targets.len() && targets[i] is Hidden ==> (#[trigger] tgt.fields@[i]).disabled
    &&& forall|i: int|
        0 <= i < targets.len() && !(targets[i] is Hidden) ==> {
            let f = #[trigger] tgt.fields@[i];
            &&& !f.disabled
            &&& f.enabled == enabled
            &&& f.tracker == Some(tgt.tracker)
            &&& f.requested == Some(
                if targets[i] is Mut {
                    Usage::Mut
                } else {
                    Usage::Ref
                },
            )
        }
    &&& forall|i: int|
        0 <= i < targets.len() && !(targets[i] is Hidden) ==> {
            let f = #[trigger] tgt.fields@[i];
            &&& f.parent_cell == Some(src[i].cell)
            &&& ctx0.cells@.len() <= f.cell
        }
    &&& forall|i: int|
        0 <= i < targets.len() && targets[i] is Hidden ==> {
            let f = #[trigger] tgt.fields@[i];
            &&& f.cell == src[i].cell
            &&& f.parent_cell == src[i].parent_cell
        }
    &&& forall|i: int|
        0 <= i < targets.len() ==> {
            let f = #[trigger] rest.fields@[i];
            if targets[i] is Mut {
                f.cell == src[i].cell && f.parent_cell == src[i].parent_cell
            } else {
                f.parent_cell == Some(src[i].cell) && ctx0.cells@.len() <= f.cell
            }
        }
    &&& forall|c: int|
        ctx0.cells@.len() <= c < ctx1.cells@.len() ==> (#[trigger] ctx1.cells@[c]) is None
    &&& forall|i: int, j: int|
        0 <= i < targets.len() && 0 <= j < targets.len() && i != j && !(targets[i] is Hidden)
            && !(targets[j] is Hidden) ==> (#[trigger] tgt.fields@[i]).cell != (
        #[trigger] tgt.fields@[j]).cell
    &&& forall|i: int, j: int|
        0 <= i < targets.len() && 0 <= j < targets.len() && i != j && !(targets[i] is Mut) && !(
        targets[j] is Mut) ==> (#[trigger] rest.fields@[i]).cell != (
        #[trigger] rest.fields@[j]).cell
    &&& forall|i: int, j: int|
        0 <= i < targets.len() && 0 <= j < targets.len() && !(targets[i] is Hidden) && !(
        targets[j] is Mut) ==> (#[trigger] tgt.fields@[i]).cell != (
        #[trigger] rest.fields@[j]).cell
    &&& seq_extends(ctx0.trackers@, ctx1.trackers@)
    &&& seq_extends(ctx0.cells@, ctx1.cells@)
    &&& tgt.tracker < ctx1.trackers@.len()
    &&& rest.tracker < ctx1.trackers@.len()
    &&& ctx0.trackers@.len() <= tgt.tracker
    &&& ctx0.trackers@.len() <= rest.tracker
    &&& tgt.tracker != rest.tracker
    &&& ctx1.trackers@[tgt.tracker as int].loc@ == loc
    &&& ctx1.trackers@[tgt.tracker as int].entries@ =~= Seq::<(String, UsageResult)>::empty()
    &&& ctx1.trackers@[rest.tracker as int].loc@ == loc
    &&& ctx1.trackers@[rest.tracker as int].entries@ =~= Seq::<(String, UsageResult)>::empty()
}

/// Narrows a reference-struct it consumes into the requested target and the
/// rest, applying the lattice slot by slot. The target's slots report to a
/// fresh call-site tracker at `loc`; the rest gets a fresh tracker of its
/// own and never warns.
pub fn into_split(
    ctx: &mut TrackingCtx,
    s: RefStruct,
    targets: &Vec<Capability>,
    enabled: bool,
    loc: String,
) -> (r: (RefStruct, RefStruct))
    requires
        s.wf(*old(ctx)),
        targets@.len() == s.fields@.len(),
        acquire_all_allowed(s.caps(), targets@),
    ensures
        split_post(s.fields@, targets@, enabled, loc@, *old(ctx), *final(ctx), r.0, r.1),
{
    let ghost caps0 = s.caps();
    let ghost labels0 = s.labels();
    let ghost fields0 = s.fields@;
    let loc2 = clone_string_pub(&loc);
    let t1 = ctx.new_tracker(loc);
    let t2 = ctx.new_tracker(loc2);
    let ghost ctx1 = *ctx;
    let mut s = s;
    let mut tfields: Vec<Field> = Vec::new();
    let mut rfields: Vec<Field> = Vec::new();
    let n = s.fields.len();
    let mut i: usize = 0;
    while i < n
        invariant
            i <= n,
            n == fields0.len(),
            targets@.len() == n,
            s.fields@ =~= fields0.skip(i as int),
            forall|j: int| 0 <= j < n ==> (#[trigger] fields0[j]).wf(ctx1),
            forall|j: int| 0 <= j < n ==> caps0[j] == (#[trigger] fields0[j]).capability,
            forall|j: int| 0 <= j < n ==> labels0[j] == (#[trigger] fields0[j]).label@,
            acquire_all_allowed(caps0, targets@),
            t1 < ctx.trackers@.len(),
            t2 < ctx.trackers@.len(),
            t1 == ctx1.trackers@.len() - 2,
            t2 == ctx1.trackers@.len() - 1,
            ctx.trackers@ =~= ctx1.trackers@,
            seq_extends(ctx1.cells@, ctx.cells@),
            tfields@.len() == i,
            rfields@.len() == i,
            forall|j: int| 0 <= j < i ==> (#[trigger] tfields@[j]).wf(*ctx),
            forall|j: int| 0 <= j < i ==> (#[trigger] rfields@[j]).wf(*ctx),
            forall|j: int| 0 <= j < i ==> (#[trigger] tfields@[j]).capability == targets@[j],
            forall|j: int|
                0 <= j < i ==> (#[trigger] rfields@[j]).capability == rest_after(
                    caps0[j],
                    targets@[j],
                ),
            forall|j: int| 0 <= j < i ==> (#[trigger] tfields@[j]).label@ == labels0[j],
            forall|j: int| 0 <= j < i ==> (#[trigger] rfields@[j]).label@ == labels0[j],
            forall|j: int| 0 <= j < i ==> (#[trigger] rfields@[j]).disabled,
            forall|j: int| 0 <= j < i ==> (#[trigger] rfields@[j]).tracker is None,
            forall|j: int|
                0 <= j < i && targets@[j] is Hidden ==> (#[trigger] tfields@[j]).disabled
                    && tfields@[j].tracker is None,
            forall|j: int|
                0 <= j < i && !(targets@[j] is Hidden) ==> {
                    let f = #[trigger] tfields@[j];
                    &&& !f.disabled
                    &&& f.enabled == enabled
                    &&& f.tracker == Some(t1)
                    &&& f.requested == Some(
                        if targets@[j] is Mut {
                            Usage::Mut
                        } else {
                            Usage::Ref
                        },
                    )
                },
            forall|j: int|
                0 <= j < i && !(targets@[j] is Hidden) ==> {
                    let f = #[trigger] tfields@[j];
                    &&& f.parent_cell == Some(fields0[j].cell)
                    &&& ctx1.cells@.len() <= f.cell
                },
            forall|j: int|
                0 <= j < i && targets@[j] is Hidden ==> {
                    let f = #[trigger] tfields@[j];
                    &&& f.cell == fields0[j].cell
                    &&& f.parent_cell == fields0[j].parent_cell
                },
            forall|j: int|
                0 <= j < i ==> {
                    let f = #[trigger] rfields@[j];
                    if targets@[j] is Mut {
                        f.cell == fields0[j].cell && f.parent_cell == fields0[j].parent_cell
                    } else {
                        f.parent_cell == Some(fields0[j].cell) && ctx1.cells@.len() <= f.cell
                    }
                },
            forall|c: int|
                ctx1.cells@.len() <= c < ctx.cells@.len() ==> (#[trigger] ctx.cells@[c]) is None,
            forall|j1: int, j2: int|
                0 <= j1 < i && 0 <= j2 < i && j1 != j2 && !(targets@[j1] is Hidden) && !(
                targets@[j2] is Hidden) ==> (#[trigger] tfields@[j1]).cell != (
                #[trigger] tfields@[j2]).cell,
            forall|j1: int, j2: int|
                0 <= j1 < i && 0 <= j2 < i && j1 != j2 && !(targets@[j1] is Mut) && !(
                targets@[j2] is Mut) ==> (#[trigger] rfields@[j1]).cell != (
                #[trigger] rfields@[j2]).cell,
            forall|j1: int, j2: int|
                0 <= j1 < i && 0 <= j2 < i && !(targets@[j1] is Hidden) && !(targets@[j2]
                    is Mut) ==> (#[trigger] tfields@[j1]).cell != (
                #[trigger] rfields@[j2]).cell,
        decreases n - i,
    {
        let f = s.fields.remove(0);
        proof {
            assert(f == fields0[i as int]);
            assert(fields0.skip(i as int).skip(1) =~= fields0.skip(i + 1));
        }
        let req = targets[i];
        let pair = acquire(ctx, f, req, enabled, t1);
        match pair {
            Some(p) => {
                let (a, b) = p;
                tfields.push(a);
                rfields.push(b);
            },
            None => {
                proof {
                    assert(acquire_allowed(caps0[i as int], targets@[i as int]));
                }
                unreached()
            },
        }
        i = i + 1;
    }
    let tgt = RefStruct { fields: tfields, tracker: t1 };
    let rest = RefStruct { fields: rfields, tracker: t2 };
    proof {
        assert(tgt.caps() =~= targets@);
        assert(rest.caps() =~= rest_caps(caps0, targets@));
        assert(tgt.labels() =~= labels0);
        assert(rest.labels() =~= labels0);
    }
    (tgt, rest)
}

/// Narrows a borrowed reference-struct: clones every slot with its report
/// silenced (the clones are transient and would otherwise warn spuriously),
/// then consumes the clone. The borrowed value stays usable; the target's
/// usage still reaches the original slots through the shared cells.
pub fn split(
    ctx: &mut TrackingCtx,
    s: &RefStruct,
    targets: &Vec<Capability>,
    enabled: bool,
    loc: String,
) -> (r: (RefStruct, RefStruct))
    requires
        s.wf(*old(ctx)),
        targets@.len() == s.fields@.len(),
        acquire_all_allowed(s.caps(), targets@),
    ensures
        split_post(s.fields@, targets@, enabled, loc@, *old(ctx), *final(ctx), r.0, r.1),
{
    let ghost caps0 = s.caps();
    let ghost labels0 = s.labels();
    let loc0 = clone_string_pub(&loc);
    let clone = s.clone_ref_disabled_usage_tracking(ctx, loc0);
    proof {
        assert(clone.caps() =~= caps0);
        assert(clone.labels() =~= labels0);
    }
    let r = into_split(ctx, clone, targets, enabled, loc);
    proof {
        assert(clone.fields@.map_values(|f: Field| f.capability) =~= s.fields@.map_values(
            |f: Field| f.capability,
        ));
        assert(clone.fields@.map_values(|f: Field| f.label@) =~= s.fields@.map_values(
            |f: Field| f.label@,
        ));
        assert(split_post(s.fields@, targets@, enabled, loc@, *old(ctx), *final(ctx), r.0, r.1));
    }
    r
}

/// The usage cells after dropping the given slots, first to last.
pub open spec fn drop_fields_cells(cells: Seq<Option<Usage>>, fields: Seq<Field>) -> Seq<
    Option<Usage>,
>
    decreases fields.len(),
{
    if fields.len() == 0 {
        cells
    } else {
        drop_field_cells(drop_fields_cells(cells, fields.drop_last()), fields.last())
    }
}

/// The usage results that dropping the given slots, first to last, reports
/// to call-site tracker `t`: one entry per slot whose report is active,
/// carrying the usage its cell shows at the moment that slot is dropped.
pub open spec fn drop_fields_entries(
    cells: Seq<Option<Usage>>,
    fields: Seq<Field>,
    t: usize,
) -> Seq<(String, UsageResult)>
    decreases fields.len(),
{
    if fields.len() == 0 {
        Seq::empty()
    } else {
        let pre = drop_fields_entries(cells, fields.drop_last(), t);
        let precells = drop_fields_cells(cells, fields.drop_last());
        let f = fields.last();
        if !f.disabled && f.enabled && f.tracker == Some(t) {
            pre.push(
                (
                    f.label,
                    UsageResult { requested: f.requested, needed: precells[f.cell as int] },
                ),
            )
        } else {
            pre
        }
    }
}

/// `newer` equals `older` except that tracker `t` gained the entries `es`.
pub open spec fn tracker_entries_appended(
    older: Seq<UsageTracker>,
    newer: Seq<UsageTracker>,
    t: int,
    es: Seq<(String, UsageResult)>,
) -> bool {
    &&& newer.len() == older.len()
    &&& forall|i: int| 0 <= i < older.len() && i != t ==> newer[i] == older[i]
    &&& newer[t].loc == older[t].loc
    &&& newer[t].entries@ =~= older[t].entries@ + es
}

/// Dropping the cells of slots whose indices are in bounds keeps the number
/// of usage cells.
pub proof fn lemma_drop_fields_cells_len(cells: Seq<Option<Usage>>, fields: Seq<Field>)
    requires
        forall|j: int|
            0 <= j < fields.len() ==> (#[trigger] fields[j]).cell < cells.len() && (
            fields[j].parent_cell matches Some(p) ==> p < cells.len()),
    ensures
        drop_fields_cells(cells, fields).len() == cells.len(),
    decreases fields.len(),
{
    if fields.len() > 0 {
        assert(forall|j: int|
            0 <= j < fields.drop_last().len() ==> #[trigger] fields.drop_last()[j]
                == fields[j]);
        lemma_drop_fields_cells_len(cells, fields.drop_last());
        let inner = drop_fields_cells(cells, fields.drop_last());
        let f = fields.last();
        lemma_bump_len(inner, f.parent_cell, inner[f.cell as int]);
        let ap = bump(inner, f.parent_cell, inner[f.cell as int]);
        lemma_bump_len(ap, f.parent_cell, Some(Usage::Mut));
    }
}

/// Dropping slots never lowers a usage cell: every step only raises.
pub proof fn lemma_drop_fields_cells_raise(cells: Seq<Option<Usage>>, fields: Seq<Field>)
    requires
        forall|j: int|
            0 <= j < fields.len() ==> (#[trigger] fields[j]).cell < cells.len() && (
            fields[j].parent_cell matches Some(p) ==> p < cells.len()),
    ensures
        forall|c: int|
            0 <= c < cells.len() ==> usage_le(
                #[trigger] cells[c],
                drop_fields_cells(cells, fields)[c],
            ),
    decreases fields.len(),
{
    if fields.len() > 0 {
        assert(forall|j: int|
            0 <= j < fields.drop_last().len() ==> #[trigger] fields.drop_last()[j]
                == fields[j]);
        lemma_drop_fields_cells_raise(cells, fields.drop_last());
        lemma_drop_fields_cells_len(cells, fields.drop_last());
        let inner = drop_fields_cells(cells, fields.drop_last());
        let f = fields.last();
        crate::tracking::lemma_drop_field_cells_raise(inner, f);
        assert forall|c: int| 0 <= c < cells.len() implies usage_le(
            cells[c],
            drop_fields_cells(cells, fields)[c],
        ) by {
            crate::capability::lemma_usage_le_trans(
                cells[c],
                inner[c],
                drop_field_cells(inner, f)[c],
            );
        }
    }
}

/// Raising an in-bounds cell keeps the number of usage cells.
pub proof fn lemma_bump_len(cells: Seq<Option<Usage>>, at: Option<usize>, u: Option<Usage>)
    requires
        at matches Some(p) ==> p < cells.len(),
    ensures
        bump(cells, at, u).len() == cells.len(),
{
}

/// Slots whose reports are silenced contribute no entries when dropped.
pub proof fn lemma_drop_entries_disabled(cells: Seq<Option<Usage>>, fields: Seq<Field>, t: usize)
    requires
        forall|j: int| 0 <= j < fields.len() ==> (#[trigger] fields[j]).disabled,
    ensures
        drop_fields_entries(cells, fields, t) =~= Seq::<(String, UsageResult)>::empty(),
    decreases fields.len(),
{
    if fields.len() > 0 {
        lemma_drop_entries_disabled(cells, fields.drop_last(), t);
    }
}

/// Drops a whole reference-struct: every slot reports in field order, then
/// the call-site tracker's combined report is recorded with the sink, if
/// there is anything to report.
pub fn drop_struct(ctx: &mut TrackingCtx, s: RefStruct, sink: &mut WarningSink)
    requires
        s.wf(*old(ctx)),
    ensures
        final(ctx).cells@ =~= drop_fields_cells(old(ctx).cells@, s.fields@),
        final(ctx).cells@.len() == old(ctx).cells@.len(),
        forall|c: int|
            0 <= c < old(ctx).cells@.len() ==> usage_le(
                #[trigger] old(ctx).cells@[c],
                final(ctx).cells@[c],
            ),
        tracker_entries_appended(
            old(ctx).trackers@,
            final(ctx).trackers@,
            s.tracker as int,
            drop_fields_entries(old(ctx).cells@, s.fields@, s.tracker),
        ),
        ({
            let es = old(ctx).trackers@[s.tracker as int].entries@ + drop_fields_entries(
                old(ctx).cells@,
                s.fields@,
                s.tracker,
            );
            let rep = crate::report::tracker_report(
                old(ctx).trackers@[s.tracker as int].loc@,
                es,
            );
            match rep {
                Some(m) => {
                    &&& warned(*old(sink), *final(sink), m)
                    &&& old(sink).wf() ==> final(sink).wf()
                },
                None => *final(sink) == *old(sink),
            }
        }),
{
    let ghost cells0 = old(ctx).cells@;
    let ghost trackers0 = old(ctx).trackers@;
    let RefStruct { fields, tracker } = s;
    let ghost fields0 = fields@;
    let mut fields = fields;
    let n = fields.len();
    let mut i: usize = 0;
    proof {
        assert(drop_fields_cells(cells0, fields0.take(0)) =~= cells0);
        assert(drop_fields_entries(cells0, fields0.take(0), tracker) =~= Seq::<(
            String,
            UsageResult,
        )>::empty());
        assert(tracker_entries_appended(
            trackers0,
            trackers0,
            tracker as int,
            Seq::<(String, UsageResult)>::empty(),
        ));
    }
    while i < n
        invariant
            i <= n,
            n == fields0.len(),
            fields@ =~= fields0.skip(i as int),
            ctx.cells@ =~= drop_fields_cells(cells0, fields0.take(i as int)),
            ctx.cells@.len() == cells0.len(),
            ctx.trackers@.len() == trackers0.len(),
            tracker < trackers0.len(),
            tracker_entries_appended(
                trackers0,
                ctx.trackers@,
                tracker as int,
                drop_fields_entries(cells0, fields0.take(i as int), tracker),
            ),
            forall|j: int|
                0 <= j < n ==> (#[trigger] fields0[j]).cell < cells0.len() && (
                fields0[j].parent_cell matches Some(p) ==> p < cells0.len()),
            forall|j: int|
                0 <= j < n ==> ((#[trigger] fields0[j]).tracker is None || fields0[j].tracker
                    == Some(tracker)),
        decreases n - i,
    {
        let ghost es_pre = drop_fields_entries(cells0, fields0.take(i as int), tracker);
        let ghost trackers_pre = ctx.trackers@;
        let f = fields.remove(0);
        proof {
            assert(f == fields0[i as int]);
            assert(fields0.skip(i as int).skip(1) =~= fields0.skip(i + 1));
            assert(f.wf(*ctx));
        }
        let ghost fsnap = f;
        drop_field(ctx, f);
        proof {
            assert(fields0.take(i + 1).drop_last() =~= fields0.take(i as int));
            assert(fields0.take(i + 1).last() == fields0[i as int]);
            if !fsnap.disabled && fsnap.enabled && fsnap.tracker is Some {
                assert(fsnap.tracker == Some(tracker));
                let e = (
                    fsnap.label,
                    UsageResult {
                        requested: fsnap.requested,
                        needed: drop_fields_cells(cells0, fields0.take(i as int))[fsnap.cell as int],
                    },
                );
                assert(ctx.trackers@[tracker as int].entries@ =~= trackers_pre[tracker
                    as int].entries@.push(e));
                assert(drop_fields_entries(cells0, fields0.take(i + 1), tracker) =~= es_pre.push(
                    e,
                ));
                assert(trackers0[tracker as int].entries@ + es_pre.push(e) =~= (trackers0[tracker
                    as int].entries@ + es_pre).push(e));
            } else {
                assert(drop_fields_entries(cells0, fields0.take(i + 1), tracker) =~= es_pre);
            }
        }
        i = i + 1;
    }
    proof {
        assert(fields0.take(n as int) =~= fields0);
        lemma_drop_fields_cells_raise(cells0, fields0);
    }
    crate::report::finish_tracker(ctx, tracker, sink);
}

/// Narrows a borrowed reference-struct and keeps only the requested target;
/// the rest is dropped on the spot. Since every rest slot is silenced, the
/// immediate drop reports nothing, and the sink is untouched.
pub fn partial_borrow(
    ctx: &mut TrackingCtx,
    s: &RefStruct,
    targets: &Vec<Capability>,
    enabled: bool,
    loc: String,
    sink: &mut WarningSink,
) -> (r: RefStruct)
    requires
        s.wf(*old(ctx)),
        targets@.len() == s.fields@.len(),
        acquire_all_allowed(s.caps(), targets@),
    ensures
        r.wf(*final(ctx)),
        r.fields@.len() == targets@.len(),
        r.caps() =~= targets@,
        r.labels() =~= s.labels(),
        forall|i: int|
            0 <= i < targets@.len() && targets@[i] is Hidden ==> (#[trigger] r.fields@[i]).disabled,
        forall|i: int|
            0 <= i < targets@.len() && !(targets@[i] is Hidden) ==> {
                let f = #[trigger] r.fields@[i];
                &&& !f.disabled
                &&& f.enabled == enabled
                &&& f.tracker == Some(r.tracker)
                &&& f.requested == Some(
                    if targets@[i] is Mut {
                        Usage::Mut
                    } else {
                        Usage::Ref
                    },
                )
            },
        forall|i: int|
            0 <= i < targets@.len() && !(targets@[i] is Hidden) ==> {
                let f = #[trigger] r.fields@[i];
                &&& f.parent_cell == Some(s.fields@[i].cell)
                &&& old(ctx).cells@.len() <= f.cell
            },
        forall|i: int|
            0 <= i < targets@.len() && targets@[i] is Hidden ==> {
                let f = #[trigger] r.fields@[i];
                &&& f.cell == s.fields@[i].cell
                &&& f.parent_cell == s.fields@[i].parent_cell
            },
        forall|c: int|
            0 <= c < old(ctx).cells@.len() ==> usage_le(
                #[trigger] old(ctx).cells@[c],
                final(ctx).cells@[c],
            ),
        seq_extends(old(ctx).trackers@, final(ctx).trackers@),
        old(ctx).cells@.len() <= final(ctx).cells@.len(),
        old(ctx).trackers@.len() <= r.tracker,
        final(ctx).trackers@[r.tracker as int].loc@ == loc@,
        final(ctx).trackers@[r.tracker as int].entries@ =~= Seq::<(String, UsageResult)>::empty(),
        *final(sink) == *old(sink),
{
    let pair = split(ctx, s, targets, enabled, loc);
    let (tgt, rest) = pair;
    let ghost ctx2 = *ctx;
    proof {
        assert(rest.wf(ctx2));
        lemma_drop_entries_disabled(ctx2.cells@, rest.fields@, rest.tracker);
        assert(ctx2.trackers@[rest.tracker as int].entries@ + drop_fields_entries(
            ctx2.cells@,
            rest.fields@,
            rest.tracker,
        ) =~= Seq::<(String, UsageResult)>::empty());
        lemma_empty_report(ctx2.trackers@[rest.tracker as int].loc@);
    }
    drop_struct(ctx, rest, sink);
    proof {
        assert forall|i: int| 0 <= i < tgt.fields@.len() implies (#[trigger] tgt.fields@[i]).wf(
            *ctx,
        ) by {
            assert(tgt.fields@[i].wf(ctx2));
        }
        assert(tgt.wf(*ctx));
    }
    tgt
}

/// The report over an empty entry list is always empty.
pub proof fn lemma_empty_report(loc: Seq<char>)
    ensures
        crate::report::tracker_report(loc, Seq::<(String, UsageResult)>::empty()) is None,
{
    assert(crate::report::not_used_labels(Seq::<(String, UsageResult)>::empty()).len() == 0);
    assert(crate::report::used_as_ref_labels(Seq::<(String, UsageResult)>::empty()).len() == 0);
}

/// Like [`partial_borrow`], but consumes the reference-struct it narrows.
pub fn into_partial_borrow(
    ctx: &mut TrackingCtx,
    s: RefStruct,
    targets: &Vec<Capability>,
    enabled: bool,
    loc: String,
    sink: &mut WarningSink,
) -> (r: RefStruct)
    requires
        s.wf(*old(ctx)),
        targets@.len() == s.fields@.len(),
        acquire_all_allowed(s.caps(), targets@),
    ensures
        r.wf(*final(ctx)),
        r.fields@.len() == targets@.len(),
        r.caps() =~= targets@,
        r.labels() =~= s.labels(),
        forall|i: int|
            0 <= i < targets@.len() && !(targets@[i] is Hidden) ==> {
                let f = #[trigger] r.fields@[i];
                &&& f.parent_cell == Some(s.fields@[i].cell)
                &&& old(ctx).cells@.len() <= f.cell
            },
        forall|i: int|
            0 <= i < targets@.len() && targets@[i] is Hidden ==> {
                let f = #[trigger] r.fields@[i];
                &&& f.cell == s.fields@[i].cell
                &&& f.parent_cell == s.fields@[i].parent_cell
            },
        forall|c: int|
            0 <= c < old(ctx).cells@.len() ==> usage_le(
                #[trigger] old(ctx).cells@[c],
                final(ctx).cells@[c],
            ),
        seq_extends(old(ctx).trackers@, final(ctx).trackers@),
        old(ctx).trackers@.len() <= r.tracker,
        final(ctx).trackers@[r.tracker as int].loc@ == loc@,
        final(ctx).trackers@[r.tracker as int].entries@ =~= Seq::<(String, UsageResult)>::empty(),
        *final(sink) == *old(sink),
{
    let pair = into_split(ctx, s, targets, enabled, loc);
    let (tgt, rest) = pair;
    let ghost ctx2 = *ctx;
    proof {
        assert(rest.wf(ctx2));
        lemma_drop_entries_disabled(ctx2.cells@, rest.fields@, rest.tracker);
        assert(ctx2.trackers@[rest.tracker as int].entries@ + drop_fields_entries(
            ctx2.cells@,
            rest.fields@,
            rest.tracker,
        ) =~= Seq::<(String, UsageResult)>::empty());
        lemma_empty_report(ctx2.trackers@[rest.tracker as int].loc@);
    }
    drop_struct(ctx, rest, sink);
    proof {
        assert forall|i: int| 0 <= i < tgt.fields@.len() implies (#[trigger] tgt.fields@[i]).wf(
            *ctx,
        ) by {
            assert(tgt.fields@[i].wf(ctx2));
        }
        assert(tgt.wf(*ctx));
    }
    tgt
}

/// An all-hidden target list with capability `cap` at `index`.
fn hidden_targets_with(n: usize, index: usize, cap: Capability) -> (r: Vec<Capability>)
    requires
        index < n,
    ensures
        r@.len() == n,
        r@[index as int] == cap,
        forall|j: int| 0 <= j < n && j != index ==> (#[trigger] r@[j]) is Hidden,
{
    let mut r: Vec<Capability> = Vec::new();
    let mut i: usize = 0;
    while i < n
        invariant
            i <= n,
            r@.len() == i,
            index < n,
            forall|j: int| 0 <= j < i && j != index ==> (#[trigger] r@[j]) is Hidden,
            index < i ==> r@[index as int] == cap,
        decreases n - i,
    {
        if i == index {
            r.push(cap);
        } else {
            r.push(Capability::Hidden);
        }
        i = i + 1;
    }
    r
}

/// Extracts one field with capability `cap`: narrows to a target that hides
/// everything else, hands the single requested slot out, and drops the
/// hidden companions on the spot (they are silenced, so nothing is
/// reported). Returns the extracted slot and the rest of the struct.
fn borrow_single(
    ctx: &mut TrackingCtx,
    s: &RefStruct,
    index: usize,
    cap: Capability,
    enabled: bool,
    loc: String,
) -> (r: (Field, RefStruct))
    requires
        s.wf(*old(ctx)),
        index < s.fields@.len(),
        !(cap is Hidden),
        acquire_allowed(s.caps()[index as int], cap),
    ensures
        r.0.capability == cap,
        r.0.requested == Some(
            if cap is Mut {
                Usage::Mut
            } else {
                Usage::Ref
            },
        ),
        !r.0.disabled,
        r.0.enabled == enabled,
        r.0.label@ == s.labels()[index as int],
        r.0.wf(*final(ctx)),
        r.0.tracker is Some,
        ({
            let t = r.0.tracker->0;
            &&& old(ctx).trackers@.len() <= t < final(ctx).trackers@.len()
            &&& final(ctx).trackers@[t as int].loc@ == loc@
            &&& final(ctx).trackers@[t as int].entries@ =~= Seq::<(String, UsageResult)>::empty()
        }),
        r.1.wf(*final(ctx)),
        r.1.fields@.len() == s.fields@.len(),
        r.1.labels() =~= s.labels(),
        r.1.caps()[index as int] == rest_after(s.caps()[index as int], cap),
        forall|j: int|
            0 <= j < s.fields@.len() && j != index ==> #[trigger] r.1.caps()[j] == s.caps()[j],
        r.0.parent_cell == Some(s.fields@[index as int].cell),
        old(ctx).cells@.len() <= r.0.cell,
        forall|j: int|
            0 <= j < s.fields@.len() && j != index ==> (#[trigger] r.1.fields@[j]).parent_cell
                == Some(s.fields@[j].cell),
        ({
            let f = r.1.fields@[index as int];
            if cap is Mut {
                f.cell == s.fields@[index as int].cell && f.parent_cell == s.fields@[index
                    as int].parent_cell
            } else {
                f.parent_cell == Some(s.fields@[index as int].cell)
            }
        }),
        forall|c: int|
            0 <= c < old(ctx).cells@.len() ==> usage_le(
                #[trigger] old(ctx).cells@[c],
                final(ctx).cells@[c],
            ),
        seq_extends(old(ctx).trackers@, final(ctx).trackers@),
        old(ctx).cells@.len() <= final(ctx).cells@.len(),
{
    let n = s.fields.len();
    let targets = hidden_targets_with(n, index, cap);
    proof {
        assert forall|i: int| 0 <= i < targets@.len() implies acquire_allowed(
            s.caps()[i],
            #[trigger] targets@[i],
        ) by {}
    }
    let pair = split(ctx, s, &targets, enabled, loc);
    let (tgt, rest) = pair;
    let ghost ctx2 = *ctx;
    let ghost tfields0 = tgt.fields@;
    let mut tfields = tgt.fields;
    let tracker = tgt.tracker;
    let f = tfields.remove(index);
    proof {
        assert(f == tfields0[index as int]);
        assert(tfields@ =~= tfields0.take(index as int) + tfields0.skip(index + 1));
        assert forall|j: int| 0 <= j < tfields@.len() implies (#[trigger] tfields@[j]).disabled
            && tfields@[j].wf(ctx2) by {
            if j < index {
                assert(tfields@[j] == tfields0[j]);
                assert(targets@[j] is Hidden);
            } else {
                assert(tfields@[j] == tfields0[j + 1]);
                assert(targets@[j + 1] is Hidden);
            }
        }
    }
    while tfields.len() > 0
        invariant
            forall|j: int|
                0 <= j < tfields@.len() ==> (#[trigger] tfields@[j]).disabled && tfields@[j].wf(
                    *ctx,
                ),
            ctx.cells@.len() == ctx2.cells@.len(),
            ctx.trackers@ =~= ctx2.trackers@,
            forall|c: int|
                0 <= c < ctx2.cells@.len() ==> usage_le(
                    #[trigger] ctx2.cells@[c],
                    ctx.cells@[c],
                ),
        decreases tfields@.len(),
    {
        let g = tfields.remove(0);
        let ghost gsnap = g;
        let ghost cells_pre = ctx.cells@;
        drop_field(ctx, g);
        proof {
            lemma_bump_len(cells_pre, gsnap.parent_cell, cells_pre[gsnap.cell as int]);
            let ap = bump(cells_pre, gsnap.parent_cell, cells_pre[gsnap.cell as int]);
            lemma_bump_len(ap, gsnap.parent_cell, Some(Usage::Mut));
            crate::tracking::lemma_drop_field_cells_raise(cells_pre, gsnap);
            assert forall|c: int| 0 <= c < ctx2.cells@.len() implies usage_le(
                ctx2.cells@[c],
                ctx.cells@[c],
            ) by {
                crate::capability::lemma_usage_le_trans(
                    ctx2.cells@[c],
                    cells_pre[c],
                    ctx.cells@[c],
                );
            }
        }
    }
    proof {
        assert(f.wf(*ctx));
        assert forall|j: int| 0 <= j < rest.fields@.len() implies (#[trigger] rest.fields@[j]).wf(
            *ctx,
        ) by {
            assert(rest.fields@[j].wf(ctx2));
        }
        assert(rest.wf(*ctx));
        assert(rest.caps() =~= rest_caps(s.caps(), targets@));
        assert forall|j: int|
            0 <= j < s.fields@.len() && j != index implies #[trigger] rest.caps()[j]
            == s.caps()[j] by {
            assert(rest.caps()[j] == rest_after(s.caps()[j], targets@[j]));
        }
    }
    (f, rest)
}

/// Extracts one field as an exclusive, mutable slot; the rest keeps every
/// other field and loses this one.
pub fn borrow_field_mut(
    ctx: &mut TrackingCtx,
    s: &RefStruct,
    index: usize,
    enabled: bool,
    loc: String,
) -> (r: (Field, RefStruct))
    requires
        s.wf(*old(ctx)),
        index < s.fields@.len(),
        s.caps()[index as int] is Mut,
    ensures
        r.0.capability is Mut,
        r.0.requested == Some(Usage::Mut),
        !r.0.disabled,
        r.0.enabled == enabled,
        r.0.label@ == s.labels()[index as int],
        r.0.wf(*final(ctx)),
        r.0.tracker is Some,
        ({
            let t = r.0.tracker->0;
            &&& old(ctx).trackers@.len() <= t < final(ctx).trackers@.len()
            &&& final(ctx).trackers@[t as int].loc@ == loc@
            &&& final(ctx).trackers@[t as int].entries@ =~= Seq::<(String, UsageResult)>::empty()
        }),
        r.1.wf(*final(ctx)),
        r.1.fields@.len() == s.fields@.len(),
        r.1.labels() =~= s.labels(),
        r.1.caps()[index as int] is Hidden,
        forall|j: int|
            0 <= j < s.fields@.len() && j != index ==> #[trigger] r.1.caps()[j] == s.caps()[j],
        r.0.parent_cell == Some(s.fields@[index as int].cell),
        old(ctx).cells@.len() <= r.0.cell,
        forall|j: int|
            0 <= j < s.fields@.len() && j != index ==> (#[trigger] r.1.fields@[j]).parent_cell
                == Some(s.fields@[j].cell),
        r.1.fields@[index as int].cell == s.fields@[index as int].cell,
        r.1.fields@[index as int].parent_cell == s.fields@[index as int].parent_cell,
        forall|c: int|
            0 <= c < old(ctx).cells@.len() ==> usage_le(
                #[trigger] old(ctx).cells@[c],
                final(ctx).cells@[c],
            ),
        seq_extends(old(ctx).trackers@, final(ctx).trackers@),
        old(ctx).cells@.len() <= final(ctx).cells@.len(),
{
    borrow_single(ctx, s, index, Capability::Mut, enabled, loc)
}

/// Extracts one field as a shared, read-only slot; the rest keeps every
/// other field and retains read-only access to this one.
pub fn borrow_field(
    ctx: &mut TrackingCtx,
    s: &RefStruct,
    index: usize,
    enabled: bool,
    loc: String,
) -> (r: (Field, RefStruct))
    requires
        s.wf(*old(ctx)),
        index < s.fields@.len(),
        !(s.caps()[index as int] is Hidden),
    ensures
        r.0.capability is Ref,
        r.0.requested == Some(Usage::Ref),
        !r.0.disabled,
        r.0.enabled == enabled,
        r.0.label@ == s.labels()[index as int],
        r.0.wf(*final(ctx)),
        r.0.tracker is Some,
        ({
            let t = r.0.tracker->0;
            &&& old(ctx).trackers@.len() <= t < final(ctx).trackers@.len()
            &&& final(ctx).trackers@[t as int].loc@ == loc@
            &&& final(ctx).trackers@[t as int].entries@ =~= Seq::<(String, UsageResult)>::empty()
        }),
        r.1.wf(*final(ctx)),
        r.1.fields@.len() == s.fields@.len(),
        r.1.labels() =~= s.labels(),
        r.1.caps()[index as int] is Ref,
        forall|j: int|
            0 <= j < s.fields@.len() && j != index ==> #[trigger] r.1.caps()[j] == s.caps()[j],
        r.0.parent_cell == Some(s.fields@[index as int].cell),
        old(ctx).cells@.len() <= r.0.cell,
        forall|j: int|
            0 <= j < s.fields@.len() && j != index ==> (#[trigger] r.1.fields@[j]).parent_cell
                == Some(s.fields@[j].cell),
        r.1.fields@[index as int].parent_cell == Some(s.fields@[index as int].cell),
        forall|c: int|
            0 <= c < old(ctx).cells@.len() ==> usage_le(
                #[trigger] old(ctx).cells@[c],
                final(ctx).cells@[c],
            ),
        seq_extends(old(ctx).trackers@, final(ctx).trackers@),
        old(ctx).cells@.len() <= final(ctx).cells@.len(),
{
    borrow_single(ctx, s, index, Capability::Ref, enabled, loc)
}

/// Drops an extracted field slot and, when it reports to a call-site
/// tracker, records that tracker's combined report with the sink.
pub fn release_field(ctx: &mut TrackingCtx, f: Field, sink: &mut WarningSink)
    requires
        f.wf(*old(ctx)),
    ensures
        final(ctx).cells@ =~= drop_field_cells(old(ctx).cells@, f),
        ({
            match f.tracker {
                None => {
                    &&& final(ctx).trackers@ =~= old(ctx).trackers@
                    &&& *final(sink) == *old(sink)
                },
                Some(t) => {
                    let es = if !f.disabled && f.enabled {
                        old(ctx).trackers@[t as int].entries@.push(
                            (
                                f.label,
                                UsageResult {
                                    requested: f.requested,
                                    needed: old(ctx).cells@[f.cell as int],
                                },
                            ),
                        )
                    } else {
                        old(ctx).trackers@[t as int].entries@
                    };
                    let rep = crate::report::tracker_report(
                        old(ctx).trackers@[t as int].loc@,
                        es,
                    );
                    &&& final(ctx).trackers@.len() == old(ctx).trackers@.len()
                    &&& final(ctx).trackers@[t as int].entries@ =~= es
                    &&& (match rep {
                        Some(m) => {
                            &&& warned(*old(sink), *final(sink), m)
                            &&& old(sink).wf() ==> final(sink).wf()
                        },
                        None => *final(sink) == *old(sink),
                    })
                },
            }
        }),
{
    let tracker = f.tracker;
    drop_field(ctx, f);
    if let Some(t) = tracker {
        crate::report::finish_tracker(ctx, t, sink);
    }
}

/// Exclusivity across a whole narrowing: wherever the target actually
/// received access, the rest can never be narrowed to `Mut` on that field
/// again; and wherever the target received `Mut`, the rest admits nothing
/// but hiding. Re-acquiring a field thus requires the target produced first
/// to have given it up.
pub proof fn lemma_split_exclusive(caps: Seq<Capability>, targets: Seq<Capability>)
    requires
        caps.len() == targets.len(),
        acquire_all_allowed(caps, targets),
    ensures
        forall|i: int|
            0 <= i < targets.len() && !(targets[i] is Hidden) ==> !acquire_allowed(
                #[trigger] rest_caps(caps, targets)[i],
                Capability::Mut,
            ),
        forall|i: int, again: Capability|
            0 <= i < targets.len() && targets[i] is Mut && #[trigger] acquire_allowed(
                rest_caps(caps, targets)[i],
                again,
            ) ==> again is Hidden,
{
}

/// Round-trip: narrowing an all-mutable reference-struct to the all-mutable
/// target is always legal and grants exactly the capability set already
/// held, so the narrowed value matches, slot for slot, the reference-struct
/// it was derived from.
pub proof fn lemma_mut_round_trip(caps: Seq<Capability>, targets: Seq<Capability>)
    requires
        caps.len() == targets.len(),
        forall|i: int| 0 <= i < caps.len() ==> (#[trigger] caps[i]) is Mut,
        forall|i: int| 0 <= i < targets.len() ==> (#[trigger] targets[i]) is Mut,
    ensures
        acquire_all_allowed(caps, targets),
        targets =~= caps,
{
}

/// Hiding a whole reference-struct is always legal, leaves every capability
/// with the rest, and hiding the all-hidden result again still succeeds and
/// yields hidden slots on both sides.
pub proof fn lemma_hide_all(caps: Seq<Capability>, hidden: Seq<Capability>)
    requires
        hidden.len() == caps.len(),
        forall|i: int| 0 <= i < hidden.len() ==> (#[trigger] hidden[i]) is Hidden,
    ensures
        acquire_all_allowed(caps, hidden),
        rest_caps(caps, hidden) =~= caps,
        acquire_all_allowed(hidden, hidden),
        rest_caps(hidden, hidden) =~= hidden,
{
}

/// The two-call-site over-broad borrow, derived end to end from the
/// narrowing and drop contracts: the tracked view of a one-field struct is
/// narrowed mutably at an outer call site, narrowed mutably again at an
/// inner call site, and the innermost slot is only read. Dropping
/// everything records exactly one warning, the inner call site's: its
/// tracker holds the one entry "requested mutable, observed a read".
/// The outer call site stays silent, because the under-used inner borrow
/// raises the outer slot's record to "needs mutable" when it is dropped,
/// so an enclosing borrow is never blamed until its narrowings are fixed.
/// Returns the inner call site's tracker.
pub fn over_broad_borrow_reports_inner_site(
    ctx: &mut TrackingCtx,
    sink: &mut WarningSink,
    label: String,
    loc_top: String,
    loc_outer: String,
    loc_inner: String,
) -> (t: usize)
    requires
        old(sink).count == 0,
        old(sink).spec_lines().len() == 0,
    ensures
        t < final(ctx).trackers@.len(),
        final(ctx).trackers@[t as int].loc@ == loc_inner@,
        final(ctx).trackers@[t as int].entries@.len() == 1,
        final(ctx).trackers@[t as int].entries@[0].0@ == label@,
        final(ctx).trackers@[t as int].entries@[0].1 == (UsageResult {
            requested: Some(Usage::Mut),
            needed: Some(Usage::Ref),
        }),
        final(sink).count == 1,
        final(sink).spec_lines() =~= seq![
            crate::report::tracker_report(
                loc_inner@,
                final(ctx).trackers@[t as int].entries@,
            )->0,
        ],
{
    let mut labels: Vec<String> = Vec::new();
    labels.push(label);
    let ghost lv = labels@;
    let g = as_refs_mut(ctx, labels, loc_top);
    let ghost ctx0 = *ctx;
    proof {
        assert(lv[0] == label);
        assert(g.labels()[0] == g.fields@[0].label@);
        assert(views_of(lv)[0] == lv[0]@);
        assert(g.fields@[0].label@ == label@);
    }
    let mut want_mut: Vec<Capability> = Vec::new();
    want_mut.push(Capability::Mut);
    let pair_a = split(ctx, &g, &want_mut, true, loc_outer);
    let (a_tgt, a_rest) = pair_a;
    let ghost ctx1 = *ctx;
    proof {
        assert(a_tgt.caps() =~= want_mut@);
        assert(a_tgt.caps()[0] is Mut);
        assert(acquire_all_allowed(a_tgt.caps(), want_mut@));
    }
    let pair_b = split(ctx, &a_tgt, &want_mut, true, loc_inner);
    let (b_tgt, b_rest) = pair_b;
    let ghost ctx2 = *ctx;
    let ghost ca = a_tgt.fields@[0].cell;
    let ghost cb = b_tgt.fields@[0].cell;
    proof {
        // the inner slot's fresh cell is untouched, the outer slot's cell
        // survives the inner narrowing unchanged
        assert(ctx2.cells@[cb as int] is None);
        assert(ca < ctx1.cells@.len());
        assert(ctx2.cells@[ca as int] == ctx1.cells@[ca as int]);
        assert(ctx1.cells@[ca as int] is None);
        assert(b_tgt.fields@[0].wf(ctx2));
    }
    b_tgt.fields[0].use_as_ref(ctx);
    let ghost ctx3 = *ctx;
    proof {
        assert(ctx3.cells@ =~= bump(ctx2.cells@, Some(cb), Some(Usage::Ref)));
        assert(ctx3.cells@.len() == ctx2.cells@.len());
        assert(ctx3.cells@[cb as int] == Some(Usage::Ref));
        assert(ca < ctx1.cells@.len() <= cb);
        assert(ctx3.cells@[ca as int] is None);
        assert(b_rest.wf(ctx3)) by {
            assert(b_rest.fields@[0].wf(ctx2));
        }
    }
    drop_struct(ctx, b_rest, sink);
    let ghost ctx4 = *ctx;
    proof {
        // the rest of the inner narrowing is silenced: no entries, and its
        // one slot only re-bumps the outer cell with the nothing it saw
        lemma_drop_entries_disabled(ctx3.cells@, b_rest.fields@, b_rest.tracker);
        assert(ctx3.trackers@[b_rest.tracker as int].entries@ + drop_fields_entries(
            ctx3.cells@,
            b_rest.fields@,
            b_rest.tracker,
        ) =~= Seq::<(String, UsageResult)>::empty());
        lemma_empty_report(ctx3.trackers@[b_rest.tracker as int].loc@);
        assert(*sink == *old(sink));
        assert(b_rest.fields@.drop_last().len() == 0);
        assert(drop_fields_cells(ctx3.cells@, b_rest.fields@.drop_last()) =~= ctx3.cells@);
        assert(b_rest.fields@.last() == b_rest.fields@[0]);
        assert(b_rest.fields@[0].cell == ca);
        assert(ctx3.cells@[ca as int] is None);
        assert(ctx4.cells@ =~= drop_field_cells(ctx3.cells@, b_rest.fields@[0]));
        assert(ctx4.cells@ =~= ctx3.cells@);
        assert(ctx4.trackers@.len() == ctx3.trackers@.len());
        assert(b_tgt.tracker != b_rest.tracker);
        assert(ctx4.trackers@[b_tgt.tracker as int] == ctx3.trackers@[b_tgt.tracker as int]);
        assert(b_tgt.wf(ctx4)) by {
            assert(b_tgt.fields@[0].wf(ctx2));
        }
    }
    let t = b_tgt.tracker;
    drop_struct(ctx, b_tgt, sink);
    let ghost ctx5 = *ctx;
    let ghost e_inner = (
        b_tgt.fields@[0].label,
        UsageResult { requested: Some(Usage::Mut), needed: Some(Usage::Ref) },
    );
    proof {
        // dropping the inner borrow records "requested mut, observed ref"
        // and raises the outer slot's record to "needs mut"
        assert(b_tgt.fields@.drop_last().len() == 0);
        assert(drop_fields_cells(ctx4.cells@, b_tgt.fields@.drop_last()) =~= ctx4.cells@);
        assert(drop_fields_entries(ctx4.cells@, b_tgt.fields@.drop_last(), t) =~= Seq::<(
            String,
            UsageResult,
        )>::empty());
        assert(b_tgt.fields@.last() == b_tgt.fields@[0]);
        assert(ctx4.cells@[cb as int] == Some(Usage::Ref));
        assert(b_tgt.fields@[0].requested == Some(Usage::Mut));
        assert(!b_tgt.fields@[0].disabled && b_tgt.fields@[0].enabled);
        assert(b_tgt.fields@[0].tracker == Some(t));
        assert(drop_fields_entries(ctx4.cells@, b_tgt.fields@, t) =~= seq![e_inner]);
        assert(b_tgt.fields@[0].parent_cell == Some(ca));
        assert(ctx5.cells@ =~= drop_field_cells(ctx4.cells@, b_tgt.fields@[0]));
        assert(ctx5.cells@[ca as int] == Some(Usage::Mut)) by {
            let after_parent = bump(ctx4.cells@, Some(ca), Some(Usage::Ref));
            assert(after_parent[ca as int] == Some(Usage::Ref));
            assert(!usage_le(Some(Usage::Mut), Some(Usage::Ref)));
            assert(ctx5.cells@ =~= bump(after_parent, Some(ca), Some(Usage::Mut)));
        }
        assert(ctx5.cells@.len() == ctx4.cells@.len());
        // the inner tracker now holds exactly the one entry, and reports
        let es = ctx4.trackers@[t as int].entries@ + seq![e_inner];
        assert(ctx5.trackers@[t as int].entries@ =~= es);
        assert(es =~= seq![e_inner]);
        assert(es.len() == 1 && !usage_le(es[0].1.requested, es[0].1.needed) && es[0].1.needed
            is Some);
        crate::report::lemma_report_exactly_when(loc_inner@, es);
        assert(ctx4.trackers@[t as int].loc@ == loc_inner@);
        assert(crate::report::tracker_report(loc_inner@, es) is Some);
        assert(sink.count == 1);
        assert(sink.spec_lines() =~= seq![
            crate::report::tracker_report(loc_inner@, es)->0,
        ]);
        assert(a_tgt.wf(ctx5)) by {
            assert(a_tgt.fields@[0].wf(ctx1));
        }
    }
    drop_struct(ctx, a_tgt, sink);
    let ghost ctx6 = *ctx;
    proof {
        // the outer borrow's record was already raised to "needs mut":
        // no discrepancy, no report
        assert(a_tgt.fields@.drop_last().len() == 0);
        assert(drop_fields_entries(ctx5.cells@, a_tgt.fields@.drop_last(), a_tgt.tracker)
            =~= Seq::<(String, UsageResult)>::empty());
        assert(a_tgt.fields@.last() == a_tgt.fields@[0]);
        assert(ctx5.cells@[ca as int] == Some(Usage::Mut));
        assert(a_tgt.fields@[0].requested == Some(Usage::Mut));
        let e_outer = (
            a_tgt.fields@[0].label,
            UsageResult { requested: Some(Usage::Mut), needed: Some(Usage::Mut) },
        );
        assert(drop_fields_entries(ctx5.cells@, a_tgt.fields@, a_tgt.tracker) =~= seq![e_outer]);
        let es2 = ctx5.trackers@[a_tgt.tracker as int].entries@ + seq![e_outer];
        assert(a_tgt.tracker != t && a_tgt.tracker != b_rest.tracker);
        assert(ctx5.trackers@[a_tgt.tracker as int] == ctx2.trackers@[a_tgt.tracker as int]);
        assert(ctx2.trackers@[a_tgt.tracker as int] == ctx1.trackers@[a_tgt.tracker as int]);
        assert(ctx1.trackers@[a_tgt.tracker as int].entries@.len() == 0);
        assert(es2 =~= seq![e_outer]);
        assert(forall|i: int|
            0 <= i < es2.len() ==> usage_le((#[trigger] es2[i]).1.requested, es2[i].1.needed));
        crate::report::lemma_no_discrepancy_no_report(
            ctx5.trackers@[a_tgt.tracker as int].loc@,
            es2,
        );
        assert(sink.count == 1);
        assert(ctx6.trackers@[t as int] == ctx5.trackers@[t as int]);
        assert(a_rest.wf(ctx6)) by {
            assert(a_rest.fields@[0].wf(ctx1));
        }
    }
    drop_struct(ctx, a_rest, sink);
    let ghost ctx7 = *ctx;
    proof {
        lemma_drop_entries_disabled(ctx6.cells@, a_rest.fields@, a_rest.tracker);
        assert(ctx6.trackers@[a_rest.tracker as int].entries@ + drop_fields_entries(
            ctx6.cells@,
            a_rest.fields@,
            a_rest.tracker,
        ) =~= ctx6.trackers@[a_rest.tracker as int].entries@);
        assert(a_rest.tracker != t && a_rest.tracker != b_rest.tracker && a_rest.tracker
            != a_tgt.tracker);
        assert(ctx6.trackers@[a_rest.tracker as int] == ctx2.trackers@[a_rest.tracker as int]);
        assert(ctx2.trackers@[a_rest.tracker as int] == ctx1.trackers@[a_rest.tracker as int]);
        assert(ctx1.trackers@[a_rest.tracker as int].entries@.len() == 0);
        assert(ctx6.trackers@[a_rest.tracker as int].entries@ + drop_fields_entries(
            ctx6.cells@,
            a_rest.fields@,
            a_rest.tracker,
        ) =~= Seq::<(String, UsageResult)>::empty());
        lemma_empty_report(ctx6.trackers@[a_rest.tracker as int].loc@);
        assert(sink.count == 1);
        assert(ctx7.trackers@[t as int] == ctx6.trackers@[t as int]);
        assert(g.wf(ctx7)) by {
            assert(g.fields@[0].wf(ctx0));
        }
    }
    drop_struct(ctx, g, sink);
    proof {
        lemma_drop_entries_disabled(ctx7.cells@, g.fields@, g.tracker);
        assert(g.tracker != t && g.tracker != b_rest.tracker && g.tracker != a_tgt.tracker
            && g.tracker != a_rest.tracker);
        assert(ctx7.trackers@[g.tracker as int] == ctx0.trackers@[g.tracker as int]);
        assert(ctx0.trackers@[g.tracker as int].entries@.len() == 0);
        assert(ctx7.trackers@[g.tracker as int].entries@ + drop_fields_entries(
            ctx7.cells@,
            g.fields@,
            g.tracker,
        ) =~= Seq::<(String, UsageResult)>::empty());
        lemma_empty_report(ctx7.trackers@[g.tracker as int].loc@);
        assert(sink.count == 1);
        assert(ctx.trackers@[t as int] == ctx5.trackers@[t as int]);
        assert(ctx.trackers@[t as int].entries@ =~= seq![e_inner]);
        assert(ctx.trackers@[t as int].loc@ == loc_inner@);
        assert(a_tgt.labels()[0] == a_tgt.fields@[0].label@);
        assert(g.labels()[0] == g.fields@[0].label@);
        assert(a_tgt.fields@[0].label@ == label@);
        assert(b_tgt.labels()[0] == b_tgt.fields@[0].label@);
        assert(b_tgt.fields@[0].label@ == label@);
        assert(e_inner.0@ == label@);
    }
    t
}

/// The full over-broad borrow picture across two call sites, derived end
/// to end from the narrowing and drop contracts: the tracked view of a
/// two-field struct is narrowed all-mutably at an outer call site; an
/// inner call site then takes only the first field mutably and merely
/// reads it; the second field is never touched. Dropping everything
/// records exactly two warnings: the inner call site's, whose tracker
/// holds the entry "first field requested mutable, observed a read", and
/// the outer call site's, whose tracker holds "first field needed mutable"
/// (raised by the dropped inner borrow) together with "second field never
/// used". Returns the inner and the outer call site's trackers.
pub fn over_broad_borrow_reports_both_sites(
    ctx: &mut TrackingCtx,
    sink: &mut WarningSink,
    label_x: String,
    label_y: String,
    loc_top: String,
    loc_outer: String,
    loc_inner: String,
) -> (r: (usize, usize))
    requires
        old(sink).count == 0,
        old(sink).spec_lines().len() == 0,
    ensures
        r.0 < final(ctx).trackers@.len(),
        r.1 < final(ctx).trackers@.len(),
        r.0 != r.1,
        final(ctx).trackers@[r.0 as int].loc@ == loc_inner@,
        final(ctx).trackers@[r.1 as int].loc@ == loc_outer@,
        final(ctx).trackers@[r.0 as int].entries@.len() == 1,
        final(ctx).trackers@[r.0 as int].entries@[0].0@ == label_x@,
        final(ctx).trackers@[r.0 as int].entries@[0].1 == (UsageResult {
            requested: Some(Usage::Mut),
            needed: Some(Usage::Ref),
        }),
        final(ctx).trackers@[r.1 as int].entries@.len() == 2,
        final(ctx).trackers@[r.1 as int].entries@[0].0@ == label_x@,
        final(ctx).trackers@[r.1 as int].entries@[0].1 == (UsageResult {
            requested: Some(Usage::Mut),
            needed: Some(Usage::Mut),
        }),
        final(ctx).trackers@[r.1 as int].entries@[1].0@ == label_y@,
        final(ctx).trackers@[r.1 as int].entries@[1].1 == (UsageResult {
            requested: Some(Usage::Mut),
            needed: None,
        }),
        final(sink).count == 2,
        final(sink).spec_lines() =~= seq![
            crate::report::tracker_report(
                loc_inner@,
                final(ctx).trackers@[r.0 as int].entries@,
            )->0,
            crate::report::tracker_report(
                loc_outer@,
                final(ctx).trackers@[r.1 as int].entries@,
            )->0,
        ],
{
    let mut labels: Vec<String> = Vec::new();
    labels.push(label_x);
    labels.push(label_y);
    let ghost lv = labels@;
    let g = as_refs_mut(ctx, labels, loc_top);
    let ghost ctx0 = *ctx;
    proof {
        assert(lv[0] == label_x && lv[1] == label_y);
        assert(g.labels()[0] == g.fields@[0].label@);
        assert(g.labels()[1] == g.fields@[1].label@);
        assert(views_of(lv)[0] == lv[0]@ && views_of(lv)[1] == lv[1]@);
        assert(g.fields@[0].label@ == label_x@ && g.fields@[1].label@ == label_y@);
    }
    let mut all_mut: Vec<Capability> = Vec::new();
    all_mut.push(Capability::Mut);
    all_mut.push(Capability::Mut);
    let pair_a = split(ctx, &g, &all_mut, true, loc_outer);
    let (a_tgt, a_rest) = pair_a;
    let ghost ctx1 = *ctx;
    let ghost cax = a_tgt.fields@[0].cell;
    let ghost cay = a_tgt.fields@[1].cell;
    proof {
        assert(a_tgt.caps()[0] is Mut && a_tgt.caps()[1] is Mut);
        assert(a_tgt.fields@[0].capability is Mut && a_tgt.fields@[1].capability is Mut);
        assert(cax != cay);
        assert(ctx1.cells@[cax as int] is None && ctx1.cells@[cay as int] is None);
        assert(a_tgt.labels()[0] == a_tgt.fields@[0].label@);
        assert(a_tgt.labels()[1] == a_tgt.fields@[1].label@);
        assert(a_tgt.fields@[0].label@ == label_x@ && a_tgt.fields@[1].label@ == label_y@);
    }
    let mut first_mut: Vec<Capability> = Vec::new();
    first_mut.push(Capability::Mut);
    first_mut.push(Capability::Hidden);
    proof {
        assert(acquire_all_allowed(a_tgt.caps(), first_mut@));
    }
    let pair_b = split(ctx, &a_tgt, &first_mut, true, loc_inner);
    let (b_tgt, b_rest) = pair_b;
    let ghost ctx2 = *ctx;
    let ghost cbx = b_tgt.fields@[0].cell;
    proof {
        assert(ctx2.cells@[cbx as int] is None);
        assert(cax < ctx1.cells@.len() && cay < ctx1.cells@.len());
        assert(ctx2.cells@[cax as int] is None && ctx2.cells@[cay as int] is None);
        assert(b_tgt.fields@[0].parent_cell == Some(cax));
        assert(b_tgt.fields@[1].cell == cay);
        assert(b_tgt.fields@[1].parent_cell == a_tgt.fields@[1].parent_cell);
        assert(a_tgt.fields@[1].parent_cell == Some(g.fields@[1].cell));
        assert(b_tgt.fields@[0].wf(ctx2));
        assert(b_tgt.labels()[0] == b_tgt.fields@[0].label@);
        assert(b_tgt.fields@[0].label@ == label_x@);
    }
    b_tgt.fields[0].use_as_ref(ctx);
    let ghost ctx3 = *ctx;
    proof {
        assert(ctx3.cells@ =~= bump(ctx2.cells@, Some(cbx), Some(Usage::Ref)));
        assert(ctx3.cells@.len() == ctx2.cells@.len());
        assert(ctx3.cells@[cbx as int] == Some(Usage::Ref));
        assert(cax < ctx1.cells@.len() <= cbx && cay < ctx1.cells@.len() <= cbx);
        assert(ctx3.cells@[cax as int] is None && ctx3.cells@[cay as int] is None);
        assert(b_rest.wf(ctx3)) by {
            assert(b_rest.fields@[0].wf(ctx2) && b_rest.fields@[1].wf(ctx2));
        }
    }
    drop_struct(ctx, b_rest, sink);
    let ghost ctx4 = *ctx;
    proof {
        // the inner rest is silenced; both of its slots saw nothing, so
        // every cell keeps its value
        lemma_drop_entries_disabled(ctx3.cells@, b_rest.fields@, b_rest.tracker);
        assert(ctx3.trackers@[b_rest.tracker as int].entries@ + drop_fields_entries(
            ctx3.cells@,
            b_rest.fields@,
            b_rest.tracker,
        ) =~= Seq::<(String, UsageResult)>::empty());
        lemma_empty_report(ctx3.trackers@[b_rest.tracker as int].loc@);
        assert(*sink == *old(sink));
        let rf = b_rest.fields@;
        assert(rf.drop_last() =~= seq![rf[0]]);
        assert(seq![rf[0]].drop_last().len() == 0);
        assert(seq![rf[0]].last() == rf[0]);
        assert(drop_fields_cells(ctx3.cells@, seq![rf[0]].drop_last()) =~= ctx3.cells@);
        assert(drop_fields_cells(ctx3.cells@, seq![rf[0]]) =~= drop_field_cells(
            ctx3.cells@,
            rf[0],
        ));
        assert(rf[0].cell == cax && rf[0].parent_cell == a_tgt.fields@[0].parent_cell);
        assert(ctx3.cells@[cax as int] is None);
        let c_mid = drop_field_cells(ctx3.cells@, rf[0]);
        assert(c_mid =~= ctx3.cells@);
        assert(rf.last() == rf[1]);
        assert(rf[1].parent_cell == Some(cay));
        assert(rf[1].cell != cbx);
        assert(ctx4.cells@ =~= drop_field_cells(c_mid, rf[1]));
        assert(c_mid[rf[1].cell as int] is None);
        assert(ctx4.cells@ =~= ctx3.cells@);
        assert(ctx4.trackers@.len() == ctx3.trackers@.len());
        assert(b_tgt.tracker != b_rest.tracker);
        assert(ctx4.trackers@[b_tgt.tracker as int] == ctx3.trackers@[b_tgt.tracker as int]);
        assert(b_tgt.wf(ctx4)) by {
            assert(b_tgt.fields@[0].wf(ctx2) && b_tgt.fields@[1].wf(ctx2));
        }
    }
    let t_inner = b_tgt.tracker;
    drop_struct(ctx, b_tgt, sink);
    let ghost ctx5 = *ctx;
    let ghost e_inner = (
        b_tgt.fields@[0].label,
        UsageResult { requested: Some(Usage::Mut), needed: Some(Usage::Ref) },
    );
    proof {
        // dropping the inner borrow records "requested mut, observed ref"
        // for the first field and raises the outer first slot to mut; the
        // hidden second slot reports nothing
        let tf = b_tgt.fields@;
        assert(tf.drop_last() =~= seq![tf[0]]);
        assert(seq![tf[0]].drop_last().len() == 0);
        assert(seq![tf[0]].last() == tf[0]);
        assert(drop_fields_cells(ctx4.cells@, seq![tf[0]].drop_last()) =~= ctx4.cells@);
        assert(drop_fields_cells(ctx4.cells@, seq![tf[0]]) =~= drop_field_cells(
            ctx4.cells@,
            tf[0],
        ));
        assert(drop_fields_entries(ctx4.cells@, seq![tf[0]].drop_last(), t_inner) =~= Seq::<(
            String,
            UsageResult,
        )>::empty());
        assert(drop_fields_entries(ctx4.cells@, seq![tf[0]], t_inner) =~= seq![e_inner]);
        assert(tf.last() == tf[1]);
        assert(tf[1].disabled);
        assert(drop_fields_entries(ctx4.cells@, tf, t_inner) =~= seq![e_inner]);
        let c_mid = drop_field_cells(ctx4.cells@, tf[0]);
        assert(c_mid[cax as int] == Some(Usage::Mut)) by {
            let ap = bump(ctx4.cells@, Some(cax), Some(Usage::Ref));
            assert(ap[cax as int] == Some(Usage::Ref));
            assert(!usage_le(Some(Usage::Mut), Some(Usage::Ref)));
            assert(c_mid =~= bump(ap, Some(cax), Some(Usage::Mut)));
        }
        assert(c_mid.len() == ctx4.cells@.len());
        assert(cay != cax && cay != cbx);
        assert(c_mid[cay as int] is None);
        assert(tf[1].cell == cay);
        assert(ctx5.cells@ =~= drop_field_cells(c_mid, tf[1]));
        assert(tf[1].parent_cell == Some(g.fields@[1].cell));
        assert(g.fields@[1].cell < ctx0.cells@.len());
        assert(ctx5.cells@[cax as int] == Some(Usage::Mut)) by {
            assert(g.fields@[1].cell != cax);
        }
        assert(ctx5.cells@[cay as int] is None) by {
            assert(g.fields@[1].cell != cay);
        }
        assert(ctx5.cells@.len() == c_mid.len());
        let es = ctx4.trackers@[t_inner as int].entries@ + seq![e_inner];
        assert(ctx5.trackers@[t_inner as int].entries@ =~= es);
        assert(es =~= seq![e_inner]);
        assert(es.len() == 1 && !usage_le(es[0].1.requested, es[0].1.needed) && es[0].1.needed
            is Some);
        crate::report::lemma_report_exactly_when(loc_inner@, es);
        assert(ctx4.trackers@[t_inner as int].loc@ == loc_inner@);
        assert(sink.count == 1);
        assert(sink.spec_lines() =~= seq![
            crate::report::tracker_report(loc_inner@, es)->0,
        ]);
        assert(a_tgt.wf(ctx5)) by {
            assert(a_tgt.fields@[0].wf(ctx1) && a_tgt.fields@[1].wf(ctx1));
        }
    }
    let t_outer = a_tgt.tracker;
    drop_struct(ctx, a_tgt, sink);
    let ghost ctx6 = *ctx;
    let ghost e_outer_x = (
        a_tgt.fields@[0].label,
        UsageResult { requested: Some(Usage::Mut), needed: Some(Usage::Mut) },
    );
    let ghost e_outer_y = (
        a_tgt.fields@[1].label,
        UsageResult { requested: Some(Usage::Mut), needed: None },
    );
    proof {
        // the outer borrow's first slot was raised to mut by the inner
        // drop, the second was never used: both are recorded, and the
        // never-used one makes the outer call site report
        let af = a_tgt.fields@;
        assert(af.drop_last() =~= seq![af[0]]);
        assert(seq![af[0]].drop_last().len() == 0);
        assert(seq![af[0]].last() == af[0]);
        assert(ctx5.cells@[cax as int] == Some(Usage::Mut));
        assert(af[0].requested == Some(Usage::Mut) && !af[0].disabled && af[0].enabled);
        assert(af[0].tracker == Some(t_outer));
        assert(drop_fields_cells(ctx5.cells@, seq![af[0]].drop_last()) =~= ctx5.cells@);
        assert(drop_fields_cells(ctx5.cells@, seq![af[0]]) =~= drop_field_cells(
            ctx5.cells@,
            af[0],
        ));
        assert(drop_fields_entries(ctx5.cells@, seq![af[0]].drop_last(), t_outer) =~= Seq::<(
            String,
            UsageResult,
        )>::empty());
        assert(drop_fields_entries(ctx5.cells@, seq![af[0]], t_outer) =~= seq![e_outer_x]);
        let c_mid2 = drop_field_cells(ctx5.cells@, af[0]);
        assert(af[0].parent_cell == Some(g.fields@[0].cell));
        assert(usage_le(af[0].requested, ctx5.cells@[cax as int]));
        assert(c_mid2 =~= bump(ctx5.cells@, Some(g.fields@[0].cell), Some(Usage::Mut)));
        assert(c_mid2.len() == ctx5.cells@.len()) by {
            assert(g.fields@[0].cell < ctx0.cells@.len());
        }
        assert(c_mid2[cay as int] is None) by {
            assert(g.fields@[0].cell != cay);
        }
        assert(af.last() == af[1]);
        assert(af[1].cell == cay);
        assert(af[1].requested == Some(Usage::Mut) && !af[1].disabled && af[1].enabled);
        assert(af[1].tracker == Some(t_outer));
        assert(drop_fields_cells(ctx5.cells@, af) =~= drop_field_cells(c_mid2, af[1]));
        assert(drop_fields_entries(ctx5.cells@, af, t_outer) =~= seq![e_outer_x, e_outer_y]);
        let es2 = ctx5.trackers@[t_outer as int].entries@ + seq![e_outer_x, e_outer_y];
        assert(t_outer != t_inner && t_outer != b_rest.tracker);
        assert(ctx5.trackers@[t_outer as int] == ctx2.trackers@[t_outer as int]);
        assert(ctx2.trackers@[t_outer as int] == ctx1.trackers@[t_outer as int]);
        assert(ctx1.trackers@[t_outer as int].entries@.len() == 0);
        assert(es2 =~= seq![e_outer_x, e_outer_y]);
        assert(ctx6.trackers@[t_outer as int].entries@ =~= es2);
        assert(!usage_le(es2[1].1.requested, es2[1].1.needed));
        assert(es2[0].1.needed is Some);
        crate::report::lemma_report_exactly_when(loc_outer@, es2);
        assert(crate::report::tracker_report(loc_outer@, es2) is Some);
        assert(ctx5.trackers@[t_outer as int].loc@ == loc_outer@);
        assert(sink.count == 2);
        assert(sink.spec_lines() =~= seq![
            crate::report::tracker_report(
                loc_inner@,
                ctx5.trackers@[t_inner as int].entries@,
            )->0,
            crate::report::tracker_report(loc_outer@, es2)->0,
        ]);
        assert(ctx6.trackers@[t_inner as int] == ctx5.trackers@[t_inner as int]);
        assert(a_rest.wf(ctx6)) by {
            assert(a_rest.fields@[0].wf(ctx1) && a_rest.fields@[1].wf(ctx1));
        }
    }
    drop_struct(ctx, a_rest, sink);
    let ghost ctx7 = *ctx;
    proof {
        lemma_drop_entries_disabled(ctx6.cells@, a_rest.fields@, a_rest.tracker);
        assert(a_rest.tracker != t_inner && a_rest.tracker != b_rest.tracker && a_rest.tracker
            != t_outer);
        assert(ctx6.trackers@[a_rest.tracker as int] == ctx2.trackers@[a_rest.tracker as int]);
        assert(ctx2.trackers@[a_rest.tracker as int] == ctx1.trackers@[a_rest.tracker as int]);
        assert(ctx1.trackers@[a_rest.tracker as int].entries@.len() == 0);
        assert(ctx6.trackers@[a_rest.tracker as int].entries@ + drop_fields_entries(
            ctx6.cells@,
            a_rest.fields@,
            a_rest.tracker,
        ) =~= Seq::<(String, UsageResult)>::empty());
        lemma_empty_report(ctx6.trackers@[a_rest.tracker as int].loc@);
        assert(sink.count == 2);
        assert(ctx7.trackers@[t_inner as int] == ctx6.trackers@[t_inner as int]);
        assert(ctx7.trackers@[t_outer as int] == ctx6.trackers@[t_outer as int]);
        assert(g.wf(ctx7)) by {
            assert(g.fields@[0].wf(ctx0) && g.fields@[1].wf(ctx0));
        }
    }
    drop_struct(ctx, g, sink);
    proof {
        lemma_drop_entries_disabled(ctx7.cells@, g.fields@, g.tracker);
        assert(g.tracker != t_inner && g.tracker != b_rest.tracker && g.tracker != t_outer
            && g.tracker != a_rest.tracker);
        assert(ctx.trackers@[g.tracker as int].entries@ =~= ctx0.trackers@[g.tracker
            as int].entries@ + drop_fields_entries(ctx7.cells@, g.fields@, g.tracker));
        assert(ctx0.trackers@[g.tracker as int].entries@.len() == 0);
        assert(ctx7.trackers@[g.tracker as int].entries@ + drop_fields_entries(
            ctx7.cells@,
            g.fields@,
            g.tracker,
        ) =~= Seq::<(String, UsageResult)>::empty());
        lemma_empty_report(ctx7.trackers@[g.tracker as int].loc@);
        assert(sink.count == 2);
        assert(ctx.trackers@[t_inner as int] == ctx7.trackers@[t_inner as int]);
        assert(ctx.trackers@[t_outer as int] == ctx7.trackers@[t_outer as int]);
        assert(ctx.trackers@[t_inner as int].entries@ =~= seq![e_inner]);
        assert(ctx.trackers@[t_outer as int].entries@ =~= seq![e_outer_x, e_outer_y]);
        assert(e_inner.0@ == label_x@);
        assert(e_outer_x.0@ == label_x@ && e_outer_y.0@ == label_y@);
    }
    (t_inner, t_outer)
}

} // verus!
