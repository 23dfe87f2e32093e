//! The instrumentation pass over one function: collect its points, order
//! them, and rewrite the body.
use vstd::prelude::*;
use crate::collect::{CollectError, body_points, collect_points, numbered, shapes, unnumbered};
use crate::location_table::InstrumentMemoryOps;
use crate::mir::{Body, BodyView, FnRef};
use crate::points::{
    HookKind, Hooks, InstrumentationPoint, NUM_HOOKS, PointView, RuntimeFn, hook_named, in_application_order,
    into_application_order, resolves,
};
use crate::rewrite::{
    RewriteError, applicable, apply_all, apply_instrumentation, entry_instrumented, entry_ok, instrument_entry_fn,
    point_recorded, points_view,
};

verus! {

/// Why a function could not be instrumented.
#[derive(Clone, Copy, Debug, PartialEq, Eq, Structural)]
pub enum InstrumentError {
    /// The runtime does not define this hook.
    MissingHook(HookKind),
    Collect(CollectError),
    Rewrite(RewriteError),
}

/// Whether `ordered` holds the points `pts`, numbered in visiting order, in
/// application order.
pub open spec fn application_order_of(pts: Seq<PointView>, ordered: Seq<InstrumentationPoint>) -> bool {
    exists|ps: Seq<InstrumentationPoint>| {
        &&& numbered(ps)
        &&& shapes(ps) == pts
        &&& ordered.to_multiset() == ps.to_multiset()
        &&& in_application_order(ordered)
    }
}

/// The body after applying the points in application order, with indices
/// `idxs`, and then, for the entry function, starting and ending the
/// runtime.
pub open spec fn rewritten(prev: BodyView, hooks: Hooks, ordered: Seq<InstrumentationPoint>, idxs: Seq<u32>, is_entry: bool, new: BodyView) -> bool {
    let applied = apply_all(prev, hooks, points_view(ordered), idxs, ordered.len() as int);
    if is_entry {
        entry_instrumented(applied, new, hooks)
    } else {
        new == applied
    }
}

/// Whether the points `pts` can be applied in application order, whatever
/// indices they get, with room for them in a table of `table_len` records;
/// and, for the entry function, the runtime can then be started and ended.
pub open spec fn rewritable(prev: BodyView, hooks: Hooks, pts: Seq<PointView>, table_len: nat, is_entry: bool) -> bool {
    &&& table_len + pts.len() <= u32::MAX
    &&& forall|ordered: Seq<InstrumentationPoint>| #[trigger] application_order_of(pts, ordered) ==> {
        &&& applicable(prev, hooks, points_view(ordered))
        &&& is_entry ==> forall|idxs: Seq<u32>| idxs.len() == ordered.len()
            ==> #[trigger] entry_ok(apply_all(prev, hooks, points_view(ordered), idxs, ordered.len() as int))
    }
}

proof fn lemma_sorted_covers(orig: Seq<InstrumentationPoint>, sorted: Seq<InstrumentationPoint>, k: int)
    requires
        sorted.to_multiset() == orig.to_multiset(),
        0 <= k < orig.len(),
    ensures
        exists|j: int| 0 <= j < sorted.len() && sorted[j] == orig[k],
{
    broadcast use vstd::seq_lib::group_to_multiset_ensures;
    assert(orig.contains(orig[k]));
    assert(orig.to_multiset().count(orig[k]) > 0);
    assert(sorted.contains(orig[k]));
}

/// Instruments a body of function `body_hash`: collects its points, puts them
/// in reverse program order and applies them; for the program's entry
/// function, also starts and ends the runtime. Nothing is rewritten where the
/// points cannot be collected; the rest succeeds whenever the points can be
/// applied.
pub fn instrument_body(
    state: &mut InstrumentMemoryOps,
    hooks: &Hooks,
    body: &mut Body,
    body_hash: u128,
    is_entry: bool,
) -> (r: Result<(), InstrumentError>)
    requires
        old(state).wf(),
        old(state).names().contains_key(body_hash),
        hooks.wf(),
    ensures
        final(state).wf(),
        final(state).names().contains_key(body_hash),
        forall|h: u128| old(state).names().contains_key(h) ==> #[trigger] final(state).names().contains_key(h),
        !(r matches Err(InstrumentError::MissingHook(_))),
        body_points(old(body)@, body_hash) is None <==> r matches Err(InstrumentError::Collect(_)),
        body_points(old(body)@, body_hash) is None ==> final(body)@ == old(body)@ && *final(state) == *old(state),
        body_points(old(body)@, body_hash) matches Some(pts) && rewritable(old(body)@, *hooks, pts, old(state).locs().len(), is_entry)
            ==> r is Ok,
        r is Ok ==> {
            let pts = body_points(old(body)@, body_hash).unwrap();
            &&& forall|k: int| 0 <= k < pts.len() ==> #[trigger] point_recorded(final(state).locs(), body_hash, pts[k])
            &&& !is_entry ==> final(body)@.blocks.len() == old(body)@.blocks.len() + pts.len()
            &&& exists|ordered: Seq<InstrumentationPoint>, idxs: Seq<u32>| {
                &&& application_order_of(pts, ordered)
                &&& idxs.len() == ordered.len()
                &&& rewritten(old(body)@, *hooks, ordered, idxs, is_entry, final(body)@)
            }
        },
{
    let points = match collect_points(body, body_hash) {
        Ok(p) => p,
        Err(e) => {
            return Err(InstrumentError::Collect(e));
        },
    };
    let ghost collected = points@;
    let ghost pts = body_points(old(body)@, body_hash).unwrap();
    let ordered = into_application_order(points);
    proof {
        vstd::seq_lib::to_multiset_len(ordered@);
        vstd::seq_lib::to_multiset_len(collected);
        assert(application_order_of(pts, ordered@));
        assert(ordered@.len() == pts.len());
    }
    let idxs = match apply_instrumentation(state, &ordered, hooks, body, body_hash) {
        Ok(v) => v,
        Err(e) => {
            return Err(InstrumentError::Rewrite(e));
        },
    };
    let ghost applied = body@;
    proof {
        assert forall|k: int| 0 <= k < pts.len() implies #[trigger] point_recorded(state.locs(), body_hash, pts[k]) by {
            assert(pts[k] == unnumbered(collected[k]@));
            lemma_sorted_covers(collected, ordered@, k);
            let j = choose|j: int| 0 <= j < ordered@.len() && ordered@[j] == collected[k];
            assert(point_recorded(state.locs(), body_hash, ordered@[j]@));
        }
        if body_points(old(body)@, body_hash) matches Some(p) && rewritable(old(body)@, *hooks, p, old(state).locs().len(), is_entry) {
            assert(entry_ok(apply_all(old(body)@, *hooks, points_view(ordered@), idxs@, ordered@.len() as int)) || !is_entry);
        }
    }
    if is_entry {
        match instrument_entry_fn(hooks, body) {
            Ok(()) => {},
            Err(e) => {
                return Err(InstrumentError::Rewrite(e));
            },
        }
    }
    assert(rewritten(old(body)@, *hooks, ordered@, idxs@, is_entry, body@));
    Ok(())
}

/// Whether every hook is present, the points of the body of function
/// `hash` can be collected, and, whichever functions the hooks resolve to,
/// applied.
pub open spec fn fn_rewritable(runtime: Seq<RuntimeFn>, prev: BodyView, hash: u128, table_len: nat, is_entry: bool) -> bool {
    &&& forall|m: int| 0 <= m < NUM_HOOKS ==> #[trigger] hook_named(runtime, m)
    &&& body_points(prev, hash) is Some
    &&& forall|h: Hooks| #[trigger] resolves(runtime, h)
        ==> rewritable(prev, h, body_points(prev, hash).unwrap(), table_len, is_entry)
}

impl InstrumentMemoryOps {
    /// Instruments the body of function `func` in place. The runtime's hooks
    /// are resolved first: where one is missing nothing is rewritten or
    /// registered. `is_entry` marks the program's entry function. Succeeds
    /// whenever every hook is present and the body's points can be applied.
    pub fn instrument_fn(&mut self, runtime: &Vec<RuntimeFn>, body: &mut Body, func: &FnRef, is_entry: bool) -> (r: Result<(), InstrumentError>)
        requires
            old(self).wf(),
        ensures
            final(self).wf(),
            r matches Err(InstrumentError::MissingHook(k)) ==> {
                &&& final(body)@ == old(body)@
                &&& *final(self) == *old(self)
                &&& !exists|j: int| 0 <= j < runtime@.len() && runtime@[j].func.name@ == k.spec_name()
            },
            (forall|m: int| 0 <= m < NUM_HOOKS ==> #[trigger] hook_named(runtime@, m)) <==> !(r matches Err(InstrumentError::MissingHook(_))),
            body_points(old(body)@, func.hash) is None ==> r is Err && final(body)@ == old(body)@,
            fn_rewritable(runtime@, old(body)@, func.hash, old(self).locs().len(), is_entry) ==> r is Ok,
            r is Ok ==> {
                let pts = body_points(old(body)@, func.hash).unwrap();
                &&& body_points(old(body)@, func.hash) is Some
                &&& final(self).names().contains_key(func.hash)
                &&& final(self).names()[func.hash] == func.name@
                &&& forall|k: int| 0 <= k < pts.len() ==> #[trigger] point_recorded(final(self).locs(), func.hash, pts[k])
                &&& !is_entry ==> final(body)@.blocks.len() == old(body)@.blocks.len() + pts.len()
                &&& exists|h: Hooks, ordered: Seq<InstrumentationPoint>, idxs: Seq<u32>| {
                    &&& resolves(runtime@, h)
                    &&& application_order_of(pts, ordered)
                    &&& idxs.len() == ordered.len()
                    &&& rewritten(old(body)@, h, ordered, idxs, is_entry, final(body)@)
                }
            },
    {
        let hooks = match Hooks::resolve(runtime) {
            Ok(h) => h,
            Err(k) => {
                return Err(InstrumentError::MissingHook(k));
            },
        };
        self.register_function(func.hash, func.name.clone());
        let r = instrument_body(self, &hooks, body, func.hash, is_entry);
        if r.is_ok() {
            // A callee sharing the function's hash may have renamed it.
            self.register_function(func.hash, func.name.clone());
            assert(self.names().contains_key(func.hash));
        }
        r
    }
}

} // verus!
