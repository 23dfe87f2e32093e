//! The location table: a registry that gives each distinct instrumented
//! program point a stable index, in first-registration order, and keeps the
//! display name of every function it has seen.
use vstd::prelude::*;
use std::collections::HashMap;
use indexmap::IndexSet;
use crate::mir::Location;
use crate::mir_loc::{EventMetadata, Func, Metadata, MirLoc, MirLocView};

verus! {

broadcast use vstd::std_specs::hash::group_hash_axioms;

#[verifier::external_type_specification]
#[verifier::external_body]
#[verifier::reject_recursive_types(T)]
#[verifier::reject_recursive_types(S)]
pub struct ExIndexSet<T, S>(IndexSet<T, S>);

/// The program points an insertion-ordered set holds, in insertion order.
pub uninterp spec fn loc_set_items(s: IndexSet<MirLoc>) -> Seq<MirLocView>;

/// Relies on `indexmap::IndexSet::new`: a new set is empty.
#[verifier::external_body]
fn loc_set_new() -> (r: IndexSet<MirLoc>)
    ensures
        loc_set_items(r) == Seq::<MirLocView>::empty(),
{
    IndexSet::new()
}

/// Relies on `indexmap::IndexSet::len`: the number of values held.
#[verifier::external_body]
fn loc_set_len(s: &IndexSet<MirLoc>) -> (r: usize)
    ensures
        r == loc_set_items(*s).len(),
{
    s.len()
}

/// Relies on `indexmap::IndexSet::insert_full`: where an equal value is held,
/// its index is returned and the set is unchanged; otherwise the value is
/// appended and its new index returned.
#[verifier::external_body]
fn loc_set_insert_full(s: &mut IndexSet<MirLoc>, v: MirLoc) -> (r: (usize, bool))
    ensures
        loc_set_items(*old(s)).contains(v@) ==> {
            &&& loc_set_items(*final(s)) == loc_set_items(*old(s))
            &&& r.0 < loc_set_items(*old(s)).len()
            &&& loc_set_items(*old(s))[r.0 as int] == v@
            &&& !r.1
        },
        !loc_set_items(*old(s)).contains(v@) ==> {
            &&& loc_set_items(*final(s)) == loc_set_items(*old(s)).push(v@)
            &&& r.0 == loc_set_items(*old(s)).len()
            &&& r.1
        },
{
    s.insert_full(v)
}

/// Relies on `indexmap::IndexSet::drain` over the full range: every value
/// leaves the set, in insertion order.
#[verifier::external_body]
fn loc_set_drain_all(s: &mut IndexSet<MirLoc>) -> (r: Vec<MirLoc>)
    ensures
        r@.map_values(|l: MirLoc| l@) == loc_set_items(*old(s)),
        loc_set_items(*final(s)) == Seq::<MirLocView>::empty(),
{
    s.drain(..).collect()
}

/// The registry of instrumented program points and function names, owned by
/// one compilation session.
pub struct InstrumentMemoryOps {
    mir_locs: IndexSet<MirLoc>,
    functions: HashMap<u128, String>,
}

impl InstrumentMemoryOps {
    /// The registered program points, in first-registration order.
    pub closed spec fn locs(&self) -> Seq<MirLocView> {
        loc_set_items(self.mir_locs)
    }

    /// The display name known for each function hash.
    pub closed spec fn names(&self) -> Map<u128, Seq<char>> {
        self.functions@.map_values(|s: String| s@)
    }

    /// No program point is registered twice.
    pub closed spec fn wf(&self) -> bool {
        self.locs().no_duplicates()
    }

    pub fn new() -> (r: Self)
        ensures
            r.wf(),
            r.locs() == Seq::<MirLocView>::empty(),
            r.names() == Map::<u128, Seq<char>>::empty(),
    {
        let r = InstrumentMemoryOps { mir_locs: loc_set_new(), functions: HashMap::new() };
        assert(r.names() =~= Map::<u128, Seq<char>>::empty());
        r
    }

    /// The number of registered program points.
    pub fn num_locs(&self) -> (r: usize)
        ensures
            r == self.locs().len(),
    {
        loc_set_len(&self.mir_locs)
    }

    /// Records (or replaces) the display name of a function.
    pub fn register_function(&mut self, hash: u128, name: String)
        ensures
            final(self).locs() == old(self).locs(),
            final(self).wf() == old(self).wf(),
            final(self).names() == old(self).names().insert(hash, name@),
    {
        self.functions.insert(hash, name);
        assert(self.names() =~= old(self).names().insert(hash, name@));
    }

    /// The display name known for a function, if any.
    pub fn function_name(&self, hash: u128) -> (r: Option<String>)
        ensures
            r matches Some(s) ==> self.names().contains_key(hash) && s@ == self.names()[hash],
            r is None ==> !self.names().contains_key(hash),
    {
        match self.functions.get(&hash) {
            Some(s) => Some(s.clone()),
            None => None,
        }
    }

    /// The index of a program point of function `body_def`: the index it
    /// already has where an equal record is registered, otherwise the next
    /// index, under which the record is appended.
    pub fn get_mir_loc_idx(&mut self, body_def: u128, location: Location, metadata: EventMetadata) -> (r: u32)
        requires
            old(self).wf(),
            old(self).names().contains_key(body_def),
            old(self).locs().len() < u32::MAX,
        ensures
            final(self).wf(),
            final(self).names() == old(self).names(),
            (final(self).locs(), r as int) == registered(
                old(self).locs(),
                MirLocView {
                    func_hash: body_def,
                    func_name: old(self).names()[body_def],
                    block: location.block,
                    statement: location.statement_index,
                    metadata: metadata@,
                },
            ),
    {
        let name = match self.function_name(body_def) {
            Some(s) => s,
            None => String::new(),
        };
        let mir_loc = MirLoc {
            func: Func { def_path_hash: body_def, name },
            basic_block_idx: location.block,
            statement_idx: location.statement_index,
            metadata,
        };
        let ghost before = self.locs();
        let (idx, _) = loc_set_insert_full(&mut self.mir_locs, mir_loc);
        proof {
            if before.contains(mir_loc@) {
                let k = choose|i: int| 0 <= i < before.len() && before[i] == mir_loc@;
                assert(before[idx as int] == mir_loc@);
                assert(k == idx as int);
            } else {
                assert forall|i: int, j: int|
                    0 <= i < j < self.locs().len() implies self.locs()[i] != self.locs()[j] by {
                    if j == before.len() {
                        assert(self.locs()[i] == before[i]);
                    }
                }
            }
        }
        idx as u32
    }

    /// Drains the registry into the metadata artifact: every program point in
    /// first-registration order, and every known function name. The registry
    /// is empty afterwards.
    pub fn finalize(&mut self) -> (r: Metadata)
        ensures
            r.locs@.map_values(|l: MirLoc| l@) == old(self).locs(),
            r.functions@.map_values(|s: String| s@) == old(self).names(),
            final(self).locs() == Seq::<MirLocView>::empty(),
            final(self).names() == Map::<u128, Seq<char>>::empty(),
            final(self).wf(),
    {
        let locs = loc_set_drain_all(&mut self.mir_locs);
        let mut functions: HashMap<u128, String> = HashMap::new();
        std::mem::swap(&mut functions, &mut self.functions);
        assert(self.names() =~= Map::<u128, Seq<char>>::empty());
        Metadata { locs, functions }
    }
}

/// The table and the index that registering `rec` in the table `locs`
/// gives: the index of an equal record already held, or the next index with
/// `rec` appended.
pub open spec fn registered(locs: Seq<MirLocView>, rec: MirLocView) -> (Seq<MirLocView>, int) {
    if locs.contains(rec) {
        (locs, choose|i: int| 0 <= i < locs.len() && locs[i] == rec)
    } else {
        (locs.push(rec), locs.len() as int)
    }
}

/// The table and the indices that registering `recs` one after another,
/// starting from the table `locs`, gives.
pub open spec fn register_all(locs: Seq<MirLocView>, recs: Seq<MirLocView>) -> (Seq<MirLocView>, Seq<int>)
    decreases recs.len(),
{
    if recs.len() == 0 {
        (locs, Seq::empty())
    } else {
        let prev = register_all(locs, recs.drop_last());
        let next = registered(prev.0, recs.last());
        (next.0, prev.1.push(next.1))
    }
}

/// Registering the same record `n` times yields the same index every time,
/// and the table holds it once.
pub proof fn lemma_register_repeated(locs: Seq<MirLocView>, rec: MirLocView, n: nat)
    requires
        locs.no_duplicates(),
    ensures
        ({
            let once = registered(locs, rec);
            let all = register_all(locs, Seq::new(n, |k: int| rec));
            &&& all.1.len() == n
            &&& forall|k: int| 0 <= k < n ==> all.1[k] == once.1
            &&& n > 0 ==> all.0 == once.0
            &&& n == 0 ==> all.0 == locs
        }),
    decreases n,
{
    let once = registered(locs, rec);
    let recs = Seq::new(n, |k: int| rec);
    if n > 0 {
        assert(recs.drop_last() =~= Seq::new((n - 1) as nat, |k: int| rec));
        lemma_register_repeated(locs, rec, (n - 1) as nat);
        let prev = register_all(locs, recs.drop_last());
        if n > 1 {
            assert(prev.0 == once.0);
            assert(once.0.contains(rec)) by {
                if locs.contains(rec) {
                } else {
                    assert(once.0[locs.len() as int] == rec);
                }
            }
            let k1 = choose|i: int| 0 <= i < once.0.len() && once.0[i] == rec;
            if locs.contains(rec) {
                let k0 = choose|i: int| 0 <= i < locs.len() && locs[i] == rec;
                assert(k0 == k1);
            } else {
                assert(once.0[locs.len() as int] == rec);
                assert(once.0.no_duplicates()) by {
                    assert forall|i: int, j: int| 0 <= i < j < once.0.len() implies once.0[i] != once.0[j] by {
                        if j == locs.len() {
                            assert(once.0[i] == locs[i]);
                        }
                    }
                }
                assert(k1 == locs.len());
            }
        } else {
            assert(prev.0 == locs);
        }
    }
}

/// Registering `k` distinct records, starting from an empty table, yields a
/// table of exactly those records in registration order, the i-th having
/// index i.
pub proof fn lemma_register_distinct(recs: Seq<MirLocView>)
    requires
        recs.no_duplicates(),
    ensures
        register_all(Seq::empty(), recs).0 == recs,
        register_all(Seq::empty(), recs).1 == Seq::new(recs.len(), |i: int| i),
    decreases recs.len(),
{
    if recs.len() > 0 {
        let init = recs.drop_last();
        assert(init.no_duplicates());
        lemma_register_distinct(init);
        let prev = register_all(Seq::<MirLocView>::empty(), init);
        assert(!init.contains(recs.last())) by {
            if init.contains(recs.last()) {
                let i = choose|i: int| 0 <= i < init.len() && init[i] == recs.last();
                assert(recs[i] == recs[recs.len() - 1]);
            }
        }
        assert(init.push(recs.last()) =~= recs);
        assert(prev.1.push(init.len() as int) =~= Seq::new(recs.len(), |i: int| i));
    }
}

} // verus!
