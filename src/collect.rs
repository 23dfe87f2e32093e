//! The instrumentation point collector: walks a function body once and
//! produces, in visiting order, a request for every hook call that its
//! pointer operations need.
use vstd::prelude::*;
use crate::mir::{
    BasicBlockData, BlockView, Body, BodyView, BorrowKind, Callee, CalleeView, Constant, IntTy,
    Location, Operand, OperandView, Place, PlaceView, Projection, Rvalue, RvalueView, Statement,
    StatementView, Terminator, TerminatorView, Ty, local_ty, remove_outer_deref, strip_all_deref,
    has_deref,
};
use crate::mir_loc::{EventMetadataView, MirPlaceView, TransferKind, mir_place_of, to_mir_place};
use crate::points::{
    ArgView, HookKind, InstrumentationArg, InstrumentationPoint, PointView, arg_of_type,
    memory_primitive, memory_primitive_named, args_view,
};
use crate::rewrite::make_const;

verus! {

/// Why the points of a body could not be collected.
#[derive(Clone, Copy, Debug, PartialEq, Eq, Structural)]
pub enum CollectError {
    /// A value that a hook must receive is neither an integer nor a pointer.
    UncastableOperand,
    /// A call passes more arguments than locals can be numbered for.
    TooManyArguments,
}

/// A point as the collector describes it, before it is numbered.
pub open spec fn point(
    loc: Location,
    func: HookKind,
    args: Seq<ArgView>,
    source: Option<MirPlaceView>,
    dest: Option<MirPlaceView>,
    transfer: TransferKind,
    after_call: bool,
) -> PointView {
    PointView {
        id: 0,
        loc,
        func,
        args,
        is_cleanup: false,
        after_call,
        metadata: EventMetadataView { source, destination: dest, transfer_kind: transfer },
    }
}

/// The same block, at statement `i`.
pub open spec fn at(loc: Location, i: int) -> Location {
    Location { block: loc.block, statement_index: i as usize }
}

pub open spec fn const_u32(v: u32) -> OperandView {
    OperandView::Constant(Constant { value: v as u128, ty: Ty::Int(IntTy::U32) })
}

pub open spec fn unnumbered(p: PointView) -> PointView {
    PointView { id: 0, ..p }
}

/// The points without their numbers.
pub open spec fn shapes(ps: Seq<InstrumentationPoint>) -> Seq<PointView> {
    ps.map_values(|p: InstrumentationPoint| unnumbered(p@))
}

/// Each point is numbered by its position.
pub open spec fn numbered(ps: Seq<InstrumentationPoint>) -> bool {
    forall|i: int| 0 <= i < ps.len() ==> #[trigger] ps[i].id == i
}

pub open spec fn opt_place_view(p: Option<&Place>) -> Option<PlaceView> {
    match p {
        Some(q) => Some(q@),
        None => None,
    }
}

pub open spec fn opt_mir(p: Option<PlaceView>) -> Option<MirPlaceView> {
    match p {
        Some(q) => Some(mir_place_of(q)),
        None => None,
    }
}

/// The field-projection points of `place` for its first `k` projections: one
/// for each field projection, which receives the base pointer and the field
/// index. The last projection's point also names the destination `dest` of
/// the assignment being read for, if any.
pub open spec fn field_points(locals: Seq<Ty>, place: PlaceView, loc: Location, dest: Option<PlaceView>, k: int) -> Seq<PointView>
    decreases k,
{
    if k <= 0 || k > place.projection.len() {
        Seq::empty()
    } else {
        let prev = field_points(locals, place, loc, dest, k - 1);
        match place.projection[k - 1] {
            Projection::Field(f, _) => prev.push(
                point(
                    loc,
                    HookKind::PtrField,
                    seq![
                        arg_of_type(OperandView::Copy(PlaceView::local_only(place.local)), local_ty(locals, place.local)).unwrap(),
                        ArgView::AddressUsize(const_u32(f)),
                    ],
                    Some(mir_place_of(place)),
                    if k == place.projection.len() { opt_mir(dest) } else { None },
                    TransferKind::NoTransfer,
                    false,
                ),
            ),
            _ => prev,
        }
    }
}

/// The points for a place that is used: field projections through a
/// pointer-typed local are traced.
pub open spec fn place_points(locals: Seq<Ty>, place: PlaceView, loc: Location, dest: Option<PlaceView>) -> Seq<PointView> {
    if local_ty(locals, place.local).is_pointer() {
        field_points(locals, place, loc, dest, place.projection.len() as int)
    } else {
        Seq::empty()
    }
}

pub open spec fn operand_points(locals: Seq<Ty>, op: OperandView, loc: Location, dest: Option<PlaceView>) -> Seq<PointView> {
    match op.place() {
        Some(p) => place_points(locals, p, loc, dest),
        None => Seq::empty(),
    }
}

pub open spec fn operands_points(locals: Seq<Ty>, ops: Seq<OperandView>, loc: Location, dest: Option<PlaceView>) -> Seq<PointView>
    decreases ops.len(),
{
    if ops.len() == 0 {
        Seq::empty()
    } else {
        operands_points(locals, ops.drop_last(), loc, dest) + operand_points(locals, ops.last(), loc, dest)
    }
}

/// The points for the places that a right-hand side reads, in order.
pub open spec fn rvalue_points(locals: Seq<Ty>, rv: RvalueView, loc: Location, dest: Option<PlaceView>) -> Seq<PointView> {
    match rv {
        RvalueView::Use(o) => operand_points(locals, o, loc, dest),
        RvalueView::Repeat(o, _) => operand_points(locals, o, loc, dest),
        RvalueView::Ref(_, p) => place_points(locals, p, loc, dest),
        RvalueView::AddressOf(_, p) => place_points(locals, p, loc, dest),
        RvalueView::Len(p) => place_points(locals, p, loc, dest),
        RvalueView::Cast(o, _) => operand_points(locals, o, loc, dest),
        RvalueView::BinaryOp(a, b, _) => operand_points(locals, a, loc, dest) + operand_points(locals, b, loc, dest),
        RvalueView::UnaryOp(o, _) => operand_points(locals, o, loc, dest),
        RvalueView::Discriminant(p, _) => place_points(locals, p, loc, dest),
        RvalueView::Aggregate(os, _) => operands_points(locals, os, loc, dest),
        RvalueView::Other(_) => Seq::empty(),
    }
}

/// A single point, if its argument can be passed to a hook.
pub open spec fn one_point(
    a: Option<ArgView>,
    loc: Location,
    func: HookKind,
    source: Option<MirPlaceView>,
    dest: Option<MirPlaceView>,
    transfer: TransferKind,
) -> Option<Seq<PointView>> {
    match a {
        Some(x) => Some(seq![point(loc, func, seq![x], source, dest, transfer, false)]),
        None => None,
    }
}

pub open spec fn cat(a: Option<Seq<PointView>>, b: Option<Seq<PointView>>) -> Option<Seq<PointView>> {
    match (a, b) {
        (Some(x), Some(y)) => Some(x + y),
        _ => None,
    }
}

/// The place a pointer is loaded through: its base local.
pub open spec fn load_point(locals: Seq<Ty>, p: PlaceView, loc: Location) -> Option<Seq<PointView>> {
    one_point(
        arg_of_type(OperandView::Copy(PlaceView::local_only(p.local)), local_ty(locals, p.local)),
        loc,
        HookKind::PtrLoad,
        Some(mir_place_of(p.without_outer_deref())),
        None,
        TransferKind::NoTransfer,
    )
}

/// A read through a pointer on the right-hand side is traced as a load.
pub open spec fn load_points(locals: Seq<Ty>, rv: RvalueView, loc: Location) -> Option<Seq<PointView>> {
    match rv {
        RvalueView::Use(o) => match o.place() {
            Some(p) => if p.is_indirect() { load_point(locals, p, loc) } else { Some(Seq::empty()) },
            None => Some(Seq::empty()),
        },
        RvalueView::AddressOf(_, p) => if !local_ty(locals, p.local).is_region_ptr() && p.is_indirect() {
            load_point(locals, p, loc)
        } else {
            Some(Seq::empty())
        },
        _ => Some(Seq::empty()),
    }
}

/// The number of projections before the first dereference.
pub open spec fn deref_free_len(ps: Seq<Projection>) -> int {
    if has_deref(ps) {
        choose|k: int| 0 <= k < ps.len() && ps[k] is Deref && forall|j: int| 0 <= j < k ==> !(ps[j] is Deref)
    } else {
        ps.len() as int
    }
}

/// The pointer that a place is reached through: its prefix before the first
/// dereference.
pub open spec fn deref_base(p: PlaceView) -> PlaceView {
    PlaceView { local: p.local, projection: p.projection.subrange(0, deref_free_len(p.projection)) }
}

/// The place that a cast to an integer reads directly, if `rv` is one.
pub open spec fn int_cast_source(locals: Seq<Ty>, rv: RvalueView) -> Option<PlaceView> {
    match rv {
        RvalueView::Cast(o, t) => match o.place() {
            Some(p) => if t.is_integral() && !p.is_indirect() { Some(p) } else { None },
            None => None,
        },
        _ => None,
    }
}

/// A store through a pointer; a stored pointer is traced as well.
pub open spec fn store_rule(locals: Seq<Ty>, dest: PlaceView, rv: RvalueView, loc: Location) -> Option<Seq<PointView>> {
    let base = deref_base(dest);
    let store = one_point(
        arg_of_type(OperandView::Copy(base), base.ty(locals)),
        loc,
        HookKind::PtrStore,
        Some(mir_place_of(dest.without_outer_deref())),
        None,
        TransferKind::NoTransfer,
    );
    if rv.ty(locals).is_pointer() {
        cat(store, one_point(
            arg_of_type(OperandView::Copy(dest), dest.ty(locals)),
            at(loc, loc.statement_index + 1),
            HookKind::StoreValue,
            opt_mir(rv.single_place()),
            Some(mir_place_of(dest)),
            TransferKind::NoTransfer,
        ))
    } else {
        store
    }
}

/// A pointer cast to an integer, read from the place `p`.
pub open spec fn int_cast_rule(locals: Seq<Ty>, p: PlaceView, loc: Location) -> Option<Seq<PointView>> {
    if p.ty(locals).is_pointer() {
        one_point(
            arg_of_type(OperandView::Copy(PlaceView::local_only(p.local)), local_ty(locals, p.local)),
            loc,
            HookKind::PtrToInt,
            Some(mir_place_of(p)),
            None,
            TransferKind::NoTransfer,
        )
    } else {
        Some(Seq::empty())
    }
}

/// The rules for an assignment of a pointer value to a place reached
/// without dereferencing.
pub open spec fn pointer_rule(locals: Seq<Ty>, dest: PlaceView, rv: RvalueView, loc: Location) -> Option<Seq<PointView>> {
    let dest_ty = dest.ty(locals);
    let next = at(loc, loc.statement_index + 1);
    let d = Some(mir_place_of(dest));
    match rv {
        RvalueView::AddressOf(_, p) => Some(seq![
            point(
                next,
                HookKind::AddrOfLocal,
                seq![ArgView::RawPtr(OperandView::Copy(dest)), ArgView::AddressUsize(const_u32(p.local))],
                Some(mir_place_of(p)),
                d,
                TransferKind::NoTransfer,
                false,
            ),
        ]),
        RvalueView::Use(o) => match o.place() {
            Some(p) => if p.is_indirect() {
                // A pointer loaded through a pointer.
                one_point(arg_of_type(OperandView::Copy(dest), dest_ty), next, HookKind::LoadValue, None, d, TransferKind::NoTransfer)
            } else {
                one_point(arg_of_type(OperandView::Copy(dest), dest_ty), next, HookKind::PtrCopy, Some(mir_place_of(p)), d, TransferKind::NoTransfer)
            },
            None => Some(Seq::empty()),
        },
        RvalueView::Cast(o, _) => one_point(
            arg_of_type(OperandView::Copy(dest), dest_ty),
            next,
            if o.ty(locals).is_integral() { HookKind::PtrContrive } else { HookKind::PtrCopy },
            opt_mir(o.place()),
            d,
            TransferKind::NoTransfer,
        ),
        RvalueView::Ref(bk, p) => {
            let (l, a) = if bk == BorrowKind::Mut {
                (loc, ArgView::Place(OperandView::Copy(p)))
            } else {
                (next, ArgView::Reference(OperandView::Copy(dest)))
            };
            if p.has_outer_deref() {
                // A reborrow or a reference to a field behind a pointer.
                Some(seq![point(l, HookKind::PtrCopy, seq![a], Some(mir_place_of(p.without_outer_deref())), d, TransferKind::NoTransfer, false)])
            } else if !p.is_indirect() {
                // A borrow of a local.
                Some(seq![
                    point(
                        l,
                        HookKind::AddrOfLocal,
                        seq![a, ArgView::AddressUsize(const_u32(p.local))],
                        Some(mir_place_of(p)),
                        d,
                        TransferKind::NoTransfer,
                        false,
                    ),
                ])
            } else {
                Some(Seq::empty())
            }
        },
        _ => Some(Seq::empty()),
    }
}

/// The points of the rule that classifies an assignment `dest = rv`; the
/// first rule that matches decides.
#[verifier::opaque]
pub open spec fn rule_points(locals: Seq<Ty>, dest: PlaceView, rv: RvalueView, loc: Location) -> Option<Seq<PointView>> {
    if dest.is_indirect() {
        store_rule(locals, dest, rv, loc)
    } else if int_cast_source(locals, rv) is Some {
        int_cast_rule(locals, int_cast_source(locals, rv).unwrap(), loc)
    } else if !rv.ty(locals).is_pointer() {
        Some(Seq::empty())
    } else {
        pointer_rule(locals, dest, rv, loc)
    }
}

/// All points of the assignment `dest = rv` at `loc`, in the order they are
/// produced: field projections read by the right-hand side, then those of
/// the destination, then a load, then the classifying rule's points.
#[verifier::opaque]
pub open spec fn assign_points(locals: Seq<Ty>, dest: PlaceView, rv: RvalueView, loc: Location) -> Option<Seq<PointView>> {
    cat(
        Some(rvalue_points(locals, rv, loc, Some(dest)) + place_points(locals, dest, loc, None)),
        cat(load_points(locals, rv, loc), rule_points(locals, dest, rv, loc)),
    )
}

/// Appends a point, numbered after those already there.
fn push_point(points: &mut Vec<InstrumentationPoint>, p: InstrumentationPoint)
    requires
        numbered(old(points)@),
    ensures
        numbered(final(points)@),
        shapes(final(points)@) == shapes(old(points)@).push(unnumbered(p@)),
{
    let ghost before = points@;
    p.add(points);
    proof {
        assert forall|i: int| 0 <= i < points@.len() implies #[trigger] points@[i].id == i by {
            if i < before.len() {
                assert(points@[i] == points@.subrange(0, before.len() as int)[i]);
                assert(points@[i] == before[i]);
                assert(before[i].id == i);
            } else {
                assert(points@[i] == points@.last());
                assert(points@.last().id == before.len());
            }
        }
        assert(points@.subrange(0, before.len() as int) == before);
        assert(shapes(points@) =~= shapes(before).push(unnumbered(p@))) by {
            assert forall|i: int| 0 <= i < before.len() implies shapes(points@)[i] == shapes(before)[i] by {
                assert(points@[i] == points@.subrange(0, before.len() as int)[i]);
            }
        }
    }
}

/// Traces the field projections of a used place whose base local is a
/// pointer.
fn visit_place(locals: &Vec<Ty>, place: &Place, loc: Location, dest: Option<&Place>, points: &mut Vec<InstrumentationPoint>)
    requires
        numbered(old(points)@),
    ensures
        numbered(final(points)@),
        shapes(final(points)@) == shapes(old(points)@) + place_points(locals@, place@, loc, opt_place_view(dest)),
{
    let base_ty = if (place.local as usize) < locals.len() {
        locals[place.local as usize].duplicate()
    } else {
        Ty::Other
    };
    if !base_ty.is_pointer_exec() {
        assert(shapes(points@) =~= shapes(old(points)@) + Seq::<PointView>::empty());
        return;
    }
    let n = place.projection.len();
    let ghost start = shapes(points@);
    assert(shapes(points@) =~= start + field_points(locals@, place@, loc, opt_place_view(dest), 0));
    for k in 0..n
        invariant
            n == place.projection@.len(),
            numbered(points@),
            base_ty == local_ty(locals@, place.local),
            base_ty.is_pointer(),
            shapes(points@) == start + field_points(locals@, place@, loc, opt_place_view(dest), k as int),
    {
        if let Projection::Field(f, _) = &place.projection[k] {
            let d = match dest {
                Some(dp) => if k + 1 == n { Some(to_mir_place(dp)) } else { None },
                None => None,
            };
            let base_arg = InstrumentationArg::from_type(Operand::Copy(Place::from_local(place.local)), &base_ty).unwrap();
            let p = InstrumentationPoint::new(loc, HookKind::PtrField)
                .arg(base_arg)
                .arg(InstrumentationArg::AddressUsize(make_const(*f)))
                .source(Some(to_mir_place(place)));
            let p = InstrumentationPoint { metadata: crate::mir_loc::EventMetadata { destination: d, ..p.metadata }, ..p };
            let ghost expect = point(
                loc,
                HookKind::PtrField,
                seq![
                    arg_of_type(OperandView::Copy(PlaceView::local_only(place.local)), local_ty(locals@, place.local)).unwrap(),
                    ArgView::AddressUsize(const_u32(*f)),
                ],
                Some(mir_place_of(place@)),
                if k + 1 == n { opt_mir(opt_place_view(dest)) } else { None },
                TransferKind::NoTransfer,
                false,
            );
            assert(p@.args =~= expect.args);
            assert(unnumbered(p@) == expect);
            let ghost prev = shapes(points@);
            push_point(points, p);
            proof {
                assert(field_points(locals@, place@, loc, opt_place_view(dest), k + 1)
                    == field_points(locals@, place@, loc, opt_place_view(dest), k as int).push(expect));
                assert(shapes(points@) =~= start + field_points(locals@, place@, loc, opt_place_view(dest), k + 1));
            }
        } else {
            assert(field_points(locals@, place@, loc, opt_place_view(dest), k + 1)
                == field_points(locals@, place@, loc, opt_place_view(dest), k as int));
        }
    }
    assert(shapes(points@) =~= shapes(old(points)@) + place_points(locals@, place@, loc, opt_place_view(dest)));
}

fn visit_operand(locals: &Vec<Ty>, op: &Operand, loc: Location, dest: Option<&Place>, points: &mut Vec<InstrumentationPoint>)
    requires
        numbered(old(points)@),
    ensures
        numbered(final(points)@),
        shapes(final(points)@) == shapes(old(points)@) + operand_points(locals@, op@, loc, opt_place_view(dest)),
{
    match op.place() {
        Some(p) => visit_place(locals, p, loc, dest, points),
        None => {
            assert(shapes(points@) =~= shapes(old(points)@) + Seq::<PointView>::empty());
        },
    }
}

/// Visits the places that a right-hand side reads.
fn visit_rvalue(locals: &Vec<Ty>, rv: &Rvalue, loc: Location, dest: Option<&Place>, points: &mut Vec<InstrumentationPoint>)
    requires
        numbered(old(points)@),
    ensures
        numbered(final(points)@),
        shapes(final(points)@) == shapes(old(points)@) + rvalue_points(locals@, rv@, loc, opt_place_view(dest)),
{
    let ghost start = shapes(points@);
    match rv {
        Rvalue::Use(o) => visit_operand(locals, o, loc, dest, points),
        Rvalue::Repeat(o, _) => visit_operand(locals, o, loc, dest, points),
        Rvalue::Ref(_, p) => visit_place(locals, p, loc, dest, points),
        Rvalue::AddressOf(_, p) => visit_place(locals, p, loc, dest, points),
        Rvalue::Len(p) => visit_place(locals, p, loc, dest, points),
        Rvalue::Cast(o, _) => visit_operand(locals, o, loc, dest, points),
        Rvalue::BinaryOp(a, b, _) => {
            visit_operand(locals, a, loc, dest, points);
            visit_operand(locals, b, loc, dest, points);
            assert(shapes(points@) =~= start + rvalue_points(locals@, rv@, loc, opt_place_view(dest)));
        },
        Rvalue::UnaryOp(o, _) => visit_operand(locals, o, loc, dest, points),
        Rvalue::Discriminant(p, _) => visit_place(locals, p, loc, dest, points),
        Rvalue::Aggregate(os, _) => {
            let n = os.len();
            let ghost ovs = os@.map_values(|o: Operand| o@);
            assert(shapes(points@) =~= start + operands_points(locals@, ovs.subrange(0, 0), loc, opt_place_view(dest)));
            for i in 0..n
                invariant
                    n == os@.len(),
                    ovs == os@.map_values(|o: Operand| o@),
                    numbered(points@),
                    shapes(points@) == start + operands_points(locals@, ovs.subrange(0, i as int), loc, opt_place_view(dest)),
            {
                visit_operand(locals, &os[i], loc, dest, points);
                assert(ovs.subrange(0, i + 1).drop_last() =~= ovs.subrange(0, i as int));
                assert(shapes(points@) =~= start + operands_points(locals@, ovs.subrange(0, i + 1), loc, opt_place_view(dest)));
            }
            assert(ovs.subrange(0, n as int) =~= ovs);
        },
        Rvalue::Other(_) => {
            assert(shapes(points@) =~= start + Seq::<PointView>::empty());
        },
    }
}

proof fn lemma_deref_base(p: PlaceView, r: PlaceView)
    requires
        r.local == p.local,
        r.projection.len() <= p.projection.len(),
        r.projection == p.projection.subrange(0, r.projection.len() as int),
        !r.is_indirect(),
        r.projection.len() < p.projection.len() ==> p.projection[r.projection.len() as int] is Deref,
    ensures
        r == deref_base(p),
{
    let ps = p.projection;
    let l = r.projection.len() as int;
    assert forall|j: int| 0 <= j < l implies !(ps[j] is Deref) by {
        assert(r.projection[j] == ps[j]);
        if ps[j] is Deref {
            assert(has_deref(r.projection));
        }
    }
    if has_deref(ps) {
        if l == ps.len() {
            let j = choose|j: int| 0 <= j < ps.len() && ps[j] is Deref;
            assert(false);
        }
        assert(0 <= l < ps.len() && ps[l] is Deref && forall|j: int| 0 <= j < l ==> !(ps[j] is Deref));
        let k = deref_free_len(ps);
        assert(k == l) by {
            if k < l {
                assert(ps[k] is Deref);
            } else if k > l {
                assert(!(ps[l] is Deref));
            }
        }
    } else {
        if l < ps.len() {
            assert(has_deref(ps));
        }
    }
    assert(r.projection =~= deref_base(p).projection);
}

fn one_point_exec(
    a: Option<InstrumentationArg>,
    loc: Location,
    func: HookKind,
    source: Option<crate::mir_loc::MirPlace>,
    dest: Option<&Place>,
    points: &mut Vec<InstrumentationPoint>,
) -> (r: Result<(), CollectError>)
    requires
        numbered(old(points)@),
    ensures
        numbered(final(points)@),
        ({
            let expect = one_point(
                match a { Some(x) => Some(x@), None => None },
                loc,
                func,
                crate::mir_loc::opt_mir_place_view(source),
                opt_mir(opt_place_view(dest)),
                TransferKind::NoTransfer,
            );
            &&& r is Ok <==> expect is Some
            &&& r is Ok ==> shapes(final(points)@) == shapes(old(points)@) + expect.unwrap()
        }),
{
    match a {
        Some(x) => {
            let p = InstrumentationPoint::new(loc, func).arg(x).source(source);
            let p = match dest {
                Some(d) => p.dest(d),
                None => p,
            };
            assert(p@.args =~= seq![x@]);
            push_point(points, p);
            assert(shapes(points@) =~= shapes(old(points)@) + seq![unnumbered(p@)]);
            Ok(())
        },
        None => Err(CollectError::UncastableOperand),
    }
}

fn load_exec(locals: &Vec<Ty>, p: &Place, loc: Location, points: &mut Vec<InstrumentationPoint>) -> (r: Result<(), CollectError>)
    requires
        numbered(old(points)@),
    ensures
        numbered(final(points)@),
        r is Ok <==> load_point(locals@, p@, loc) is Some,
        r is Ok ==> shapes(final(points)@) == shapes(old(points)@) + load_point(locals@, p@, loc).unwrap(),
{
    let lt = if (p.local as usize) < locals.len() {
        locals[p.local as usize].duplicate()
    } else {
        Ty::Other
    };
    let a = InstrumentationArg::from_type(Operand::Copy(Place::from_local(p.local)), &lt);
    let stripped = remove_outer_deref(p);
    one_point_exec(a, loc, HookKind::PtrLoad, Some(to_mir_place(&stripped)), None, points)
}

fn visit_store(locals: &Vec<Ty>, dest: &Place, value: &Rvalue, loc: Location, points: &mut Vec<InstrumentationPoint>) -> (r: Result<(), CollectError>)
    requires
        numbered(old(points)@),
        loc.statement_index < usize::MAX,
    ensures
        numbered(final(points)@),
        r is Ok <==> store_rule(locals@, dest@, value@, loc) is Some,
        r is Ok ==> shapes(final(points)@) == shapes(old(points)@) + store_rule(locals@, dest@, value@, loc).unwrap(),
{
    let value_ty = value.ty_exec(locals);
    let dest_ty = dest.ty_exec(locals);
    let next = Location { block: loc.block, statement_index: loc.statement_index + 1 };
    let base = strip_all_deref(dest);
    proof {
        lemma_deref_base(dest@, base@);
    }
    let bt = base.ty_exec(locals);
    let a = InstrumentationArg::from_type(Operand::Copy(base), &bt);
    let stripped = remove_outer_deref(dest);
    let ghost start = shapes(points@);
    match one_point_exec(a, loc, HookKind::PtrStore, Some(to_mir_place(&stripped)), None, points) {
        Ok(()) => {},
        Err(e) => {
            return Err(e);
        },
    }
    if value_ty.is_pointer_exec() {
        let a2 = InstrumentationArg::from_type(Operand::Copy(dest.duplicate()), &dest_ty);
        let src = match crate::mir::rv_place(value) {
            Some(p) => Some(to_mir_place(p)),
            None => None,
        };
        let r = one_point_exec(a2, next, HookKind::StoreValue, src, Some(dest), points);
        assert(r is Ok ==> shapes(points@) =~= start + store_rule(locals@, dest@, value@, loc).unwrap());
        r
    } else {
        Ok(())
    }
}

fn visit_pointer_value(locals: &Vec<Ty>, dest: &Place, value: &Rvalue, loc: Location, points: &mut Vec<InstrumentationPoint>) -> (r: Result<(), CollectError>)
    requires
        numbered(old(points)@),
        loc.statement_index < usize::MAX,
    ensures
        numbered(final(points)@),
        r is Ok <==> pointer_rule(locals@, dest@, value@, loc) is Some,
        r is Ok ==> shapes(final(points)@) == shapes(old(points)@) + pointer_rule(locals@, dest@, value@, loc).unwrap(),
{
    let dest_ty = dest.ty_exec(locals);
    let next = Location { block: loc.block, statement_index: loc.statement_index + 1 };
    assert(next == at(loc, loc.statement_index + 1));
    match value {
        Rvalue::AddressOf(_, p) => {
            let pt = InstrumentationPoint::new(next, HookKind::AddrOfLocal)
                .arg(InstrumentationArg::RawPtr(Operand::Copy(dest.duplicate())))
                .arg(InstrumentationArg::AddressUsize(make_const(p.local)))
                .source(Some(to_mir_place(p)))
                .dest(dest);
            let ghost expect = pointer_rule(locals@, dest@, value@, loc).unwrap();
            assert(pt@.args =~= expect[0].args);
            push_point(points, pt);
            assert(shapes(points@) =~= shapes(old(points)@) + expect);
            Ok(())
        },
        Rvalue::Use(o) => match o.place() {
            Some(p) => {
                let a = InstrumentationArg::from_type(Operand::Copy(dest.duplicate()), &dest_ty);
                if p.is_indirect_exec() {
                    one_point_exec(a, next, HookKind::LoadValue, None, Some(dest), points)
                } else {
                    one_point_exec(a, next, HookKind::PtrCopy, Some(to_mir_place(p)), Some(dest), points)
                }
            },
            None => {
                assert(shapes(points@) =~= shapes(old(points)@) + Seq::<PointView>::empty());
                Ok(())
            },
        },
        Rvalue::Cast(o, _) => {
            let ot = o.ty_exec(locals);
            let func = if ot.is_integral_exec() {
                HookKind::PtrContrive
            } else {
                HookKind::PtrCopy
            };
            let src = match o.place() {
                Some(p) => Some(to_mir_place(p)),
                None => None,
            };
            let a = InstrumentationArg::from_type(Operand::Copy(dest.duplicate()), &dest_ty);
            one_point_exec(a, next, func, src, Some(dest), points)
        },
        Rvalue::Ref(bk, p) => {
            let outer = p.has_outer_deref_exec();
            if !outer && p.is_indirect_exec() {
                assert(shapes(points@) =~= shapes(old(points)@) + Seq::<PointView>::empty());
                return Ok(());
            }
            let (l, a) = match bk {
                BorrowKind::Mut => (loc, InstrumentationArg::Place(Operand::Copy(p.duplicate()))),
                BorrowKind::Shared => (next, InstrumentationArg::Reference(Operand::Copy(dest.duplicate()))),
            };
            let ghost expect = pointer_rule(locals@, dest@, value@, loc).unwrap();
            let pt = if outer {
                let stripped = remove_outer_deref(p);
                InstrumentationPoint::new(l, HookKind::PtrCopy).arg(a).source(Some(to_mir_place(&stripped))).dest(dest)
            } else {
                InstrumentationPoint::new(l, HookKind::AddrOfLocal)
                    .arg(a)
                    .arg(InstrumentationArg::AddressUsize(make_const(p.local)))
                    .source(Some(to_mir_place(p)))
                    .dest(dest)
            };
            assert(pt@.args =~= expect[0].args);
            push_point(points, pt);
            assert(shapes(points@) =~= shapes(old(points)@) + expect);
            Ok(())
        },
        _ => {
            assert(shapes(points@) =~= shapes(old(points)@) + Seq::<PointView>::empty());
            Ok(())
        },
    }
}

/// Applies the first matching rule of the classification of `dest = value`.
fn visit_rule(locals: &Vec<Ty>, dest: &Place, value: &Rvalue, loc: Location, points: &mut Vec<InstrumentationPoint>) -> (r: Result<(), CollectError>)
    requires
        numbered(old(points)@),
        loc.statement_index < usize::MAX,
    ensures
        numbered(final(points)@),
        r is Ok <==> rule_points(locals@, dest@, value@, loc) is Some,
        r is Ok ==> shapes(final(points)@) == shapes(old(points)@) + rule_points(locals@, dest@, value@, loc).unwrap(),
{
    reveal(rule_points);
    if dest.is_indirect_exec() {
        return visit_store(locals, dest, value, loc, points);
    }
    let int_src: Option<&Place> = match value {
        Rvalue::Cast(o, t) => match o.place() {
            Some(p) => if t.is_integral_exec() && !p.is_indirect_exec() {
                Some(p)
            } else {
                None
            },
            None => None,
        },
        _ => None,
    };
    assert(opt_place_view(int_src) == int_cast_source(locals@, value@));
    if let Some(p) = int_src {
        let pt = p.ty_exec(locals);
        if pt.is_pointer_exec() {
            let lt = if (p.local as usize) < locals.len() {
                locals[p.local as usize].duplicate()
            } else {
                Ty::Other
            };
            let a = InstrumentationArg::from_type(Operand::Copy(Place::from_local(p.local)), &lt);
            return one_point_exec(a, loc, HookKind::PtrToInt, Some(to_mir_place(p)), None, points);
        } else {
            assert(shapes(points@) =~= shapes(old(points)@) + Seq::<PointView>::empty());
            return Ok(());
        }
    }
    let value_ty = value.ty_exec(locals);
    if !value_ty.is_pointer_exec() {
        assert(shapes(points@) =~= shapes(old(points)@) + Seq::<PointView>::empty());
        return Ok(());
    }
    visit_pointer_value(locals, dest, value, loc, points)
}

/// Collects the points of the assignment `dest = value` at `loc`.
pub fn visit_assign(locals: &Vec<Ty>, dest: &Place, value: &Rvalue, loc: Location, points: &mut Vec<InstrumentationPoint>) -> (r: Result<(), CollectError>)
    requires
        numbered(old(points)@),
        loc.statement_index < usize::MAX,
    ensures
        numbered(final(points)@),
        r is Ok <==> assign_points(locals@, dest@, value@, loc) is Some,
        r is Ok ==> shapes(final(points)@) == shapes(old(points)@) + assign_points(locals@, dest@, value@, loc).unwrap(),
{
    reveal(assign_points);
    let ghost start = shapes(points@);
    visit_rvalue(locals, value, loc, Some(dest), points);
    visit_place(locals, dest, loc, None, points);
    let ghost mid = shapes(points@);
    let loaded = match value {
        Rvalue::Use(o) => match o.place() {
            Some(p) => if p.is_indirect_exec() {
                load_exec(locals, p, loc, points)
            } else {
                Ok(())
            },
            None => Ok(()),
        },
        Rvalue::AddressOf(_, p) => {
            let lt = if (p.local as usize) < locals.len() {
                locals[p.local as usize].duplicate()
            } else {
                Ty::Other
            };
            if !lt.is_region_ptr_exec() && p.is_indirect_exec() {
                load_exec(locals, p, loc, points)
            } else {
                Ok(())
            }
        },
        _ => Ok(()),
    };
    let ghost lp = load_points(locals@, value@, loc);
    match loaded {
        Ok(()) => {},
        Err(e) => {
            return Err(e);
        },
    }
    assert(lp is Some);
    assert(shapes(points@) =~= mid + lp.unwrap());
    let ghost mid2 = shapes(points@);
    let r = visit_rule(locals, dest, value, loc, points);
    assert(r is Ok ==> shapes(points@) =~= start + assign_points(locals@, dest@, value@, loc).unwrap());
    r
}

/// The field-projection points of the places a terminator uses.
pub open spec fn terminator_field_points(locals: Seq<Ty>, t: TerminatorView, loc: Location) -> Seq<PointView> {
    match t {
        TerminatorView::Call { func, args, destination, .. } => {
            let f = match func {
                CalleeView::Indirect(op) => operand_points(locals, op, loc, None),
                CalleeView::Def(_) => Seq::empty(),
            };
            let d = match destination {
                Some((p, _)) => place_points(locals, p, loc, None),
                None => Seq::empty(),
            };
            f + operands_points(locals, args, loc, None) + d
        },
        TerminatorView::SwitchInt(op, _) => operand_points(locals, op, loc, None),
        _ => Seq::empty(),
    }
}

/// The points for the first `k` arguments of a call: each pointer passed
/// from a place is traced as a copy into the callee's parameter (local `i + 1` for argument `i`).
pub open spec fn arg_points(locals: Seq<Ty>, args: Seq<OperandView>, loc: Location, transfer: TransferKind, k: int) -> Seq<PointView>
    decreases k,
{
    if k <= 0 || k > args.len() {
        Seq::empty()
    } else {
        let prev = arg_points(locals, args, loc, transfer, k - 1);
        match args[k - 1].place() {
            Some(p) => if p.ty(locals).is_pointer() {
                prev.push(point(
                    loc,
                    HookKind::PtrCopy,
                    seq![arg_of_type(OperandView::Copy(p), p.ty(locals)).unwrap()],
                    Some(mir_place_of(p)),
                    Some(mir_place_of(PlaceView::local_only(k as u32))),
                    transfer,
                    false,
                ))
            } else {
                prev
            },
            None => prev,
        }
    }
}

/// Each argument of a call to a memory primitive, as the hook receives it.
pub open spec fn hook_args(locals: Seq<Ty>, args: Seq<OperandView>) -> Option<Seq<ArgView>>
    decreases args.len(),
{
    if args.len() == 0 {
        Some(Seq::empty())
    } else {
        match (hook_args(locals, args.drop_last()), arg_of_type(args.last(), args.last().ty(locals))) {
            (Some(prev), Some(a)) => Some(prev.push(a)),
            _ => None,
        }
    }
}

pub open spec fn first_place(args: Seq<OperandView>) -> Option<PlaceView> {
    if args.len() > 0 {
        args[0].place()
    } else {
        None
    }
}

/// The points of a terminator at `loc` of function `body_hash`.
///
/// A call to a memory primitive is traced once, after it returns, with all
/// its arguments and its result. Any other call has its pointer arguments
/// traced before it, and a pointer result traced at the start of the block it
/// returns to. A return of a pointer is traced before it.
#[verifier::opaque]
pub open spec fn terminator_points(locals: Seq<Ty>, body_hash: u128, t: TerminatorView, loc: Location) -> Option<Seq<PointView>> {
    let fields = terminator_field_points(locals, t, loc);
    match t {
        TerminatorView::Call { func, args, destination, .. } => {
            if args.len() >= u32::MAX {
                None
            } else {
                let callee = match func {
                    CalleeView::Def(f) => Some(f),
                    CalleeView::Indirect(_) => None,
                };
                let prim = match callee {
                    Some(f) => memory_primitive_named(f.name),
                    None => None,
                };
                let transfer = match callee {
                    Some(f) => TransferKind::Arg(f.hash),
                    None => TransferKind::NoTransfer,
                };
                let arg_pts = if prim is Some {
                    Seq::empty()
                } else {
                    arg_points(locals, args, loc, transfer, args.len() as int)
                };
                let ret_pts = match (callee, destination) {
                    (Some(f), Some((dp, db))) => match prim {
                        Some(kind) => match hook_args(locals, args) {
                            Some(hargs) => Some(seq![
                                point(loc, kind, hargs, opt_mir(first_place(args)), Some(mir_place_of(dp)), TransferKind::Ret(body_hash), true),
                            ]),
                            None => None,
                        },
                        None => if dp.ty(locals).is_pointer() {
                            one_point(
                                arg_of_type(OperandView::Copy(dp), dp.ty(locals)),
                                Location { block: db, statement_index: 0 },
                                HookKind::PtrCopy,
                                Some(mir_place_of(PlaceView::local_only(0))),
                                Some(mir_place_of(dp)),
                                TransferKind::Ret(f.hash),
                            )
                        } else {
                            Some(Seq::empty())
                        },
                    },
                    _ => Some(Seq::empty()),
                };
                cat(Some(fields + arg_pts), ret_pts)
            }
        },
        TerminatorView::Return => if local_ty(locals, 0).is_pointer() {
            cat(Some(fields), one_point(
                arg_of_type(OperandView::Copy(PlaceView::local_only(0)), local_ty(locals, 0)),
                loc,
                HookKind::PtrRet,
                None,
                None,
                TransferKind::NoTransfer,
            ))
        } else {
            Some(fields)
        },
        _ => Some(fields),
    }
}

fn visit_operands(locals: &Vec<Ty>, ops: &Vec<Operand>, loc: Location, points: &mut Vec<InstrumentationPoint>)
    requires
        numbered(old(points)@),
    ensures
        numbered(final(points)@),
        shapes(final(points)@) == shapes(old(points)@) + operands_points(locals@, ops@.map_values(|o: Operand| o@), loc, None),
{
    let ghost start = shapes(points@);
    let ghost ovs = ops@.map_values(|o: Operand| o@);
    let n = ops.len();
    assert(shapes(points@) =~= start + operands_points(locals@, ovs.subrange(0, 0), loc, None));
    for i in 0..n
        invariant
            n == ops@.len(),
            ovs == ops@.map_values(|o: Operand| o@),
            numbered(points@),
            shapes(points@) == start + operands_points(locals@, ovs.subrange(0, i as int), loc, None),
    {
        visit_operand(locals, &ops[i], loc, None, points);
        assert(ovs.subrange(0, i + 1).drop_last() =~= ovs.subrange(0, i as int));
        assert(shapes(points@) =~= start + operands_points(locals@, ovs.subrange(0, i + 1), loc, None));
    }
    assert(ovs.subrange(0, n as int) =~= ovs);
}

fn visit_call_args(
    locals: &Vec<Ty>,
    args: &Vec<Operand>,
    loc: Location,
    transfer: TransferKind,
    points: &mut Vec<InstrumentationPoint>,
)
    requires
        numbered(old(points)@),
        args@.len() < u32::MAX,
    ensures
        numbered(final(points)@),
        shapes(final(points)@) == shapes(old(points)@) + arg_points(
            locals@,
            args@.map_values(|o: Operand| o@),
            loc,
            transfer,
            args@.len() as int,
        ),
{
    let ghost start = shapes(points@);
    let ghost avs = args@.map_values(|o: Operand| o@);
    let n = args.len();
    assert(shapes(points@) =~= start + arg_points(locals@, avs, loc, transfer, 0));
    for i in 0..n
        invariant
            n == args@.len(),
            n < u32::MAX,
            avs == args@.map_values(|o: Operand| o@),
            numbered(points@),
            shapes(points@) == start + arg_points(locals@, avs, loc, transfer, i as int),
    {
        if let Some(p) = args[i].place() {
            let pt = p.ty_exec(locals);
            if pt.is_pointer_exec() {
                let a = InstrumentationArg::from_type(Operand::Copy(p.duplicate()), &pt).unwrap();
                let callee_arg = Place::from_local((i + 1) as u32);
                let point = InstrumentationPoint::new(loc, HookKind::PtrCopy)
                    .arg(a)
                    .source(Some(to_mir_place(p)))
                    .dest(&callee_arg)
                    .transfer(transfer);
                let ghost expect = arg_points(locals@, avs, loc, transfer, i + 1);
                assert(point@.args =~= seq![arg_of_type(OperandView::Copy(p@), p@.ty(locals@)).unwrap()]);
                push_point(points, point);
                assert(shapes(points@) =~= start + expect);
            } else {
                assert(arg_points(locals@, avs, loc, transfer, i + 1) == arg_points(locals@, avs, loc, transfer, i as int));
            }
        } else {
            assert(arg_points(locals@, avs, loc, transfer, i + 1) == arg_points(locals@, avs, loc, transfer, i as int));
        }
    }
}

fn hook_args_exec(locals: &Vec<Ty>, args: &Vec<Operand>) -> (r: Option<Vec<InstrumentationArg>>)
    ensures
        match hook_args(locals@, args@.map_values(|o: Operand| o@)) {
            Some(h) => r matches Some(v) && args_view(v@) == h,
            None => r is None,
        },
{
    let ghost avs = args@.map_values(|o: Operand| o@);
    let mut out: Vec<InstrumentationArg> = Vec::new();
    let n = args.len();
    for i in 0..n
        invariant
            n == args@.len(),
            avs == args@.map_values(|o: Operand| o@),
            hook_args(locals@, avs.subrange(0, i as int)) == Some(args_view(out@)),
    {
        assert(avs.subrange(0, i + 1).drop_last() =~= avs.subrange(0, i as int));
        let t = args[i].ty_exec(locals);
        match InstrumentationArg::from_type(args[i].duplicate(), &t) {
            Some(a) => {
                out.push(a);
                assert(args_view(out@) =~= hook_args(locals@, avs.subrange(0, i as int)).unwrap().push(a@));
            },
            None => {
                proof {
                    lemma_hook_args_none(locals@, avs, (i + 1) as int);
                }
                return None;
            },
        }
    }
    assert(avs.subrange(0, n as int) =~= avs);
    Some(out)
}

proof fn lemma_hook_args_none(locals: Seq<Ty>, avs: Seq<OperandView>, k: int)
    requires
        0 < k <= avs.len(),
        hook_args(locals, avs.subrange(0, k)) is None,
    ensures
        hook_args(locals, avs) is None,
    decreases avs.len() - k,
{
    if k < avs.len() {
        assert(avs.subrange(0, k + 1).drop_last() =~= avs.subrange(0, k));
        lemma_hook_args_none(locals, avs, k + 1);
    } else {
        assert(avs.subrange(0, k) =~= avs);
    }
}

/// Collects the points of terminator `term` at `loc` of function `body_hash`.
pub fn visit_terminator(
    locals: &Vec<Ty>,
    body_hash: u128,
    term: &Terminator,
    loc: Location,
    points: &mut Vec<InstrumentationPoint>,
) -> (r: Result<(), CollectError>)
    requires
        numbered(old(points)@),
    ensures
        numbered(final(points)@),
        r is Ok <==> terminator_points(locals@, body_hash, term@, loc) is Some,
        r is Ok ==> shapes(final(points)@) == shapes(old(points)@) + terminator_points(locals@, body_hash, term@, loc).unwrap(),
{
    reveal(terminator_points);
    let ghost start = shapes(points@);
    match term {
        Terminator::Call { func, args, destination, .. } => {
            if args.len() >= u32::MAX as usize {
                return Err(CollectError::TooManyArguments);
            }
            if let Callee::Indirect(op) = func {
                visit_operand(locals, op, loc, None, points);
            } else {
                assert(shapes(points@) =~= start + Seq::<PointView>::empty());
            }
            let ghost s1 = shapes(points@);
            visit_operands(locals, args, loc, points);
            let ghost s2 = shapes(points@);
            match destination {
                Some((p, _)) => visit_place(locals, p, loc, None, points),
                None => {
                    assert(shapes(points@) =~= s2 + Seq::<PointView>::empty());
                },
            }
            assert(shapes(points@) =~= start + terminator_field_points(locals@, term@, loc));
            let ghost s3 = shapes(points@);
            let prim = match func {
                Callee::Def(f) => memory_primitive(&f.name),
                Callee::Indirect(_) => None,
            };
            let transfer = match func {
                Callee::Def(f) => TransferKind::Arg(f.hash),
                Callee::Indirect(_) => TransferKind::NoTransfer,
            };
            if prim.is_none() {
                visit_call_args(locals, args, loc, transfer, points);
            } else {
                assert(shapes(points@) =~= s3 + Seq::<PointView>::empty());
            }
            let ghost s4 = shapes(points@);
            match (func, destination) {
                (Callee::Def(f), Some((dp, db))) => match prim {
                    Some(kind) => match hook_args_exec(locals, args) {
                        Some(hargs) => {
                            let src = if args.len() > 0 {
                                match args[0].place() {
                                    Some(p) => Some(to_mir_place(p)),
                                    None => None,
                                }
                            } else {
                                None
                            };
                            let pt = InstrumentationPoint::new(loc, kind)
                                .source(src)
                                .dest(dp)
                                .after_call()
                                .transfer(TransferKind::Ret(body_hash))
                                .args(hargs);
                            push_point(points, pt);
                            assert(shapes(points@) =~= start + terminator_points(locals@, body_hash, term@, loc).unwrap());
                            Ok(())
                        },
                        None => Err(CollectError::UncastableOperand),
                    },
                    None => {
                        let dt = dp.ty_exec(locals);
                        if dt.is_pointer_exec() {
                            let a = InstrumentationArg::from_type(Operand::Copy(dp.duplicate()), &dt);
                            let ret_loc = Location { block: *db, statement_index: 0 };
                            let src = to_mir_place(&Place::from_local(0));
                            let ghost before = shapes(points@);
                            if a.is_none() {
                                return Err(CollectError::UncastableOperand);
                            }
                            let pt = InstrumentationPoint::new(ret_loc, HookKind::PtrCopy)
                                .source(Some(src))
                                .dest(dp)
                                .transfer(TransferKind::Ret(f.hash))
                                .arg(a.unwrap());
                            push_point(points, pt);
                            assert(shapes(points@) =~= start + terminator_points(locals@, body_hash, term@, loc).unwrap());
                            Ok(())
                        } else {
                            assert(shapes(points@) =~= start + terminator_points(locals@, body_hash, term@, loc).unwrap());
                            Ok(())
                        }
                    },
                },
                _ => {
                    assert(shapes(points@) =~= start + terminator_points(locals@, body_hash, term@, loc).unwrap());
                    Ok(())
                },
            }
        },
        Terminator::SwitchInt(op, _) => {
            visit_operand(locals, op, loc, None, points);
            Ok(())
        },
        Terminator::Return => {
            let rt = if locals.len() > 0 {
                locals[0].duplicate()
            } else {
                Ty::Other
            };
            if rt.is_pointer_exec() {
                let a = InstrumentationArg::from_type(Operand::Copy(Place::from_local(0)), &rt);
                let r = one_point_exec(a, loc, HookKind::PtrRet, None, None, points);
                assert(r is Ok ==> shapes(points@) =~= start + terminator_points(locals@, body_hash, term@, loc).unwrap());
                r
            } else {
                assert(shapes(points@) =~= start + Seq::<PointView>::empty());
                Ok(())
            }
        },
        _ => {
            assert(shapes(points@) =~= start + Seq::<PointView>::empty());
            Ok(())
        },
    }
}

/// The points of one statement.
pub open spec fn statement_points(locals: Seq<Ty>, st: StatementView, loc: Location) -> Option<Seq<PointView>> {
    match st {
        StatementView::Assign(d, rv) => assign_points(locals, d, rv, loc),
        StatementView::Nop => Some(Seq::empty()),
    }
}

/// The points of the first `k` statements of block `bi`.
pub open spec fn statements_points(locals: Seq<Ty>, b: BlockView, bi: usize, k: int) -> Option<Seq<PointView>>
    decreases k,
{
    if k <= 0 || k > b.statements.len() {
        Some(Seq::empty())
    } else {
        cat(
            statements_points(locals, b, bi, k - 1),
            statement_points(locals, b.statements[k - 1], Location { block: bi, statement_index: (k - 1) as usize }),
        )
    }
}

/// The points of block `bi`: its statements', then its terminator's.
pub open spec fn block_points(locals: Seq<Ty>, body_hash: u128, b: BlockView, bi: usize) -> Option<Seq<PointView>> {
    cat(
        statements_points(locals, b, bi, b.statements.len() as int),
        terminator_points(locals, body_hash, b.terminator, Location { block: bi, statement_index: b.statements.len() as usize }),
    )
}

/// The points of the first `n` blocks of a body.
pub open spec fn blocks_points(body: BodyView, body_hash: u128, n: int) -> Option<Seq<PointView>>
    decreases n,
{
    if n <= 0 || n > body.blocks.len() {
        Some(Seq::empty())
    } else {
        cat(blocks_points(body, body_hash, n - 1), block_points(body.locals, body_hash, body.blocks[n - 1], (n - 1) as usize))
    }
}

/// The points of a whole body, in visiting order; `None` where a value that
/// a hook must receive cannot be passed to it.
pub open spec fn body_points(body: BodyView, body_hash: u128) -> Option<Seq<PointView>> {
    blocks_points(body, body_hash, body.blocks.len() as int)
}

proof fn lemma_statements_none(locals: Seq<Ty>, b: BlockView, bi: usize, k: int, n: int)
    requires
        0 < k <= n <= b.statements.len(),
        statements_points(locals, b, bi, k) is None,
    ensures
        statements_points(locals, b, bi, n) is None,
    decreases n - k,
{
    if k < n {
        lemma_statements_none(locals, b, bi, k, n - 1);
    }
}

proof fn lemma_blocks_none(body: BodyView, body_hash: u128, k: int, n: int)
    requires
        0 < k <= n <= body.blocks.len(),
        blocks_points(body, body_hash, k) is None,
    ensures
        blocks_points(body, body_hash, n) is None,
    decreases n - k,
{
    if k < n {
        lemma_blocks_none(body, body_hash, k, n - 1);
    }
}

fn visit_block(locals: &Vec<Ty>, body_hash: u128, b: &BasicBlockData, bi: usize, points: &mut Vec<InstrumentationPoint>) -> (r: Result<(), CollectError>)
    requires
        numbered(old(points)@),
    ensures
        numbered(final(points)@),
        r is Ok <==> block_points(locals@, body_hash, b@, bi) is Some,
        r is Ok ==> shapes(final(points)@) == shapes(old(points)@) + block_points(locals@, body_hash, b@, bi).unwrap(),
{
    let ghost start = shapes(points@);
    let n = b.statements.len();
    assert(shapes(points@) =~= start + statements_points(locals@, b@, bi, 0).unwrap());
    for k in 0..n
        invariant
            n == b.statements@.len(),
            numbered(points@),
            statements_points(locals@, b@, bi, k as int) is Some,
            shapes(points@) == start + statements_points(locals@, b@, bi, k as int).unwrap(),
    {
        let loc = Location { block: bi, statement_index: k };
        assert(b@.statements[k as int] == b.statements@[k as int]@);
        match &b.statements[k] {
            Statement::Assign(d, rv) => {
                match visit_assign(locals, d, rv, loc, points) {
                    Ok(()) => {},
                    Err(e) => {
                        proof {
                            lemma_statements_none(locals@, b@, bi, k + 1, n as int);
                        }
                        return Err(e);
                    },
                }
            },
            Statement::Nop => {},
        }
        assert(shapes(points@) =~= start + statements_points(locals@, b@, bi, k + 1).unwrap());
    }
    let ghost mid = shapes(points@);
    let loc = Location { block: bi, statement_index: n };
    let r = visit_terminator(locals, body_hash, &b.terminator, loc, points);
    assert(r is Ok ==> shapes(points@) =~= start + block_points(locals@, body_hash, b@, bi).unwrap());
    r
}

/// Collects the points of function `body_hash`'s body, in visiting order:
/// block by block, each block's statements in order and then its
/// terminator. Fails exactly where the rules ask a hook to receive a value
/// that is neither an integer nor a pointer.
pub fn collect_points(body: &Body, body_hash: u128) -> (r: Result<Vec<InstrumentationPoint>, CollectError>)
    ensures
        r is Ok <==> body_points(body@, body_hash) is Some,
        r matches Ok(ps) ==> numbered(ps@) && shapes(ps@) == body_points(body@, body_hash).unwrap(),
{
    let mut points: Vec<InstrumentationPoint> = Vec::new();
    let n = body.basic_blocks.len();
    assert(shapes(points@) =~= blocks_points(body@, body_hash, 0).unwrap());
    for bi in 0..n
        invariant
            n == body.basic_blocks@.len(),
            numbered(points@),
            blocks_points(body@, body_hash, bi as int) is Some,
            shapes(points@) == blocks_points(body@, body_hash, bi as int).unwrap(),
    {
        assert(body@.blocks[bi as int] == body.basic_blocks@[bi as int]@);
        match visit_block(&body.local_decls, body_hash, &body.basic_blocks[bi], bi, &mut points) {
            Ok(()) => {},
            Err(e) => {
                proof {
                    lemma_blocks_none(body@, body_hash, bi + 1, n as int);
                }
                return Err(e);
            },
        }
        assert(shapes(points@) =~= blocks_points(body@, body_hash, bi + 1).unwrap());
    }
    Ok(points)
}

} // verus!
