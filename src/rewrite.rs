//! The CFG rewriter: applies instrumentation points by splitting blocks and
//! installing hook calls, coercing each hook argument to a machine address.
use vstd::prelude::*;
use crate::mir::{
    BasicBlockData, BlockView, Body, BodyView, Callee, CalleeView, IntTy, Mutability, Operand,
    OperandView, Place, PlaceView, Projection, Rvalue, RvalueView, Statement, StatementView,
    Terminator, TerminatorView, Ty, remove_outer_deref, statements_view,
};
use crate::points::{ArgView, HookKind, Hooks, InstrumentationArg, InstrumentationPoint, PointView, RuntimeFn, args_view};
use crate::location_table::InstrumentMemoryOps;
use crate::mir::{Constant, FnRef, FnRefView};
use crate::mir_loc::{MirLocView, TransferKind};

verus! {

/// Why a body could not be rewritten.
#[derive(Clone, Copy, Debug, PartialEq, Eq, Structural)]
pub enum RewriteError {
    /// A hook argument cannot be passed as an address.
    UncoercibleArgument,
    /// The body would need more locals than a local index can name.
    TooManyLocals,
    /// A point names a block or statement that the body does not have.
    BadLocation,
    /// An after-call point is not at a call that returns to a block.
    NotACall,
    /// A traced call returns neither unit nor a raw pointer.
    BadReturnType,
    /// The location table cannot index another program point.
    TooManyLocations,
}

/// The `usize` type that hook arguments are passed as.
pub open spec fn usize_ty() -> Ty {
    Ty::Int(IntTy::Usize)
}

/// Whether the operand reads only declared locals.
pub open spec fn operand_declared(locals: Seq<Ty>, op: OperandView) -> bool {
    op.place() matches Some(p) ==> p.local < locals.len()
}

/// Whether the argument can be passed to a hook: integers (and unit) as they
/// are, references and raw pointers by their address, places by a raw borrow.
pub open spec fn coercible(locals: Seq<Ty>, a: ArgView) -> bool {
    operand_declared(locals, a.inner()) && match a {
        ArgView::AddressUsize(op) => op.ty(locals).is_integral() || op.ty(locals) is Unit,
        ArgView::Reference(op) => op.place() is Some && op.ty(locals).is_region_ptr(),
        ArgView::RawPtr(op) => op.ty(locals).is_unsafe_ptr(),
        ArgView::Place(op) => op.place() is Some,
    }
}

pub open spec fn all_coercible(locals: Seq<Ty>, args: Seq<ArgView>) -> bool {
    forall|i: int| 0 <= i < args.len() ==> #[trigger] coercible(locals, args[i])
}

pub open spec fn local_place(l: int) -> PlaceView {
    PlaceView::local_only(l as u32)
}

/// `dest = value` where `dest` is the local `l`.
pub open spec fn assign_local(l: int, value: RvalueView) -> StatementView {
    StatementView::Assign(local_place(l), value)
}

/// The statements, the operand and the new local declarations that passing
/// `a` to a hook takes, where the body has the locals `locals`; `None` for an
/// argument passed as it is.
///
/// A reference `r` is passed as `&raw (*r) as usize`, a raw pointer `p` as
/// `p as usize`, a place `q` as `&raw q' as usize` where `q'` is `q` without a
/// final dereference. Each result goes through fresh locals.
pub open spec fn coercion(locals: Seq<Ty>, a: ArgView) -> Option<(Seq<StatementView>, OperandView, Seq<Ty>)> {
    let raw = locals.len() as int;
    match a {
        ArgView::AddressUsize(_) => None,
        ArgView::Reference(op) => {
            let p = op.place().unwrap();
            let (m, inner) = match op.ty(locals) {
                Ty::Ref(m, b) => (m, *b),
                _ => (Mutability::Not, Ty::Other),
            };
            let deref = PlaceView { local: p.local, projection: p.projection.push(Projection::Deref) };
            Some((
                seq![
                    assign_local(raw, RvalueView::AddressOf(m, deref)),
                    assign_local(raw + 1, RvalueView::Cast(OperandView::Move(local_place(raw)), usize_ty())),
                ],
                OperandView::Move(local_place(raw + 1)),
                locals.push(Ty::RawPtr(m, Box::new(inner))).push(usize_ty()),
            ))
        },
        ArgView::RawPtr(op) => Some((
            seq![assign_local(raw, RvalueView::Cast(op.to_copy(), usize_ty()))],
            OperandView::Move(local_place(raw)),
            locals.push(usize_ty()),
        )),
        ArgView::Place(op) => {
            let q = op.place().unwrap().without_outer_deref();
            Some((
                seq![
                    assign_local(raw, RvalueView::AddressOf(Mutability::Not, q)),
                    assign_local(raw + 1, RvalueView::Cast(OperandView::Move(local_place(raw)), usize_ty())),
                ],
                OperandView::Move(local_place(raw + 1)),
                locals.push(Ty::RawPtr(Mutability::Not, Box::new(q.ty(locals)))).push(usize_ty()),
            ))
        },
    }
}

/// Coerces the arguments in order: the statements to insert, the operands to
/// pass and the locals afterwards.
pub open spec fn coerce_all(locals: Seq<Ty>, args: Seq<ArgView>) -> (Seq<StatementView>, Seq<OperandView>, Seq<Ty>)
    decreases args.len(),
{
    if args.len() == 0 {
        (Seq::empty(), Seq::empty(), locals)
    } else {
        let prev = coerce_all(locals, args.drop_last());
        match coercion(prev.2, args.last()) {
            Some((ss, op, ls)) => (prev.0 + ss, prev.1.push(op), ls),
            None => (prev.0, prev.1.push(args.last().inner()), prev.2),
        }
    }
}

/// Declaring more locals does not change the type of a place over declared
/// locals.
pub proof fn lemma_place_ty_stable(l1: Seq<Ty>, l2: Seq<Ty>, p: PlaceView)
    requires
        l1.len() <= l2.len(),
        l2.subrange(0, l1.len() as int) == l1,
        p.local < l1.len(),
    ensures
        p.ty(l2) == p.ty(l1),
{
    assert(l2[p.local as int] == l1[p.local as int]);
}

proof fn lemma_coercible_stable(l1: Seq<Ty>, l2: Seq<Ty>, a: ArgView)
    requires
        l1.len() <= l2.len(),
        l2.subrange(0, l1.len() as int) == l1,
        coercible(l1, a),
    ensures
        coercible(l2, a),
        a.inner().ty(l2) == a.inner().ty(l1),
{
    if let Some(p) = a.inner().place() {
        lemma_place_ty_stable(l1, l2, p);
    }
}

proof fn lemma_coerce_all_locals(locals: Seq<Ty>, args: Seq<ArgView>)
    ensures
        coerce_all(locals, args).2.len() >= locals.len(),
        coerce_all(locals, args).2.subrange(0, locals.len() as int) == locals,
        coerce_all(locals, args).2.len() <= locals.len() + 2 * args.len(),
        coerce_all(locals, args).1.len() == args.len(),
    decreases args.len(),
{
    if args.len() > 0 {
        lemma_coerce_all_locals(locals, args.drop_last());
        let prev = coerce_all(locals, args.drop_last());
        assert(prev.2.push(usize_ty()).subrange(0, locals.len() as int) =~= locals);
        assert(forall|t: Ty, u: Ty| prev.2.push(t).push(u).subrange(0, locals.len() as int) =~= locals);
    }
}

fn is_coercible(locals: &Vec<Ty>, a: &InstrumentationArg) -> (r: bool)
    ensures
        r == coercible(locals@, a@),
{
    let op = match a {
        InstrumentationArg::AddressUsize(o) => o,
        InstrumentationArg::Reference(o) => o,
        InstrumentationArg::RawPtr(o) => o,
        InstrumentationArg::Place(o) => o,
    };
    let declared = match op.place() {
        Some(p) => (p.local as usize) < locals.len(),
        None => true,
    };
    if !declared {
        return false;
    }
    match a {
        InstrumentationArg::AddressUsize(o) => {
            let t = o.ty_exec(locals);
            t.is_integral_exec() || t.is_unit_exec()
        },
        InstrumentationArg::Reference(o) => o.place().is_some() && o.ty_exec(locals).is_region_ptr_exec(),
        InstrumentationArg::RawPtr(o) => o.ty_exec(locals).is_unsafe_ptr_exec(),
        InstrumentationArg::Place(o) => o.place().is_some(),
    }
}

fn local_operand_place(l: usize) -> (r: Place)
    requires
        l <= u32::MAX,
    ensures
        r@ == local_place(l as int),
{
    Place::from_local(l as u32)
}

/// Casts a hook argument to `usize` where it is not one already: returns the
/// statements to insert before the call, which declare fresh locals, and the
/// operand to pass. The statements read the argument, so they must stand
/// where it is alive.
pub fn cast_ptr_to_usize(locals: &mut Vec<Ty>, arg: &InstrumentationArg) -> (r: Option<(Vec<Statement>, Operand)>)
    requires
        coercible(old(locals)@, arg@),
        old(locals)@.len() + 2 <= u32::MAX,
    ensures
        match coercion(old(locals)@, arg@) {
            Some((ss, op, ls)) => r matches Some((stmts, o)) && statements_view(stmts@) == ss && o@ == op
                && final(locals)@ == ls,
            None => r is None && final(locals)@ == old(locals)@,
        },
{
    let raw = locals.len();
    match arg {
        InstrumentationArg::AddressUsize(_) => None,
        InstrumentationArg::Reference(op) => {
            let p = op.place().unwrap();
            let t = op.ty_exec(locals);
            let (m, inner) = match t {
                Ty::Ref(m, b) => (m, *b),
                _ => (Mutability::Not, Ty::Other),
            };
            let mut deref = p.duplicate();
            deref.projection.push(Projection::Deref);
            locals.push(Ty::RawPtr(m, Box::new(inner)));
            locals.push(Ty::Int(IntTy::Usize));
            let mut stmts: Vec<Statement> = Vec::new();
            stmts.push(Statement::Assign(local_operand_place(raw), Rvalue::AddressOf(m, deref)));
            stmts.push(Statement::Assign(
                local_operand_place(raw + 1),
                Rvalue::Cast(Operand::Move(local_operand_place(raw)), Ty::Int(IntTy::Usize)),
            ));
            let ghost expect = coercion(old(locals)@, arg@).unwrap();
            assert(statements_view(stmts@) =~= expect.0);
            Some((stmts, Operand::Move(local_operand_place(raw + 1))))
        },
        InstrumentationArg::RawPtr(op) => {
            locals.push(Ty::Int(IntTy::Usize));
            let mut stmts: Vec<Statement> = Vec::new();
            stmts.push(Statement::Assign(
                local_operand_place(raw),
                Rvalue::Cast(op.to_copy(), Ty::Int(IntTy::Usize)),
            ));
            let ghost expect = coercion(old(locals)@, arg@).unwrap();
            assert(statements_view(stmts@) =~= expect.0);
            Some((stmts, Operand::Move(local_operand_place(raw))))
        },
        InstrumentationArg::Place(op) => {
            let p = op.place().unwrap();
            let q = remove_outer_deref(p);
            let t = q.ty_exec(locals);
            locals.push(Ty::RawPtr(Mutability::Not, Box::new(t)));
            locals.push(Ty::Int(IntTy::Usize));
            let mut stmts: Vec<Statement> = Vec::new();
            stmts.push(Statement::Assign(local_operand_place(raw), Rvalue::AddressOf(Mutability::Not, q)));
            stmts.push(Statement::Assign(
                local_operand_place(raw + 1),
                Rvalue::Cast(Operand::Move(local_operand_place(raw)), Ty::Int(IntTy::Usize)),
            ));
            let ghost expect = coercion(old(locals)@, arg@).unwrap();
            assert(statements_view(stmts@) =~= expect.0);
            Some((stmts, Operand::Move(local_operand_place(raw + 1))))
        },
    }
}

/// The call terminator of a hook call: `ret = hook(args)`, continuing in
/// block `next`, with no cleanup edge (hooks do not unwind).
pub open spec fn hook_call(hook: RuntimeFn, args: Seq<OperandView>, ret: int, next: usize) -> TerminatorView {
    TerminatorView::Call {
        func: CalleeView::Def(hook.func@),
        args,
        destination: Some((local_place(ret), next)),
        cleanup: None,
    }
}

/// The body after splitting block `block` before statement `i` and calling
/// `hook` there: the block keeps statements `[0, i)`, followed by the
/// coercions of the arguments, and ends in the hook call; a new block, last
/// in the body, receives statements `[i, end)`, the block's own terminator and
/// the cleanup flag; the hook call continues there. No other block changes.
pub open spec fn split_with_call(prev: BodyView, block: int, i: int, hook: RuntimeFn, args: Seq<ArgView>) -> BodyView {
    let b = prev.blocks[block];
    let c = coerce_all(prev.locals, args);
    let next = prev.blocks.len();
    let ret = c.2.len() as int;
    BodyView {
        blocks: prev.blocks.update(
            block,
            BlockView {
                statements: b.statements.subrange(0, i) + c.0,
                terminator: hook_call(hook, c.1, ret, next as usize),
                is_cleanup: b.is_cleanup,
            },
        ).push(
            BlockView {
                statements: b.statements.subrange(i, b.statements.len() as int),
                terminator: b.terminator,
                is_cleanup: b.is_cleanup,
            },
        ),
        locals: c.2.push(hook.ret),
    }
}

/// Inserts a call to `hook` before statement `statement_index` of `block`
/// (before the terminator where the index is the number of statements).
/// Returns the new successor block and the local that receives the hook's
/// result. Fails, leaving the body as it was, where an argument cannot be
/// coerced or the locals would outgrow their index type.
pub fn insert_call(
    body: &mut Body,
    block: usize,
    statement_index: usize,
    hook: &RuntimeFn,
    args: Vec<InstrumentationArg>,
) -> (r: Result<(usize, u32), RewriteError>)
    requires
        block < old(body)@.blocks.len(),
        statement_index <= old(body)@.blocks[block as int].statements.len(),
    ensures
        match r {
            Ok((next, ret)) => {
                &&& all_coercible(old(body)@.locals, args_view(args@))
                &&& old(body)@.locals.len() + 2 * args@.len() + 1 <= u32::MAX
                &&& final(body)@ == split_with_call(old(body)@, block as int, statement_index as int, *hook, args_view(args@))
                &&& next == old(body)@.blocks.len()
                &&& ret == coerce_all(old(body)@.locals, args_view(args@)).2.len()
            },
            Err(e) => {
                &&& final(body)@ == old(body)@
                &&& e == RewriteError::UncoercibleArgument ==> !all_coercible(old(body)@.locals, args_view(args@))
                &&& e == RewriteError::TooManyLocals ==> all_coercible(old(body)@.locals, args_view(args@))
                    && old(body)@.locals.len() + 2 * args@.len() + 1 > u32::MAX
                &&& e == RewriteError::UncoercibleArgument || e == RewriteError::TooManyLocals
            },
        },
{
    let ghost av = args_view(args@);
    let ghost locals0 = body.local_decls@;
    let n = args.len();
    let mut k: usize = 0;
    while k < n
        invariant
            n == args@.len(),
            av == args_view(args@),
            locals0 == body.local_decls@,
            k <= n,
            forall|j: int| 0 <= j < k ==> #[trigger] coercible(locals0, av[j]),
        decreases n - k,
    {
        if !is_coercible(&body.local_decls, &args[k]) {
            assert(av[k as int] == args@[k as int]@);
            assert(!coercible(locals0, av[k as int]));
            return Err(RewriteError::UncoercibleArgument);
        }
        k = k + 1;
    }
    if body.local_decls.len() >= u32::MAX as usize || n > (u32::MAX as usize - body.local_decls.len() - 1) / 2 {
        return Err(RewriteError::TooManyLocals);
    }
    let mut casts: Vec<Statement> = Vec::new();
    let mut call_args: Vec<Operand> = Vec::new();
    let mut k: usize = 0;
    while k < n
        invariant
            n == args@.len(),
            av == args_view(args@),
            k <= n,
            all_coercible(locals0, av),
            locals0.len() + 2 * n + 1 <= u32::MAX,
            ({
                let c = coerce_all(locals0, av.subrange(0, k as int));
                &&& statements_view(casts@) == c.0
                &&& call_args@.map_values(|o: Operand| o@) == c.1
                &&& body.local_decls@ == c.2
            }),
            body.local_decls@.len() <= locals0.len() + 2 * k,
            body.local_decls@.len() >= locals0.len(),
            body.local_decls@.subrange(0, locals0.len() as int) == locals0,
            body.basic_blocks@ == old(body).basic_blocks@,
        decreases n - k,
    {
        let ghost before = body.local_decls@;
        let ghost prev_casts = casts@;
        let ghost prev_args = call_args@;
        assert(av.subrange(0, k + 1).drop_last() =~= av.subrange(0, k as int));
        assert(av.subrange(0, k + 1).last() == av[k as int]);
        proof {
            assert(coercible(locals0, av[k as int]));
            assert(before.subrange(0, locals0.len() as int) == locals0);
            lemma_coercible_stable(locals0, before, av[k as int]);
        }
        match cast_ptr_to_usize(&mut body.local_decls, &args[k]) {
            Some((stmts, op)) => {
                let mut stmts = stmts;
                casts.append(&mut stmts);
                call_args.push(op);
                proof {
                    assert(statements_view(casts@) =~= statements_view(prev_casts) + coercion(before, av[k as int]).unwrap().0);
                    assert(body.local_decls@.subrange(0, locals0.len() as int) =~= locals0);
                }
            },
            None => {
                call_args.push(args[k].inner());
            },
        }
        assert(call_args@.map_values(|o: Operand| o@) =~= prev_args.map_values(|o: Operand| o@).push(
            call_args@.last()@,
        ));
        k = k + 1;
    }
    assert(av.subrange(0, n as int) =~= av);
    let ret_local = body.local_decls.len();
    body.local_decls.push(hook.ret.duplicate());
    let next = body.basic_blocks.len();
    let ghost old_block = body.basic_blocks@[block as int]@;
    let mut blk = BasicBlockData { statements: Vec::new(), terminator: Terminator::Unreachable, is_cleanup: false };
    std::mem::swap(&mut body.basic_blocks[block], &mut blk);
    let ghost blk_stmts = blk.statements@;
    let tail = blk.statements.split_off(statement_index);
    blk.statements.append(&mut casts);
    let mut term = Terminator::Call {
        func: Callee::Def(hook.func.duplicate()),
        args: call_args,
        destination: Some((local_operand_place(ret_local), next)),
        cleanup: None,
    };
    std::mem::swap(&mut blk.terminator, &mut term);
    let is_cleanup = blk.is_cleanup;
    let ghost new_block = blk@;
    body.basic_blocks.set(block, blk);
    body.basic_blocks.push(BasicBlockData { statements: tail, terminator: term, is_cleanup });
    proof {
        let expect = split_with_call(old(body)@, block as int, statement_index as int, *hook, av);
        assert(statements_view(tail@) =~= old_block.statements.subrange(statement_index as int, old_block.statements.len() as int));
        assert(new_block.statements =~= old_block.statements.subrange(0, statement_index as int) + coerce_all(locals0, av).0);
        assert(body@.blocks =~= expect.blocks);
    }
    Ok((next, ret_local as u32))
}

/// Splitting a block before statement `i` to call a hook keeps the block's
/// identity and its statements `[0, i)`, moves statements `[i, end)` and the
/// block's terminator verbatim into a new successor block that the hook call
/// continues in, and keeps every edge into the block.
pub proof fn lemma_split_correct(prev: BodyView, block: int, i: int, hook: RuntimeFn, args: Seq<ArgView>)
    requires
        0 <= block < prev.blocks.len(),
        0 <= i <= prev.blocks[block].statements.len(),
    ensures
        ({
            let new = split_with_call(prev, block, i, hook, args);
            let b = prev.blocks[block];
            let next = prev.blocks.len() as int;
            &&& new.blocks.len() == prev.blocks.len() + 1
            &&& new.blocks[block].statements.subrange(0, i) == b.statements.subrange(0, i)
            &&& new.blocks[block].is_cleanup == b.is_cleanup
            &&& new.blocks[next].statements == b.statements.subrange(i, b.statements.len() as int)
            &&& new.blocks[next].terminator == b.terminator
            &&& new.blocks[next].is_cleanup == b.is_cleanup
            &&& new.blocks[block].terminator.targets(next as usize)
            &&& forall|j: int| 0 <= j < prev.blocks.len() && j != block ==> new.blocks[j] == prev.blocks[j]
            &&& forall|j: int| 0 <= j < prev.blocks.len() && j != block && #[trigger] prev.blocks[j].terminator.targets(block as usize)
                ==> new.blocks[j].terminator.targets(block as usize)
            &&& b.terminator.targets(block as usize) ==> new.blocks[next].terminator.targets(block as usize)
        }),
{
    let new = split_with_call(prev, block, i, hook, args);
    let b = prev.blocks[block];
    let c = coerce_all(prev.locals, args);
    assert((b.statements.subrange(0, i) + c.0).subrange(0, i) =~= b.statements.subrange(0, i));
}

/// A call terminator with each argument read without moving, so that a hook
/// called after it may read them again.
pub open spec fn with_copied_args(t: TerminatorView) -> TerminatorView {
    match t {
        TerminatorView::Call { func, args, destination, cleanup } => TerminatorView::Call {
            func,
            args: args.map_values(|o: OperandView| o.to_copy()),
            destination,
            cleanup,
        },
        _ => t,
    }
}

/// How the result of a traced call reaches the hook: unit as it is, a raw
/// pointer by its address.
pub open spec fn return_arg(locals: Seq<Ty>, place: PlaceView) -> Option<ArgView> {
    if place.ty(locals) is Unit {
        Some(ArgView::AddressUsize(OperandView::Copy(place)))
    } else if place.ty(locals).is_unsafe_ptr() {
        Some(ArgView::RawPtr(OperandView::Copy(place)))
    } else {
        None
    }
}

/// Whether the block calls `hook` with the result of a call, read from
/// `place`, as last of `n_args` arguments, and then continues in `dest`. A
/// raw pointer result is first cast to `usize` in the local `cast_local`.
pub open spec fn calls_hook_with_result(
    blk: BlockView,
    hook: RuntimeFn,
    place: PlaceView,
    dest: usize,
    raw_result: bool,
    cast_local: int,
    n_args: int,
) -> bool {
    match blk.terminator {
        TerminatorView::Call { func, args, destination, cleanup } => {
            &&& func == CalleeView::Def(hook.func@)
            &&& cleanup is None
            &&& match destination {
                Some((_, d)) => d == dest,
                None => false,
            }
            &&& args.len() == n_args
            &&& if raw_result {
                &&& blk.statements == seq![
                    assign_local(cast_local, RvalueView::Cast(OperandView::Copy(place), usize_ty())),
                ]
                &&& args.last() == OperandView::Move(local_place(cast_local))
            } else {
                &&& blk.statements.len() == 0
                &&& args.last() == OperandView::Copy(place)
            }
        },
        _ => false,
    }
}

/// The place that receives a call terminator's result and the block the call
/// returns to, if the terminator of `block` is such a call.
pub open spec fn call_destination(prev: BodyView, block: int) -> Option<(PlaceView, usize)> {
    match prev.blocks[block].terminator {
        TerminatorView::Call { destination: Some((p, d)), .. } => Some((p, d)),
        _ => None,
    }
}

/// The locals after coercing a call's result read from `place`, and the
/// argument that passes it to the hook: a raw pointer is first cast to
/// `usize` in a fresh local, unit is passed as it is.
pub open spec fn result_arg(locals: Seq<Ty>, place: PlaceView) -> (Seq<Ty>, ArgView) {
    if place.ty(locals).is_unsafe_ptr() {
        (locals.push(usize_ty()), ArgView::AddressUsize(OperandView::Move(local_place(locals.len() as int))))
    } else {
        (locals, ArgView::AddressUsize(OperandView::Copy(place)))
    }
}

/// The error that inserting a hook call after the call ending `block`, with
/// arguments `args`, meets; `None` where it succeeds.
pub open spec fn after_call_error(prev: BodyView, block: int, args: Seq<ArgView>) -> Option<RewriteError> {
    match call_destination(prev, block) {
        None => Some(RewriteError::NotACall),
        Some((place, _)) => if place.local >= prev.locals.len() {
            Some(RewriteError::UncoercibleArgument)
        } else if return_arg(prev.locals, place) is None {
            Some(RewriteError::BadReturnType)
        } else if prev.locals.len() > u32::MAX - 2 {
            Some(RewriteError::TooManyLocals)
        } else {
            let (l1, ra) = result_arg(prev.locals, place);
            let all = args.push(ra);
            if !all_coercible(l1, all) {
                Some(RewriteError::UncoercibleArgument)
            } else if l1.len() + 2 * all.len() + 1 > u32::MAX {
                Some(RewriteError::TooManyLocals)
            } else {
                None
            }
        },
    }
}

/// A call terminator continuing in block `next` instead.
pub open spec fn redirected(t: TerminatorView, next: usize) -> TerminatorView {
    match t {
        TerminatorView::Call { func, args, destination: Some((p, _)), cleanup } => TerminatorView::Call {
            func,
            args,
            destination: Some((p, next)),
            cleanup,
        },
        _ => t,
    }
}

/// The body after inserting a call of `hook` after the call ending `block`:
/// the call keeps its block, reads its arguments without moving them, and
/// continues in a new last block; there its result is coerced and the hook
/// is called with `args` and the result, continuing where the call did.
pub open spec fn after_call_body(prev: BodyView, block: int, hook: RuntimeFn, args: Seq<ArgView>) -> BodyView {
    let b = prev.blocks[block];
    let (place, dest) = call_destination(prev, block).unwrap();
    let (l1, ra) = result_arg(prev.locals, place);
    let all = args.push(ra);
    let copied = with_copied_args(b.terminator);
    let body1 = BodyView { blocks: prev.blocks.update(block, BlockView { terminator: copied, ..b }), locals: l1 };
    let split = split_with_call(body1, block, b.statements.len() as int, hook, all);
    let next = prev.blocks.len() as usize;
    let c = coerce_all(l1, all);
    let extra = if place.ty(prev.locals).is_unsafe_ptr() {
        seq![assign_local(prev.locals.len() as int, RvalueView::Cast(OperandView::Copy(place), usize_ty()))]
    } else {
        Seq::empty()
    };
    BodyView {
        blocks: split.blocks.update(block as int, BlockView { terminator: redirected(copied, next), ..split.blocks[block] }).update(
            next as int,
            BlockView { statements: extra, terminator: hook_call(hook, c.1, c.2.len() as int, dest), is_cleanup: b.is_cleanup },
        ),
        locals: split.locals,
    }
}

/// Inserts a hook call that runs after the call terminator of `block` and
/// receives its result as a last argument. The traced call stays in
/// `block`, with its arguments copied, and continues in a new block; there
/// the result is coerced and the hook is called, continuing where the
/// traced call did. Returns the new block. The traced call keeps its own
/// unwind edge: an unwinding call skips the hook, which has no unwind edge.
pub fn insert_after_call(
    body: &mut Body,
    block: usize,
    hook: &RuntimeFn,
    args: Vec<InstrumentationArg>,
) -> (r: Result<usize, RewriteError>)
    requires
        block < old(body)@.blocks.len(),
    ensures
        match r {
            Ok(next) => {
                let b = old(body)@.blocks[block as int];
                let new = final(body)@;
                &&& b.terminator matches TerminatorView::Call { destination: Some((place, dest)), .. }
                &&& next == old(body)@.blocks.len()
                &&& new.blocks.len() == old(body)@.blocks.len() + 1
                &&& forall|j: int| 0 <= j < old(body)@.blocks.len() && j != block ==> new.blocks[j] == old(body)@.blocks[j]
                &&& new.blocks[block as int].statements.subrange(0, b.statements.len() as int) == b.statements
                &&& new.blocks[block as int].is_cleanup == b.is_cleanup
                &&& new.blocks[next as int].is_cleanup == b.is_cleanup
                &&& new.locals.subrange(0, old(body)@.locals.len() as int) == old(body)@.locals
                &&& ({
                    let (place, dest) = b.terminator->destination.unwrap();
                    &&& new.blocks[block as int].terminator == (match with_copied_args(b.terminator) {
                        TerminatorView::Call { func, args, cleanup, .. } => TerminatorView::Call {
                            func,
                            args,
                            destination: Some((place, next)),
                            cleanup,
                        },
                        _ => b.terminator,
                    })
                    &&& return_arg(old(body)@.locals, place) is Some
                    &&& calls_hook_with_result(
                        new.blocks[next as int],
                        *hook,
                        place,
                        dest,
                        place.ty(old(body)@.locals).is_unsafe_ptr(),
                        old(body)@.locals.len() as int,
                        (args@.len() + 1) as int,
                    )
                })
                &&& final(body)@ == after_call_body(old(body)@, block as int, *hook, args_view(args@))
            },
            Err(e) => after_call_error(old(body)@, block as int, args_view(args@)) == Some(e),
        },
        r is Ok <==> after_call_error(old(body)@, block as int, args_view(args@)) is None,
{
    let ghost b0 = body.basic_blocks@[block as int]@;
    let ghost av0 = args_view(args@);
    let n_stmts = body.basic_blocks[block].statements.len();
    // Copy the call's operands, and find the place its result goes to.
    let mut term = Terminator::Unreachable;
    std::mem::swap(&mut term, &mut body.basic_blocks[block].terminator);
    let (ret_place, term) = match term {
        Terminator::Call { func, args: call_args, destination: Some((place, dest)), cleanup } => {
            let mut copied: Vec<Operand> = Vec::new();
            let m = call_args.len();
            for i in 0..m
                invariant
                    m == call_args@.len(),
                    copied@.map_values(|o: Operand| o@) == call_args@.subrange(0, i as int).map_values(
                        |o: Operand| o@.to_copy(),
                    ),
            {
                let ghost prev = copied@;
                let c = call_args[i].to_copy();
                copied.push(c);
                assert(copied@.map_values(|o: Operand| o@) =~= prev.map_values(|o: Operand| o@).push(c@));
                assert(call_args@.subrange(0, i + 1).map_values(|o: Operand| o@.to_copy())
                    =~= call_args@.subrange(0, i as int).map_values(|o: Operand| o@.to_copy()).push(call_args@[i as int]@.to_copy()));
            }
            assert(call_args@.subrange(0, m as int) =~= call_args@);
            assert(copied@.map_values(|o: Operand| o@) =~= call_args@.map_values(|o: Operand| o@).map_values(|o: OperandView| o.to_copy()));
            let ret_place = place.duplicate();
            (ret_place, Terminator::Call { func, args: copied, destination: Some((place, dest)), cleanup })
        },
        other => {
            body.basic_blocks[block].terminator = other;
            assert(call_destination(old(body)@, block as int) is None);
            return Err(RewriteError::NotACall);
        },
    };
    body.basic_blocks[block].terminator = term;
    let ghost b1 = body.basic_blocks@[block as int]@;
    assert(b1.terminator == with_copied_args(b0.terminator));
    if (ret_place.local as usize) >= body.local_decls.len() {
        return Err(RewriteError::UncoercibleArgument);
    }
    assert(call_destination(old(body)@, block as int) == Some((ret_place@, b0.terminator->destination.unwrap().1)));
    assert(body.local_decls@ == old(body)@.locals);
    let ret_ty = ret_place.ty_exec(&body.local_decls);
    let ret_arg = if ret_ty.is_unit_exec() {
        InstrumentationArg::AddressUsize(Operand::Copy(ret_place))
    } else if ret_ty.is_unsafe_ptr_exec() {
        InstrumentationArg::RawPtr(Operand::Copy(ret_place))
    } else {
        return Err(RewriteError::BadReturnType);
    };
    if body.local_decls.len() > u32::MAX as usize - 2 {
        return Err(RewriteError::TooManyLocals);
    }
    let ghost locals0 = body.local_decls@;
    let ghost n_args = args@.len();
    let mut args = args;
    let mut extra: Vec<Statement> = Vec::new();
    let ghost coerced = coercion(locals0, ret_arg@);
    assert(locals0 == old(body)@.locals);
    match cast_ptr_to_usize(&mut body.local_decls, &ret_arg) {
        Some((stmts, cast_local)) => {
            assert(ret_arg@ is RawPtr);
            extra = stmts;
            args.push(InstrumentationArg::AddressUsize(cast_local));
        },
        None => {
            args.push(ret_arg);
        },
    }
    let ghost body1 = body@;
    let ghost av = args_view(args@);
    proof {
        let (l1, ra) = result_arg(old(body)@.locals, ret_place@);
        assert(body1.locals == l1);
        assert(av =~= av0.push(ra));
        assert(body1.blocks =~= old(body)@.blocks.update(block as int, BlockView { terminator: with_copied_args(b0.terminator), ..b0 }));
    }
    proof {
        assert(body1.locals.subrange(0, old(body)@.locals.len() as int) =~= old(body)@.locals);
        assert(av.len() == n_args + 1);
        assert(forall|j: int| 0 <= j < old(body)@.blocks.len() && j != block ==> body1.blocks[j] == old(body)@.blocks[j]);
        assert(body1.blocks[block as int].statements == b0.statements);
        assert(av.last() == args@.last()@);
    }
    let (next, _) = match insert_call(body, block, n_stmts, hook, args) {
        Ok(v) => v,
        Err(e) => {
            return Err(e);
        },
    };
    assert(body@ == split_with_call(body1, block as int, n_stmts as int, *hook, av));
    let ghost body2 = body@;
    proof {
        let c = coerce_all(body1.locals, av);
        lemma_coerce_all_locals(body1.locals, av);
        assert(c.1.last() == av.last().inner());
        assert(forall|j: int| 0 <= j < body1.blocks.len() && j != block ==> body2.blocks[j] == body1.blocks[j]);
        assert(body2.blocks[block as int].terminator == hook_call(*hook, c.1, c.2.len() as int, next));
        assert(body2.blocks[next as int].terminator == with_copied_args(b0.terminator));
        assert(body2.blocks[next as int].is_cleanup == b0.is_cleanup);
        assert(body2.blocks[block as int].is_cleanup == b0.is_cleanup);
        assert(body2.blocks[next as int].statements =~= Seq::<StatementView>::empty());
        assert(body2.blocks[block as int].statements.subrange(0, n_stmts as int) =~= b0.statements);
        assert(body2.locals.subrange(0, old(body)@.locals.len() as int) =~= old(body)@.locals);
    }
    assert(body@.blocks.len() == body1.blocks.len() + 1);
    assert(body1.blocks.len() == old(body)@.blocks.len());
    assert(block < body.basic_blocks@.len());
    // Run the traced call first, then the hook, then continue where the
    // traced call did.
    let mut hook_term = Terminator::Unreachable;
    std::mem::swap(&mut hook_term, &mut body.basic_blocks[block].terminator);
    let mut orig_term = Terminator::Unreachable;
    std::mem::swap(&mut orig_term, &mut body.basic_blocks[next].terminator);
    let (hook_term, orig_term) = match (hook_term, orig_term) {
        (
            Terminator::Call { func: hf, args: ha, destination: Some((hp, hd)), cleanup: hc },
            Terminator::Call { func: of, args: oa, destination: Some((op, od)), cleanup: oc },
        ) => (
            Terminator::Call { func: hf, args: ha, destination: Some((hp, od)), cleanup: hc },
            Terminator::Call { func: of, args: oa, destination: Some((op, hd)), cleanup: oc },
        ),
        (h, o) => (h, o),
    };
    body.basic_blocks[block].terminator = orig_term;
    body.basic_blocks[next].terminator = hook_term;
    let ghost extra_view = statements_view(extra@);
    body.basic_blocks[next].statements.append(&mut extra);
    proof {
        assert(body@.blocks[next as int].statements =~= extra_view);
        assert forall|j: int| 0 <= j < old(body)@.blocks.len() && j != block implies body@.blocks[j] == old(body)@.blocks[j] by {
            assert(body@.blocks[j] == body2.blocks[j]);
            assert(body2.blocks[j] == body1.blocks[j]);
            assert(body1.blocks[j] == old(body)@.blocks[j]);
        }
        assert(body@.blocks[block as int].statements == body2.blocks[block as int].statements);
        assert(forall|j: int| 0 <= j < old(body)@.blocks.len() && j != block ==> body@.blocks[j] == body2.blocks[j]);
        let expect = after_call_body(old(body)@, block as int, *hook, av0);
        assert(body@.blocks =~= expect.blocks);
    }
    Ok(next)
}

/// The constant `idx`, of type `u32`.
pub fn make_const(idx: u32) -> (r: Operand)
    ensures
        r@ == OperandView::Constant(Constant { value: idx as u128, ty: Ty::Int(IntTy::U32) }),
{
    Operand::Constant(Constant { value: idx as u128, ty: Ty::Int(IntTy::U32) })
}

/// A function that the body calls directly, with the given hash.
pub fn find_callee(body: &Body, hash: u128) -> (r: Option<FnRef>)
    ensures
        r matches Some(f) ==> f.hash == hash && calls_somewhere(body@, f@),
        r is None <==> !has_callee(body@, hash),
{
    let n = body.basic_blocks.len();
    let mut b: usize = 0;
    while b < n
        invariant
            n == body.basic_blocks@.len(),
            b <= n,
            forall|c: int| 0 <= c < b ==> !(#[trigger] calls_hash(body@.blocks[c].terminator, hash)),
        decreases n - b,
    {
        assert(body@.blocks[b as int].terminator == body.basic_blocks@[b as int].terminator@);
        if let Terminator::Call { func: Callee::Def(f), .. } = &body.basic_blocks[b].terminator {
            if f.hash == hash {
                let r = f.duplicate();
                let ghost t = body@.blocks[b as int].terminator;
                assert(t is Call);
                assert(t->func == CalleeView::Def(f@));
                assert(calls_fn(t, r@));
                assert(calls_hash(t, hash));
                assert(calls_somewhere(body@, r@));
                return Some(r);
            }
        }
        b = b + 1;
    }
    None
}

/// Whether the terminator calls the function `f` directly.
pub open spec fn calls_fn(t: TerminatorView, f: FnRefView) -> bool {
    match t {
        TerminatorView::Call { func, .. } => func == CalleeView::Def(f),
        _ => false,
    }
}

/// Whether some block of the body calls `f` directly.
pub open spec fn calls_somewhere(body: BodyView, f: FnRefView) -> bool {
    exists|b: int| 0 <= b < body.blocks.len() && #[trigger] calls_fn(body.blocks[b].terminator, f)
}

/// Whether the terminator calls directly a function with this hash.
pub open spec fn calls_hash(t: TerminatorView, hash: u128) -> bool {
    match t {
        TerminatorView::Call { func: CalleeView::Def(f), .. } => f.hash == hash,
        _ => false,
    }
}

/// Whether some block of the body calls directly a function with this hash.
pub open spec fn has_callee(body: BodyView, hash: u128) -> bool {
    exists|b: int| 0 <= b < body.blocks.len() && #[trigger] calls_hash(body.blocks[b].terminator, hash)
}

/// The record that registering point `p` of function `body_def` adds to the
/// location table (the function's name aside).
pub open spec fn records_point(rec: MirLocView, body_def: u128, p: PointView) -> bool {
    &&& rec.func_hash == body_def
    &&& rec.block == p.loc.block
    &&& rec.statement == p.loc.statement_index
    &&& rec.metadata == p.metadata
}

/// Whether the table holds a record of point `p` of function `body_def`.
pub open spec fn point_recorded(locs: Seq<MirLocView>, body_def: u128, p: PointView) -> bool {
    exists|i: int| 0 <= i < locs.len() && records_point(locs[i], body_def, p)
}

/// Where point `p` passes a value into a callee that the body calls
/// directly, the callee's name is known.
pub open spec fn callee_registered(prev: BodyView, p: PointView, names: Map<u128, Seq<char>>) -> bool {
    match p.metadata.transfer_kind {
        TransferKind::Arg(h) => has_callee(prev, h) ==> names.contains_key(h),
        _ => true,
    }
}

/// The first argument of a hook call: the index of its program point.
pub open spec fn idx_arg(idx: u32) -> ArgView {
    ArgView::AddressUsize(OperandView::Constant(Constant { value: idx as u128, ty: Ty::Int(IntTy::U32) }))
}

/// The arguments of point `p`'s hook call, where its program point has index
/// `idx`.
pub open spec fn point_args(p: PointView, idx: u32) -> Seq<ArgView> {
    seq![idx_arg(idx)] + p.args
}

/// The error that applying point `p` to the body meets, where its program
/// point has index `idx`; `None` where it succeeds.
pub open spec fn point_error(prev: BodyView, p: PointView, idx: u32) -> Option<RewriteError> {
    let block = p.loc.block as int;
    let i = p.loc.statement_index as int;
    let a = point_args(p, idx);
    if block >= prev.blocks.len() || i > prev.blocks[block].statements.len() {
        Some(RewriteError::BadLocation)
    } else if p.after_call {
        if i != prev.blocks[block].statements.len() {
            Some(RewriteError::BadLocation)
        } else {
            after_call_error(prev, block, a)
        }
    } else if !all_coercible(prev.locals, a) {
        Some(RewriteError::UncoercibleArgument)
    } else if prev.locals.len() + 2 * a.len() + 1 > u32::MAX {
        Some(RewriteError::TooManyLocals)
    } else {
        None
    }
}

/// The body after applying point `p`, where its program point has index
/// `idx`: the hook call before the point's statement, or after the call for
/// an after-call point; the new block is a cleanup block where the point is
/// one.
pub open spec fn point_body(prev: BodyView, hooks: Hooks, p: PointView, idx: u32) -> BodyView {
    let hook = hooks.get_spec(p.func);
    let a = point_args(p, idx);
    let bv = if p.after_call {
        after_call_body(prev, p.loc.block as int, hook, a)
    } else {
        split_with_call(prev, p.loc.block as int, p.loc.statement_index as int, hook, a)
    };
    if p.is_cleanup {
        BodyView {
            blocks: bv.blocks.update(
                prev.blocks.len() as int,
                BlockView { is_cleanup: true, ..bv.blocks[prev.blocks.len() as int] },
            ),
            ..bv
        }
    } else {
        bv
    }
}

/// Applies one point: registers its program point, then inserts the hook
/// call with the point's index as first argument, after the call terminator
/// for an after-call point. The block that follows the hook call is a cleanup
/// block where the point is one.
pub fn apply_point(
    state: &mut InstrumentMemoryOps,
    point: &InstrumentationPoint,
    hooks: &Hooks,
    body: &mut Body,
    body_def: u128,
) -> (r: Result<u32, RewriteError>)
    requires
        old(state).wf(),
        old(state).names().contains_key(body_def),
        hooks.wf(),
    ensures
        final(state).wf(),
        final(state).names().contains_key(body_def),
        final(state).locs().len() <= old(state).locs().len() + 1,
        final(state).locs().len() >= old(state).locs().len(),
        final(state).locs().subrange(0, old(state).locs().len() as int) == old(state).locs(),
        forall|h: u128| old(state).names().contains_key(h) ==> #[trigger] final(state).names().contains_key(h),
        callee_registered(old(body)@, point@, final(state).names()),
        r matches Ok(idx) ==> {
            &&& final(body)@.blocks.len() == old(body)@.blocks.len() + 1
            &&& point_recorded(final(state).locs(), body_def, point@)
            &&& idx < final(state).locs().len()
            &&& records_point(final(state).locs()[idx as int], body_def, point@)
            &&& point_error(old(body)@, point@, idx) is None
            &&& final(body)@ == point_body(old(body)@, *hooks, point@, idx)
        },
        r matches Err(e) ==> (e == RewriteError::TooManyLocations && old(state).locs().len() >= u32::MAX)
            || exists|idx: u32| point_error(old(body)@, point@, idx) == Some(e),
        old(state).locs().len() < u32::MAX && (forall|idx: u32| #[trigger] point_error(old(body)@, point@, idx) is None)
            ==> r is Ok,
{
    if let TransferKind::Arg(h) = point.metadata.transfer_kind {
        match find_callee(body, h) {
            Some(f) => {
                state.register_function(f.hash, f.name);
            },
            None => {},
        }
    }
    let ghost locs0 = state.locs();
    let ghost names0 = state.names();
    if state.num_locs() >= u32::MAX as usize {
        assert(state.locs().subrange(0, locs0.len() as int) =~= locs0);
        assert(locs0 == old(state).locs());
        return Err(RewriteError::TooManyLocations);
    }
    let ghost names1 = state.names();
    let loc_idx = state.get_mir_loc_idx(body_def, point.loc, point.metadata.duplicate());
    proof {
        let rec = MirLocView {
            func_hash: body_def,
            func_name: names1[body_def],
            block: point.loc.block,
            statement: point.loc.statement_index,
            metadata: point.metadata@,
        };
        if locs0.contains(rec) {
            assert(state.locs()[loc_idx as int] == rec);
        } else {
            assert(loc_idx == locs0.len());
            assert(state.locs()[locs0.len() as int] == rec);
        }
        assert(records_point(state.locs()[loc_idx as int], body_def, point@));
        assert(state.locs().subrange(0, locs0.len() as int) =~= locs0);
    }
    let mut args: Vec<InstrumentationArg> = Vec::new();
    args.push(InstrumentationArg::AddressUsize(make_const(loc_idx)));
    let ghost first = seq![ArgView::AddressUsize(OperandView::Constant(Constant { value: loc_idx as u128, ty: Ty::Int(IntTy::U32) }))];
    assert(args_view(args@) =~= first);
    let n = point.args.len();
    for i in 0..n
        invariant
            n == point.args@.len(),
            args_view(args@) == first + point@.args.subrange(0, i as int),
    {
        let ghost prev = args@;
        let a = point.args[i].duplicate();
        args.push(a);
        assert(point@.args[i as int] == point.args@[i as int]@);
        assert(args_view(args@) =~= args_view(prev).push(a@));
        assert(args_view(args@) =~= first + point@.args.subrange(0, i + 1));
    }
    assert(point@.args.subrange(0, n as int) =~= point@.args);
    let ghost a = args_view(args@);
    assert(a == point_args(point@, loc_idx));
    assert(body@ == old(body)@);
    let block = point.loc.block;
    if block >= body.basic_blocks.len()
        || point.loc.statement_index > body.basic_blocks[block].statements.len() {
        assert(point_error(old(body)@, point@, loc_idx) == Some(RewriteError::BadLocation));
        return Err(RewriteError::BadLocation);
    }
    let hook = hooks.get(point.func);
    let next = if point.after_call {
        if point.loc.statement_index != body.basic_blocks[block].statements.len() {
            assert(point_error(old(body)@, point@, loc_idx) == Some(RewriteError::BadLocation));
            return Err(RewriteError::BadLocation);
        }
        match insert_after_call(body, block, hook, args) {
            Ok(next) => next,
            Err(e) => {
                assert(point_error(old(body)@, point@, loc_idx) == Some(e));
                return Err(e);
            },
        }
    } else {
        match insert_call(body, block, point.loc.statement_index, hook, args) {
            Ok((next, _)) => {
                assert(body@.blocks.len() == old(body)@.blocks.len() + 1);
                next
            },
            Err(e) => {
                assert(point_error(old(body)@, point@, loc_idx) == Some(e));
                return Err(e);
            },
        }
    };
    assert(next < body@.blocks.len());
    assert(next == old(body)@.blocks.len());
    let ghost bv = body@;
    if point.is_cleanup {
        body.basic_blocks[next].is_cleanup = true;
        assert(body@.blocks =~= point_body(old(body)@, *hooks, point@, loc_idx).blocks);
    }
    Ok(loc_idx)
}

pub open spec fn points_view(ps: Seq<InstrumentationPoint>) -> Seq<PointView> {
    ps.map_values(|p: InstrumentationPoint| p@)
}

/// The body after applying the first `k` points in order, the j-th program
/// point having index `idxs[j]`.
pub open spec fn apply_all(prev: BodyView, hooks: Hooks, ps: Seq<PointView>, idxs: Seq<u32>, k: int) -> BodyView
    decreases k,
{
    if k <= 0 {
        prev
    } else {
        point_body(apply_all(prev, hooks, ps, idxs, k - 1), hooks, ps[k - 1], idxs[k - 1])
    }
}

/// Whether every point can be applied in turn, whatever index each one's
/// program point gets.
pub open spec fn applicable(prev: BodyView, hooks: Hooks, ps: Seq<PointView>) -> bool {
    forall|idxs: Seq<u32>, k: int| 0 <= k < ps.len() && idxs.len() == ps.len()
        ==> #[trigger] point_error(apply_all(prev, hooks, ps, idxs, k), ps[k], idxs[k]) is None
}

/// Applying the first `k` points reads only their `k` indices.
pub proof fn lemma_apply_all_prefix(prev: BodyView, hooks: Hooks, ps: Seq<PointView>, s1: Seq<u32>, s2: Seq<u32>, k: int)
    requires
        0 <= k <= s1.len(),
        k <= s2.len(),
        forall|j: int| 0 <= j < k ==> s1[j] == s2[j],
    ensures
        apply_all(prev, hooks, ps, s1, k) == apply_all(prev, hooks, ps, s2, k),
    decreases k,
{
    if k > 0 {
        lemma_apply_all_prefix(prev, hooks, ps, s1, s2, k - 1);
    }
}

/// Applies the points in the order given (the collector's reverse program
/// order), each splitting off one new block, and returns the index of each
/// one's program point. Succeeds whenever every point can be applied and the
/// table has room for all of them.
pub fn apply_instrumentation(
    state: &mut InstrumentMemoryOps,
    points: &Vec<InstrumentationPoint>,
    hooks: &Hooks,
    body: &mut Body,
    body_def: u128,
) -> (r: Result<Vec<u32>, RewriteError>)
    requires
        old(state).wf(),
        old(state).names().contains_key(body_def),
        hooks.wf(),
    ensures
        final(state).wf(),
        final(state).names().contains_key(body_def),
        forall|h: u128| old(state).names().contains_key(h) ==> #[trigger] final(state).names().contains_key(h),
        final(state).locs().len() >= old(state).locs().len(),
        final(state).locs().subrange(0, old(state).locs().len() as int) == old(state).locs(),
        r matches Ok(idxs) ==> {
            let pv = points_view(points@);
            &&& idxs@.len() == points@.len()
            &&& final(body)@ == apply_all(old(body)@, *hooks, pv, idxs@, points@.len() as int)
            &&& final(body)@.blocks.len() == old(body)@.blocks.len() + points@.len()
            &&& forall|k: int| 0 <= k < points@.len() ==> #[trigger] point_recorded(final(state).locs(), body_def, points@[k]@)
            &&& forall|k: int| 0 <= k < points@.len() ==> idxs@[k] < final(state).locs().len()
                && records_point(final(state).locs()[#[trigger] idxs@[k] as int], body_def, pv[k])
            &&& forall|k: int| 0 <= k < points@.len() ==> #[trigger] callee_registered(
                apply_all(old(body)@, *hooks, pv, idxs@, k), pv[k], final(state).names())
        },
        r matches Err(e) ==> !applicable(old(body)@, *hooks, points_view(points@))
            || (e == RewriteError::TooManyLocations && old(state).locs().len() + points@.len() > u32::MAX),
        old(state).locs().len() + points@.len() <= u32::MAX && applicable(old(body)@, *hooks, points_view(points@))
            ==> r is Ok,
{
    let ghost pv = points_view(points@);
    let mut idxs: Vec<u32> = Vec::new();
    let n = points.len();
    let mut k: usize = 0;
    while k < n
        invariant
            k <= n,
            n == points@.len(),
            pv == points_view(points@),
            idxs@.len() == k,
            state.wf(),
            state.names().contains_key(body_def),
            forall|h: u128| old(state).names().contains_key(h) ==> #[trigger] state.names().contains_key(h),
            state.locs().len() >= old(state).locs().len(),
            state.locs().len() <= old(state).locs().len() + k,
            state.locs().subrange(0, old(state).locs().len() as int) == old(state).locs(),
            body@ == apply_all(old(body)@, *hooks, pv, idxs@, k as int),
            body@.blocks.len() == old(body)@.blocks.len() + k,
            hooks.wf(),
            forall|j: int| 0 <= j < k ==> #[trigger] point_recorded(state.locs(), body_def, points@[j]@),
            forall|j: int| 0 <= j < k ==> idxs@[j] < state.locs().len()
                && records_point(state.locs()[#[trigger] idxs@[j] as int], body_def, pv[j]),
            forall|j: int| 0 <= j < k ==> #[trigger] callee_registered(
                apply_all(old(body)@, *hooks, pv, idxs@, j), pv[j], state.names()),
        decreases n - k,
    {
        let ghost locs_before = state.locs();
        let ghost names_before = state.names();
        let ghost idxs_before = idxs@;
        let ghost body_before = body@;
        assert(points@[k as int]@ == pv[k as int]);
        proof {
            if old(state).locs().len() + n <= u32::MAX && applicable(old(body)@, *hooks, pv) {
                assert forall|v: u32| #[trigger] point_error(body_before, pv[k as int], v) is None by {
                    let s = idxs_before.push(v) + Seq::new((n - k - 1) as nat, |i: int| 0u32);
                    lemma_apply_all_prefix(old(body)@, *hooks, pv, s, idxs_before, k as int);
                    assert(s[k as int] == v);
                    assert(point_error(apply_all(old(body)@, *hooks, pv, s, k as int), pv[k as int], s[k as int]) is None);
                }
            }
        }
        let idx = match apply_point(state, &points[k], hooks, body, body_def) {
            Ok(idx) => idx,
            Err(e) => {
                proof {
                    assert(state.locs().subrange(0, old(state).locs().len() as int)
                        =~= state.locs().subrange(0, locs_before.len() as int).subrange(0, old(state).locs().len() as int));
                    if !(e == RewriteError::TooManyLocations && locs_before.len() >= u32::MAX) {
                        let v = choose|v: u32| point_error(body_before, pv[k as int], v) == Some(e);
                        let s = idxs_before.push(v) + Seq::new((n - k - 1) as nat, |i: int| 0u32);
                        lemma_apply_all_prefix(old(body)@, *hooks, pv, s, idxs_before, k as int);
                        assert(s[k as int] == v);
                        assert(point_error(apply_all(old(body)@, *hooks, pv, s, k as int), pv[k as int], s[k as int]) is Some);
                    }
                }
                return Err(e);
            },
        };
        idxs.push(idx);
        proof {
            assert(state.locs().subrange(0, old(state).locs().len() as int)
                =~= state.locs().subrange(0, locs_before.len() as int).subrange(0, old(state).locs().len() as int));
            assert(state.locs().subrange(0, locs_before.len() as int) == locs_before);
            lemma_apply_all_prefix(old(body)@, *hooks, pv, idxs@, idxs_before, k as int);
            assert(body@ == apply_all(old(body)@, *hooks, pv, idxs@, k + 1));
            assert forall|j: int| 0 <= j < k + 1 implies #[trigger] point_recorded(state.locs(), body_def, points@[j]@) by {
                if j < k {
                    assert(point_recorded(locs_before, body_def, points@[j]@));
                    let i0 = choose|i: int| 0 <= i < locs_before.len() && records_point(locs_before[i], body_def, points@[j]@);
                    assert(state.locs()[i0] == state.locs().subrange(0, locs_before.len() as int)[i0]);
                    assert(records_point(state.locs()[i0], body_def, points@[j]@));
                }
            }
            assert forall|j: int| 0 <= j < k + 1 implies idxs@[j] < state.locs().len()
                && records_point(state.locs()[#[trigger] idxs@[j] as int], body_def, pv[j]) by {
                if j < k {
                    assert(idxs@[j] == idxs_before[j]);
                    assert(state.locs()[idxs@[j] as int] == state.locs().subrange(0, locs_before.len() as int)[idxs@[j] as int]);
                }
            }
            assert forall|j: int| 0 <= j < k + 1 implies #[trigger] callee_registered(
                apply_all(old(body)@, *hooks, pv, idxs@, j), pv[j], state.names()) by {
                lemma_apply_all_prefix(old(body)@, *hooks, pv, idxs@, idxs_before, j);
                if j < k {
                    assert(callee_registered(apply_all(old(body)@, *hooks, pv, idxs_before, j), pv[j], names_before));
                }
            }
        }
        k = k + 1;
    }
    Ok(idxs)
}

/// Whether the terminator leaves the function: a return, or a resumption of
/// unwinding.
pub open spec fn is_exit(t: TerminatorView) -> bool {
    t is Return || t is Resume
}

/// Whether the terminator calls `hook`.
pub open spec fn calls_hook(t: TerminatorView, hook: RuntimeFn) -> bool {
    match t {
        TerminatorView::Call { func, .. } => func == CalleeView::Def(hook.func@),
        _ => false,
    }
}

/// The block a call terminator continues in.
pub open spec fn dest_block(t: TerminatorView) -> int {
    match t {
        TerminatorView::Call { destination: Some((_, d)), .. } => d as int,
        _ => -1,
    }
}

/// Whether block `c` is empty and calls `fini`, continuing in a block that
/// holds the statements and the terminator of `orig`.
pub open spec fn finalizes_before(blocks: Seq<BlockView>, c: int, fini: RuntimeFn, orig: BlockView) -> bool {
    &&& blocks[c].statements.len() == 0
    &&& calls_hook(blocks[c].terminator, fini)
    &&& match blocks[c].terminator {
        TerminatorView::Call { destination: Some((_, d)), cleanup, .. } => {
            &&& cleanup is None
            &&& d < blocks.len()
            &&& blocks[d as int].statements == orig.statements
            &&& blocks[d as int].terminator == orig.terminator
        },
        _ => false,
    }
}

/// Whether a body has a block and room in its locals for the calls that
/// start and end the runtime.
pub open spec fn entry_ok(prev: BodyView) -> bool {
    prev.blocks.len() > 0 && prev.locals.len() + prev.blocks.len() + 2 <= u32::MAX
}

/// Whether `new` is `prev` with the runtime's start and end added: block 0
/// calls the initializing hook and continues in a new block holding block 0's
/// old content; every exit block calls the finalizing hook first; the other
/// blocks are unchanged.
pub open spec fn entry_instrumented(prev: BodyView, new: BodyView, hooks: Hooks) -> bool {
    let fini = hooks.get_spec(HookKind::Finalize);
    let last = prev.blocks.len() as int;
    &&& new.blocks.len() >= prev.blocks.len() + 1
    &&& new.blocks[0].statements.len() == 0
    &&& new.blocks[0].terminator == hook_call(
        hooks.get_spec(HookKind::Initialize),
        Seq::empty(),
        prev.locals.len() as int,
        prev.blocks.len() as usize,
    )
    &&& new.locals.subrange(0, prev.locals.len() as int) == prev.locals
    &&& forall|c: int| 0 < c < prev.blocks.len() && #[trigger] is_exit(prev.blocks[c].terminator)
        ==> finalizes_before(new.blocks, c, fini, prev.blocks[c])
    &&& forall|c: int| 0 < c < prev.blocks.len() && !is_exit(prev.blocks[c].terminator)
        ==> #[trigger] new.blocks[c] == prev.blocks[c]
    &&& is_exit(prev.blocks[0].terminator) ==> finalizes_before(new.blocks, last, fini, prev.blocks[0])
    &&& !is_exit(prev.blocks[0].terminator) ==> new.blocks[last].statements == prev.blocks[0].statements
        && new.blocks[last].terminator == prev.blocks[0].terminator
}

/// Adds the runtime's start and end to the program's entry function: a call
/// of the initializing hook before anything else, and a call of the
/// finalizing hook before every return and every resumption of unwinding.
/// Fails only on a body without blocks, or with too many locals to add one
/// per inserted call.
pub fn instrument_entry_fn(hooks: &Hooks, body: &mut Body) -> (r: Result<(), RewriteError>)
    requires
        hooks.wf(),
    ensures
        entry_ok(old(body)@) ==> r is Ok,
        r matches Err(e) ==> (e == RewriteError::BadLocation && old(body)@.blocks.len() == 0)
            || (e == RewriteError::TooManyLocals && old(body)@.locals.len() + old(body)@.blocks.len() + 2 > u32::MAX),
        r is Ok ==> entry_instrumented(old(body)@, final(body)@, *hooks),
{
    if body.basic_blocks.len() == 0 {
        return Err(RewriteError::BadLocation);
    }
    let init = hooks.get(HookKind::Initialize);
    let fini = hooks.get(HookKind::Finalize);
    match insert_call(body, 0, 0, init, Vec::new()) {
        Ok(_) => {},
        Err(e) => {
            assert(args_view(Seq::<InstrumentationArg>::empty()) =~= Seq::<ArgView>::empty());
            return Err(e);
        },
    }
    let ghost after_init = body@;
    proof {
        assert(args_view(Seq::<InstrumentationArg>::empty()) =~= Seq::<ArgView>::empty());
        assert(coerce_all(old(body)@.locals, Seq::<ArgView>::empty()).2 == old(body)@.locals);
        assert(after_init.blocks.len() == old(body)@.blocks.len() + 1);
        assert(after_init.locals =~= old(body)@.locals.push(init.ret));
        assert(after_init.blocks[0].statements =~= Seq::<StatementView>::empty());
    }
    let mut exits: Vec<usize> = Vec::new();
    let n = body.basic_blocks.len();
    for b in 0..n
        invariant
            n == body.basic_blocks@.len(),
            body@ == after_init,
            exits@.len() <= b,
            forall|i: int, j: int| 0 <= i < j < exits@.len() ==> exits@[i] < exits@[j],
            forall|i: int| 0 <= i < exits@.len() ==> 0 < #[trigger] exits@[i] < b,
            forall|i: int| 0 <= i < exits@.len() ==> #[trigger] is_exit(after_init.blocks[exits@[i] as int].terminator),
            forall|c: int| 0 < c < b && #[trigger] is_exit(after_init.blocks[c].terminator)
                ==> exists|i: int| 0 <= i < exits@.len() && exits@[i] == c,
    {
        assert(body@.blocks[b as int].terminator == body.basic_blocks@[b as int].terminator@);
        let exit = match &body.basic_blocks[b].terminator {
            Terminator::Return | Terminator::Resume => b > 0,
            _ => false,
        };
        let ghost ex0 = exits@;
        if exit {
            exits.push(b);
            proof {
                assert forall|c: int| 0 < c < b + 1 && #[trigger] is_exit(after_init.blocks[c].terminator)
                    implies exists|i: int| 0 <= i < exits@.len() && exits@[i] == c by {
                    if c == b {
                        assert(exits@[exits@.len() - 1] == c);
                    } else {
                        let i0 = choose|i: int| 0 <= i < ex0.len() && ex0[i] == c;
                        assert(exits@[i0] == ex0[i0]);
                    }
                }
                assert forall|i: int| 0 <= i < exits@.len() implies #[trigger] is_exit(after_init.blocks[exits@[i] as int].terminator) by {
                    if i < ex0.len() {
                        assert(exits@[i] == ex0[i]);
                    }
                }
            }
        }
    }
    let m = exits.len();
    for k in 0..m
        invariant
            m == exits@.len(),
            m <= n,
            forall|i: int, j: int| 0 <= i < j < exits@.len() ==> exits@[i] < exits@[j],
            forall|i: int| 0 <= i < exits@.len() ==> 0 < #[trigger] exits@[i] < n,
            n == after_init.blocks.len(),
            n == old(body)@.blocks.len() + 1,
            after_init.locals.len() == old(body)@.locals.len() + 1,
            old(body)@.blocks.len() > 0 && old(body)@.locals.len() + old(body)@.blocks.len() + 2 <= u32::MAX
                || old(body)@.locals.len() + old(body)@.blocks.len() + 2 > u32::MAX,
            body@.locals.len() == after_init.locals.len() + k,
            body@.locals.subrange(0, after_init.locals.len() as int) == after_init.locals,
            body@.blocks.len() == n + k,
            forall|i: int| 0 <= i < k ==> #[trigger] finalizes_before(body@.blocks, exits@[i] as int, *fini,
                after_init.blocks[exits@[i] as int]),
            forall|i: int| 0 <= i < k ==> dest_block(body@.blocks[#[trigger] exits@[i] as int].terminator) >= n,
            forall|i: int| 0 <= i < exits@.len() ==> #[trigger] is_exit(after_init.blocks[exits@[i] as int].terminator),
            forall|c: int| 0 <= c < n && (forall|i: int| 0 <= i < k ==> exits@[i] != c)
                ==> #[trigger] body@.blocks[c] == after_init.blocks[c],
    {
        let b = exits[k];
        let ghost before = body@;
        proof {
            assert(args_view(Seq::<InstrumentationArg>::empty()) =~= Seq::<ArgView>::empty());
            assert(coerce_all(before.locals, Seq::<ArgView>::empty()).2 == before.locals);
            assert(forall|i: int| 0 <= i < k ==> exits@[i] != exits@[k as int]) by {
                assert(forall|i: int| 0 <= i < k ==> exits@[i] < exits@[k as int]);
            }
            assert(before.blocks[b as int] == after_init.blocks[b as int]);
        }
        match insert_call(body, b, 0, fini, Vec::new()) {
            Ok(_) => {},
            Err(e) => {
                return Err(e);
            },
        }
        proof {
            assert(body@.locals =~= before.locals.push(fini.ret));
            assert(body@.locals.subrange(0, after_init.locals.len() as int) =~= after_init.locals);
            assert(body@.blocks[b as int].statements =~= Seq::<StatementView>::empty());
            assert(body@.blocks[(n + k) as int].statements =~= after_init.blocks[b as int].statements);
            assert forall|i: int| 0 <= i < k + 1 implies #[trigger] finalizes_before(body@.blocks, exits@[i] as int, *fini,
                after_init.blocks[exits@[i] as int]) by {
                if i < k {
                    assert(exits@[i] < exits@[k as int]);
                    assert(finalizes_before(before.blocks, exits@[i] as int, *fini, after_init.blocks[exits@[i] as int]));
                    assert(body@.blocks[exits@[i] as int] == before.blocks[exits@[i] as int]);
                    let d = before.blocks[exits@[i] as int].terminator->destination.unwrap().1;
                    assert(dest_block(before.blocks[exits@[i] as int].terminator) >= n);
                    assert(body@.blocks[d as int] == before.blocks[d as int]);
                }
            }
            assert forall|i: int| 0 <= i < k + 1 implies dest_block(body@.blocks[#[trigger] exits@[i] as int].terminator) >= n by {
                if i < k {
                    assert(exits@[i] < exits@[k as int]);
                    assert(body@.blocks[exits@[i] as int] == before.blocks[exits@[i] as int]);
                }
            }
            assert forall|c: int| 0 <= c < n && (forall|i: int| 0 <= i < k + 1 ==> exits@[i] != c)
                implies #[trigger] body@.blocks[c] == after_init.blocks[c] by {
                assert(exits@[k as int] != c);
                assert(before.blocks[c] == after_init.blocks[c]);
            }
        }
    }
    proof {
        let fini_s = hooks.get_spec(HookKind::Finalize);
        assert(body@.blocks[0] == after_init.blocks[0]) by {
            assert(forall|i: int| 0 <= i < m ==> exits@[i] != 0);
        }
        assert(body@.locals.subrange(0, old(body)@.locals.len() as int) =~= old(body)@.locals) by {
            assert(after_init.locals.subrange(0, old(body)@.locals.len() as int) =~= old(body)@.locals);
            assert(body@.locals.subrange(0, old(body)@.locals.len() as int)
                =~= body@.locals.subrange(0, after_init.locals.len() as int).subrange(0, old(body)@.locals.len() as int));
        }
        assert forall|c: int| 0 < c < old(body)@.blocks.len() && #[trigger] is_exit(old(body)@.blocks[c].terminator)
            implies finalizes_before(body@.blocks, c, fini_s, old(body)@.blocks[c]) by {
            assert(after_init.blocks[c] == old(body)@.blocks[c]);
            let i = choose|i: int| 0 <= i < exits@.len() && exits@[i] == c;
            assert(finalizes_before(body@.blocks, exits@[i] as int, *fini, after_init.blocks[exits@[i] as int]));
        }
        assert forall|c: int| 0 < c < old(body)@.blocks.len() && !is_exit(old(body)@.blocks[c].terminator)
            implies #[trigger] body@.blocks[c] == old(body)@.blocks[c] by {
            assert(after_init.blocks[c] == old(body)@.blocks[c]);
            assert forall|i: int| 0 <= i < m implies exits@[i] != c by {
                assert(is_exit(after_init.blocks[exits@[i] as int].terminator));
            }
        }
        let last = old(body)@.blocks.len() as int;
        assert(after_init.blocks[last].terminator == old(body)@.blocks[0].terminator);
        assert(after_init.blocks[last].statements =~= old(body)@.blocks[0].statements);
        if is_exit(old(body)@.blocks[0].terminator) {
            let i = choose|i: int| 0 <= i < exits@.len() && exits@[i] == last;
            assert(finalizes_before(body@.blocks, exits@[i] as int, *fini, after_init.blocks[exits@[i] as int]));
        } else {
            assert forall|i: int| 0 <= i < m implies exits@[i] != last by {
                assert(is_exit(after_init.blocks[exits@[i] as int].terminator));
            }
            assert(body@.blocks[last] == after_init.blocks[last]);
        }
    }
    Ok(())
}

} // verus!
