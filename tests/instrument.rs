use dynamic_instrumentation::collect::{collect_points, CollectError};
use dynamic_instrumentation::instrument::InstrumentError;
use dynamic_instrumentation::location_table::InstrumentMemoryOps;
use dynamic_instrumentation::mir::{
    BasicBlockData, Body, BorrowKind, Callee, Constant, FnRef, IntTy, Location, Mutability, Operand,
    Place, Projection, Rvalue, Statement, Terminator, Ty,
};
use dynamic_instrumentation::mir_loc::{MirProjection, TransferKind};
use dynamic_instrumentation::points::{
    into_application_order, memory_primitive, HookKind, Hooks, InstrumentationArg,
    InstrumentationPoint, RuntimeFn, NUM_HOOKS,
};
use dynamic_instrumentation::rewrite::{apply_point, find_callee, insert_after_call, insert_call, RewriteError};

const HOOK_NAMES: [&str; NUM_HOOKS] = [
    "ptr_field",
    "ptr_copy",
    "addr_of_local",
    "ptr_contrive",
    "ptr_to_int",
    "load_value",
    "store_value",
    "ptr_store",
    "ptr_load",
    "ptr_ret",
    "malloc",
    "free",
    "calloc",
    "realloc",
    "reallocarray",
    "initialize",
    "finalize",
];

fn runtime() -> Vec<RuntimeFn> {
    HOOK_NAMES
        .iter()
        .enumerate()
        .map(|(i, n)| RuntimeFn {
            func: FnRef { hash: 1000 + i as u128, name: n.to_string() },
            ret: Ty::Unit,
        })
        .collect()
}

fn hook_name_of(hash: u128) -> Option<&'static str> {
    if (1000..1000 + NUM_HOOKS as u128).contains(&hash) {
        Some(HOOK_NAMES[(hash - 1000) as usize])
    } else {
        None
    }
}

fn local(l: u32) -> Place {
    Place { local: l, projection: vec![] }
}

fn deref(l: u32) -> Place {
    Place { local: l, projection: vec![Projection::Deref] }
}

fn i32_ty() -> Ty {
    Ty::Int(IntTy::I32)
}

/// The hooks called along the path from block 0, following each call's
/// return edge, until a return.
fn hooks_in_order(body: &Body) -> Vec<&'static str> {
    let mut out = vec![];
    let mut b = 0usize;
    for _ in 0..100 {
        match &body.basic_blocks[b].terminator {
            Terminator::Call { func, destination, .. } => {
                if let Callee::Def(f) = func {
                    if let Some(n) = hook_name_of(f.hash) {
                        out.push(n);
                    }
                }
                b = destination.as_ref().unwrap().1;
            }
            Terminator::Goto(t) => b = *t,
            _ => break,
        }
    }
    out
}

/// `let p = &mut x; *p = 5;` with x in local 1 and p in local 2.
fn borrow_then_store_body() -> Body {
    Body {
        basic_blocks: vec![BasicBlockData {
            statements: vec![
                Statement::Assign(local(2), Rvalue::Ref(BorrowKind::Mut, local(1))),
                Statement::Assign(
                    deref(2),
                    Rvalue::Use(Operand::Constant(Constant { value: 5, ty: i32_ty() })),
                ),
            ],
            terminator: Terminator::Return,
            is_cleanup: false,
        }],
        local_decls: vec![Ty::Unit, i32_ty(), Ty::Ref(Mutability::Mut, Box::new(i32_ty()))],
    }
}

#[test]
fn borrow_then_store_traces_address_of_local_then_store() {
    let mut ops = InstrumentMemoryOps::new();
    let mut body = borrow_then_store_body();
    let f = FnRef { hash: 42, name: "main".to_string() };
    ops.instrument_fn(&runtime(), &mut body, &f, false).unwrap();
    assert_eq!(hooks_in_order(&body), vec!["addr_of_local", "ptr_store"]);

    let meta = ops.finalize();
    assert_eq!(meta.locs.len(), 2);
    // Points are registered in application order: the store first.
    let store = &meta.locs[0];
    let addr = &meta.locs[1];
    assert_eq!((store.basic_block_idx, store.statement_idx), (0, 1));
    assert_eq!(store.metadata.source.as_ref().unwrap().local, 2);
    assert_eq!((addr.basic_block_idx, addr.statement_idx), (0, 0));
    assert_eq!(addr.metadata.source.as_ref().unwrap().local, 1);
    assert_eq!(addr.metadata.destination.as_ref().unwrap().local, 2);
    assert_eq!(meta.functions.get(&42).map(|s| s.as_str()), Some("main"));
}

#[test]
fn borrow_then_store_collects_two_points() {
    let body = borrow_then_store_body();
    let points = collect_points(&body, 42).unwrap();
    assert_eq!(points.len(), 2);
    assert_eq!(points[0].func, HookKind::AddrOfLocal);
    assert_eq!(points[0].loc, Location { block: 0, statement_index: 0 });
    assert!(matches!(points[0].args[0], InstrumentationArg::Place(_)));
    assert_eq!(points[1].func, HookKind::PtrStore);
    assert_eq!(points[1].loc, Location { block: 0, statement_index: 1 });
    assert!(matches!(points[1].args[0], InstrumentationArg::Reference(_)));
    assert_eq!(points[0].id, 0);
    assert_eq!(points[1].id, 1);
}

/// `p = malloc(n)` with n in local 1 and p in local 2, caller hash 100.
fn malloc_body() -> Body {
    Body {
        basic_blocks: vec![
            BasicBlockData {
                statements: vec![],
                terminator: Terminator::Call {
                    func: Callee::Def(FnRef { hash: 7, name: "malloc".to_string() }),
                    args: vec![Operand::Move(local(1))],
                    destination: Some((local(2), 1)),
                    cleanup: None,
                },
                is_cleanup: false,
            },
            BasicBlockData { statements: vec![], terminator: Terminator::Return, is_cleanup: false },
        ],
        local_decls: vec![
            Ty::Unit,
            Ty::Int(IntTy::Usize),
            Ty::RawPtr(Mutability::Mut, Box::new(Ty::Int(IntTy::U8))),
        ],
    }
}

#[test]
fn allocation_is_traced_once_after_the_call() {
    let body = malloc_body();
    let points = collect_points(&body, 100).unwrap();
    assert_eq!(points.len(), 1);
    let p = &points[0];
    assert_eq!(p.func, HookKind::Malloc);
    assert!(p.after_call);
    assert_eq!(p.metadata.transfer_kind, TransferKind::Ret(100));
    assert_eq!(p.args.len(), 1);
    assert!(matches!(&p.args[0], InstrumentationArg::AddressUsize(Operand::Move(q)) if q.local == 1));
    assert_eq!(p.metadata.destination.as_ref().unwrap().local, 2);

    let mut ops = InstrumentMemoryOps::new();
    let mut body = malloc_body();
    let f = FnRef { hash: 100, name: "caller".to_string() };
    ops.instrument_fn(&runtime(), &mut body, &f, false).unwrap();
    assert_eq!(body.basic_blocks.len(), 3);
    // The allocation runs first, in block 0, and now returns to block 2.
    match &body.basic_blocks[0].terminator {
        Terminator::Call { func: Callee::Def(f), args, destination, .. } => {
            assert_eq!(f.hash, 7);
            assert!(matches!(&args[0], Operand::Copy(q) if q.local == 1));
            assert_eq!(destination.as_ref().unwrap().1, 2);
        }
        t => panic!("unexpected terminator {:?}", t),
    }
    // Block 2 casts the result and calls the hook, then continues to block 1.
    let b2 = &body.basic_blocks[2];
    assert_eq!(b2.statements.len(), 1);
    match &b2.terminator {
        Terminator::Call { func: Callee::Def(h), args, destination, cleanup } => {
            assert_eq!(hook_name_of(h.hash), Some("malloc"));
            assert_eq!(args.len(), 3);
            assert!(matches!(&args[1], Operand::Move(q) if q.local == 1));
            assert!(matches!(&args[2], Operand::Move(_)));
            assert_eq!(destination.as_ref().unwrap().1, 1);
            assert!(cleanup.is_none());
        }
        t => panic!("unexpected terminator {:?}", t),
    }
    assert_eq!(hooks_in_order(&body), vec!["malloc"]);
}

#[test]
fn missing_hook_leaves_body_untouched() {
    let mut rt = runtime();
    rt.retain(|r| r.func.name != "ptr_store");
    let mut ops = InstrumentMemoryOps::new();
    let mut body = borrow_then_store_body();
    let f = FnRef { hash: 42, name: "main".to_string() };
    let r = ops.instrument_fn(&rt, &mut body, &f, false);
    assert_eq!(r, Err(InstrumentError::MissingHook(HookKind::PtrStore)));
    assert_eq!(body, borrow_then_store_body());
    assert_eq!(ops.num_locs(), 0);
}

#[test]
fn resolve_finds_every_hook() {
    let hooks = Hooks::resolve(&runtime()).ok().unwrap();
    assert_eq!(hooks.get(HookKind::PtrStore).func.hash, 1007);
    assert_eq!(hooks.get(HookKind::Finalize).func.name, "finalize");
}

#[test]
fn split_keeps_prefix_and_moves_suffix() {
    let mut body = borrow_then_store_body();
    let hooks = Hooks::resolve(&runtime()).ok().unwrap();
    let hook = hooks.get(HookKind::PtrCopy);
    let args = vec![InstrumentationArg::AddressUsize(Operand::Constant(Constant {
        value: 3,
        ty: Ty::Int(IntTy::U32),
    }))];
    let (next, ret) = insert_call(&mut body, 0, 1, hook, args).unwrap();
    assert_eq!(next, 1);
    assert_eq!(ret, 3);
    assert_eq!(body.basic_blocks.len(), 2);
    assert_eq!(
        body.basic_blocks[0].statements,
        vec![Statement::Assign(local(2), Rvalue::Ref(BorrowKind::Mut, local(1)))]
    );
    assert_eq!(body.basic_blocks[1].statements.len(), 1);
    assert_eq!(body.basic_blocks[1].terminator, Terminator::Return);
    match &body.basic_blocks[0].terminator {
        Terminator::Call { destination, cleanup, .. } => {
            assert_eq!(destination.as_ref().unwrap().1, 1);
            assert!(cleanup.is_none());
        }
        t => panic!("unexpected terminator {:?}", t),
    }
    assert_eq!(body.local_decls.len(), 4);
}

#[test]
fn split_coerces_reference_through_raw_pointer() {
    let mut body = borrow_then_store_body();
    let hooks = Hooks::resolve(&runtime()).ok().unwrap();
    let hook = hooks.get(HookKind::PtrStore);
    let args = vec![InstrumentationArg::Reference(Operand::Copy(local(2)))];
    insert_call(&mut body, 0, 2, hook, args).unwrap();
    let stmts = &body.basic_blocks[0].statements;
    assert_eq!(stmts.len(), 4);
    assert_eq!(
        stmts[2],
        Statement::Assign(local(3), Rvalue::AddressOf(Mutability::Mut, deref(2)))
    );
    assert_eq!(
        stmts[3],
        Statement::Assign(local(4), Rvalue::Cast(Operand::Move(local(3)), Ty::Int(IntTy::Usize)))
    );
    match &body.basic_blocks[0].terminator {
        Terminator::Call { args, .. } => assert_eq!(args[0], Operand::Move(local(4))),
        t => panic!("unexpected terminator {:?}", t),
    }
}

#[test]
fn split_refuses_an_uncoercible_argument() {
    let mut body = borrow_then_store_body();
    let hooks = Hooks::resolve(&runtime()).ok().unwrap();
    let hook = hooks.get(HookKind::PtrCopy);
    // Local 1 is an integer, not a pointer.
    let args = vec![InstrumentationArg::RawPtr(Operand::Copy(local(1)))];
    let r = insert_call(&mut body, 0, 0, hook, args);
    assert_eq!(r, Err(RewriteError::UncoercibleArgument));
    assert_eq!(body, borrow_then_store_body());
}

#[test]
fn after_call_runs_the_call_then_the_hook() {
    let mut body = malloc_body();
    let hooks = Hooks::resolve(&runtime()).ok().unwrap();
    let hook = hooks.get(HookKind::Malloc);
    let next = insert_after_call(&mut body, 0, hook, vec![]).unwrap();
    assert_eq!(next, 2);
    assert_eq!(hooks_in_order(&body), vec!["malloc"]);
    match &body.basic_blocks[0].terminator {
        Terminator::Call { func: Callee::Def(f), destination, .. } => {
            assert_eq!(f.hash, 7);
            assert_eq!(destination.as_ref().unwrap().1, 2);
        }
        t => panic!("unexpected terminator {:?}", t),
    }
    assert_eq!(
        body.basic_blocks[2].statements,
        vec![Statement::Assign(local(3), Rvalue::Cast(Operand::Copy(local(2)), Ty::Int(IntTy::Usize)))]
    );
}

#[test]
fn after_call_needs_a_call() {
    let mut body = borrow_then_store_body();
    let hooks = Hooks::resolve(&runtime()).ok().unwrap();
    let r = insert_after_call(&mut body, 0, hooks.get(HookKind::Malloc), vec![]);
    assert_eq!(r, Err(RewriteError::NotACall));
}

#[test]
fn points_apply_in_reverse_program_order() {
    let mk = |block, stmt, after| {
        let mut p = InstrumentationPoint::new(Location { block, statement_index: stmt }, HookKind::PtrCopy);
        p.after_call = after;
        p
    };
    let mut pts = vec![mk(0, 1, false), mk(1, 0, false), mk(0, 1, true), mk(0, 3, false), mk(0, 1, false)];
    for (i, p) in pts.iter_mut().enumerate() {
        p.id = i;
    }
    let order: Vec<usize> = into_application_order(pts).iter().map(|p| p.id).collect();
    assert_eq!(order, vec![1, 3, 2, 4, 0]);
}

#[test]
fn memory_primitives_are_recognized_by_name() {
    assert_eq!(memory_primitive(&"realloc".to_string()), Some(HookKind::Realloc));
    assert_eq!(memory_primitive(&"free".to_string()), Some(HookKind::Free));
    assert_eq!(memory_primitive(&"strlen".to_string()), None);
}

#[test]
fn field_through_pointer_is_traced() {
    // _2 = (*_1).3 where _1: *mut S
    let body = Body {
        basic_blocks: vec![BasicBlockData {
            statements: vec![Statement::Assign(
                local(2),
                Rvalue::Use(Operand::Copy(Place {
                    local: 1,
                    projection: vec![Projection::Deref, Projection::Field(3, i32_ty())],
                })),
            )],
            terminator: Terminator::Return,
            is_cleanup: false,
        }],
        local_decls: vec![Ty::Unit, Ty::RawPtr(Mutability::Mut, Box::new(Ty::Adt(0))), i32_ty()],
    };
    let points = collect_points(&body, 1).unwrap();
    assert_eq!(points.len(), 2);
    assert_eq!(points[0].func, HookKind::PtrField);
    assert!(matches!(
        &points[0].args[1],
        InstrumentationArg::AddressUsize(Operand::Constant(c)) if c.value == 3
    ));
    let src = points[0].metadata.source.as_ref().unwrap();
    assert_eq!(src.projection, vec![MirProjection::Deref, MirProjection::Field(3)]);
    assert_eq!(points[0].metadata.destination.as_ref().unwrap().local, 2);
    assert_eq!(points[1].func, HookKind::PtrLoad);
}

#[test]
fn pointer_passed_to_a_call_is_traced() {
    // _0 = f(move _1) where _1: *const i32 and f returns a pointer.
    let body = Body {
        basic_blocks: vec![
            BasicBlockData {
                statements: vec![],
                terminator: Terminator::Call {
                    func: Callee::Def(FnRef { hash: 9, name: "f".to_string() }),
                    args: vec![Operand::Move(local(1))],
                    destination: Some((local(2), 1)),
                    cleanup: None,
                },
                is_cleanup: false,
            },
            BasicBlockData { statements: vec![], terminator: Terminator::Return, is_cleanup: false },
        ],
        local_decls: vec![
            Ty::Unit,
            Ty::RawPtr(Mutability::Not, Box::new(i32_ty())),
            Ty::RawPtr(Mutability::Not, Box::new(i32_ty())),
        ],
    };
    let points = collect_points(&body, 5).unwrap();
    assert_eq!(points.len(), 2);
    assert_eq!(points[0].func, HookKind::PtrCopy);
    assert_eq!(points[0].metadata.transfer_kind, TransferKind::Arg(9));
    assert_eq!(points[0].metadata.destination.as_ref().unwrap().local, 1);
    assert_eq!(points[1].loc, Location { block: 1, statement_index: 0 });
    assert_eq!(points[1].metadata.transfer_kind, TransferKind::Ret(9));

    let mut ops = InstrumentMemoryOps::new();
    let mut body = body;
    ops.instrument_fn(&runtime(), &mut body, &FnRef { hash: 5, name: "g".to_string() }, false)
        .unwrap();
    let meta = ops.finalize();
    assert_eq!(meta.functions.get(&9).map(|s| s.as_str()), Some("f"));
    assert_eq!(hooks_in_order(&body), vec!["ptr_copy", "ptr_copy"]);
}

#[test]
fn entry_function_starts_and_ends_the_runtime() {
    let mut ops = InstrumentMemoryOps::new();
    let mut body = borrow_then_store_body();
    let f = FnRef { hash: 42, name: "main".to_string() };
    ops.instrument_fn(&runtime(), &mut body, &f, true).unwrap();
    assert_eq!(
        hooks_in_order(&body),
        vec!["initialize", "addr_of_local", "ptr_store", "finalize"]
    );
}

#[test]
fn integer_assignments_are_not_traced() {
    let body = Body {
        basic_blocks: vec![BasicBlockData {
            statements: vec![Statement::Assign(local(1), Rvalue::Use(Operand::Copy(local(2))))],
            terminator: Terminator::Return,
            is_cleanup: false,
        }],
        local_decls: vec![Ty::Unit, i32_ty(), i32_ty()],
    };
    assert_eq!(collect_points(&body, 1).unwrap().len(), 0);
}

#[test]
fn after_call_needs_a_pointer_or_unit_result() {
    let mut body = malloc_body();
    body.local_decls[2] = Ty::Int(IntTy::Usize);
    let hooks = Hooks::resolve(&runtime()).ok().unwrap();
    let r = insert_after_call(&mut body, 0, hooks.get(HookKind::Malloc), vec![]);
    assert_eq!(r, Err(RewriteError::BadReturnType));
}

#[test]
fn point_outside_the_body_is_refused() {
    let mut ops = InstrumentMemoryOps::new();
    ops.register_function(42, "main".to_string());
    let hooks = Hooks::resolve(&runtime()).ok().unwrap();
    let mut body = borrow_then_store_body();
    let p = InstrumentationPoint::new(Location { block: 5, statement_index: 0 }, HookKind::PtrCopy);
    let r = apply_point(&mut ops, &p, &hooks, &mut body, 42);
    assert_eq!(r, Err(RewriteError::BadLocation));
    assert_eq!(body, borrow_then_store_body());
}

#[test]
fn applied_point_is_registered_and_splits_its_block() {
    let mut ops = InstrumentMemoryOps::new();
    ops.register_function(42, "main".to_string());
    let hooks = Hooks::resolve(&runtime()).ok().unwrap();
    let mut body = borrow_then_store_body();
    let p = InstrumentationPoint::new(Location { block: 0, statement_index: 1 }, HookKind::PtrLoad)
        .arg(InstrumentationArg::Reference(Operand::Copy(local(2))));
    assert_eq!(apply_point(&mut ops, &p, &hooks, &mut body, 42), Ok(0));
    assert_eq!(apply_point(&mut ops, &p, &hooks, &mut body, 42), Ok(0));
    assert_eq!(ops.num_locs(), 1);
    assert_eq!(body.basic_blocks.len(), 3);
    match &body.basic_blocks[0].terminator {
        Terminator::Call { args, .. } => {
            assert!(matches!(&args[0], Operand::Constant(c) if c.value == 0 && c.ty == Ty::Int(IntTy::U32)));
        }
        t => panic!("unexpected terminator {:?}", t),
    }
}

#[test]
fn store_through_a_non_pointer_cannot_be_traced() {
    let body = || Body {
        basic_blocks: vec![BasicBlockData {
            statements: vec![Statement::Assign(
                deref(1),
                Rvalue::Use(Operand::Constant(Constant { value: 5, ty: i32_ty() })),
            )],
            terminator: Terminator::Return,
            is_cleanup: false,
        }],
        local_decls: vec![Ty::Unit, Ty::Adt(3)],
    };
    assert_eq!(collect_points(&body(), 1).err(), Some(CollectError::UncastableOperand));
    let mut ops = InstrumentMemoryOps::new();
    let mut b = body();
    let r = ops.instrument_fn(&runtime(), &mut b, &FnRef { hash: 1, name: "f".to_string() }, false);
    assert_eq!(r, Err(InstrumentError::Collect(CollectError::UncastableOperand)));
    assert_eq!(b, body());
}

#[test]
fn mutable_reference_argument_is_traced() {
    // f(move _1) where _1: &mut i32
    let body = Body {
        basic_blocks: vec![
            BasicBlockData {
                statements: vec![],
                terminator: Terminator::Call {
                    func: Callee::Def(FnRef { hash: 9, name: "f".to_string() }),
                    args: vec![Operand::Move(local(1))],
                    destination: Some((local(2), 1)),
                    cleanup: None,
                },
                is_cleanup: false,
            },
            BasicBlockData { statements: vec![], terminator: Terminator::Return, is_cleanup: false },
        ],
        local_decls: vec![Ty::Unit, Ty::Ref(Mutability::Mut, Box::new(i32_ty())), Ty::Unit],
    };
    let points = collect_points(&body, 5).unwrap();
    assert_eq!(points.len(), 1);
    assert_eq!(points[0].func, HookKind::PtrCopy);
    assert!(matches!(points[0].args[0], InstrumentationArg::Reference(_)));
    assert_eq!(points[0].metadata.transfer_kind, TransferKind::Arg(9));
}

#[test]
fn callees_are_found_by_hash() {
    let body = malloc_body();
    assert_eq!(find_callee(&body, 7).map(|f| f.name), Some("malloc".to_string()));
    assert!(find_callee(&body, 8).is_none());
}

#[test]
fn first_missing_hook_is_reported() {
    let mut rt = runtime();
    rt.retain(|r| r.func.name != "finalize" && r.func.name != "ptr_copy");
    assert_eq!(Hooks::resolve(&rt).err(), Some(HookKind::PtrCopy));
}
