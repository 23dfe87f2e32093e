//! Hooks of the runtime and the pending insertion requests ("instrumentation
//! points") that the collector produces and the rewriter consumes.
use vstd::prelude::*;
use crate::mir::{FnRef, FnRefView, Location, Operand, OperandView, Place, Ty};
use crate::mir_loc::{EventMetadata, EventMetadataView, TransferKind, mir_place_of, to_mir_place, MirPlace, opt_mir_place_view};

verus! {

/// The hook functions of the runtime that instrumented code calls.
#[derive(Clone, Copy, Debug, PartialEq, Eq, Structural)]
pub enum HookKind {
    PtrField,
    PtrCopy,
    AddrOfLocal,
    PtrContrive,
    PtrToInt,
    LoadValue,
    StoreValue,
    PtrStore,
    PtrLoad,
    PtrRet,
    Malloc,
    Free,
    Calloc,
    Realloc,
    Reallocarray,
    Initialize,
    Finalize,
}

/// The number of hook kinds.
pub const NUM_HOOKS: usize = 17;

impl HookKind {
    /// The name under which the runtime defines the hook.
    pub open spec fn spec_name(self) -> Seq<char> {
        match self {
            HookKind::PtrField => "ptr_field"@,
            HookKind::PtrCopy => "ptr_copy"@,
            HookKind::AddrOfLocal => "addr_of_local"@,
            HookKind::PtrContrive => "ptr_contrive"@,
            HookKind::PtrToInt => "ptr_to_int"@,
            HookKind::LoadValue => "load_value"@,
            HookKind::StoreValue => "store_value"@,
            HookKind::PtrStore => "ptr_store"@,
            HookKind::PtrLoad => "ptr_load"@,
            HookKind::PtrRet => "ptr_ret"@,
            HookKind::Malloc => "malloc"@,
            HookKind::Free => "free"@,
            HookKind::Calloc => "calloc"@,
            HookKind::Realloc => "realloc"@,
            HookKind::Reallocarray => "reallocarray"@,
            HookKind::Initialize => "initialize"@,
            HookKind::Finalize => "finalize"@,
        }
    }

    /// The position of the hook in a [`Hooks`] table.
    pub open spec fn spec_index(self) -> int {
        match self {
            HookKind::PtrField => 0,
            HookKind::PtrCopy => 1,
            HookKind::AddrOfLocal => 2,
            HookKind::PtrContrive => 3,
            HookKind::PtrToInt => 4,
            HookKind::LoadValue => 5,
            HookKind::StoreValue => 6,
            HookKind::PtrStore => 7,
            HookKind::PtrLoad => 8,
            HookKind::PtrRet => 9,
            HookKind::Malloc => 10,
            HookKind::Free => 11,
            HookKind::Calloc => 12,
            HookKind::Realloc => 13,
            HookKind::Reallocarray => 14,
            HookKind::Initialize => 15,
            HookKind::Finalize => 16,
        }
    }

    /// Whether the hook stands for one of the memory primitives whose calls
    /// are traced after they return.
    pub open spec fn is_memory_primitive(self) -> bool {
        self is Malloc || self is Free || self is Calloc || self is Realloc || self is Reallocarray
    }

    pub fn name(&self) -> (r: &'static str)
        ensures
            r@ == self.spec_name(),
    {
        proof {
            reveal_strlit("ptr_field");
            reveal_strlit("ptr_copy");
            reveal_strlit("addr_of_local");
            reveal_strlit("ptr_contrive");
            reveal_strlit("ptr_to_int");
            reveal_strlit("load_value");
            reveal_strlit("store_value");
            reveal_strlit("ptr_store");
            reveal_strlit("ptr_load");
            reveal_strlit("ptr_ret");
            reveal_strlit("malloc");
            reveal_strlit("free");
            reveal_strlit("calloc");
            reveal_strlit("realloc");
            reveal_strlit("reallocarray");
            reveal_strlit("initialize");
            reveal_strlit("finalize");
        }
        match self {
            HookKind::PtrField => "ptr_field",
            HookKind::PtrCopy => "ptr_copy",
            HookKind::AddrOfLocal => "addr_of_local",
            HookKind::PtrContrive => "ptr_contrive",
            HookKind::PtrToInt => "ptr_to_int",
            HookKind::LoadValue => "load_value",
            HookKind::StoreValue => "store_value",
            HookKind::PtrStore => "ptr_store",
            HookKind::PtrLoad => "ptr_load",
            HookKind::PtrRet => "ptr_ret",
            HookKind::Malloc => "malloc",
            HookKind::Free => "free",
            HookKind::Calloc => "calloc",
            HookKind::Realloc => "realloc",
            HookKind::Reallocarray => "reallocarray",
            HookKind::Initialize => "initialize",
            HookKind::Finalize => "finalize",
        }
    }

    pub fn index(&self) -> (r: usize)
        ensures
            r == self.spec_index(),
            r < NUM_HOOKS,
    {
        match self {
            HookKind::PtrField => 0,
            HookKind::PtrCopy => 1,
            HookKind::AddrOfLocal => 2,
            HookKind::PtrContrive => 3,
            HookKind::PtrToInt => 4,
            HookKind::LoadValue => 5,
            HookKind::StoreValue => 6,
            HookKind::PtrStore => 7,
            HookKind::PtrLoad => 8,
            HookKind::PtrRet => 9,
            HookKind::Malloc => 10,
            HookKind::Free => 11,
            HookKind::Calloc => 12,
            HookKind::Realloc => 13,
            HookKind::Reallocarray => 14,
            HookKind::Initialize => 15,
            HookKind::Finalize => 16,
        }
    }

    pub fn from_index(i: usize) -> (r: HookKind)
        requires
            i < NUM_HOOKS,
        ensures
            r.spec_index() == i,
            r == kind_at(i as int),
    {
        match i {
            0 => HookKind::PtrField,
            1 => HookKind::PtrCopy,
            2 => HookKind::AddrOfLocal,
            3 => HookKind::PtrContrive,
            4 => HookKind::PtrToInt,
            5 => HookKind::LoadValue,
            6 => HookKind::StoreValue,
            7 => HookKind::PtrStore,
            8 => HookKind::PtrLoad,
            9 => HookKind::PtrRet,
            10 => HookKind::Malloc,
            11 => HookKind::Free,
            12 => HookKind::Calloc,
            13 => HookKind::Realloc,
            14 => HookKind::Reallocarray,
            15 => HookKind::Initialize,
            _ => HookKind::Finalize,
        }
    }
}

/// The hook at position `m` of a [`Hooks`] table.
pub open spec fn kind_at(m: int) -> HookKind {
    if m == 0 {
        HookKind::PtrField
    } else if m == 1 {
        HookKind::PtrCopy
    } else if m == 2 {
        HookKind::AddrOfLocal
    } else if m == 3 {
        HookKind::PtrContrive
    } else if m == 4 {
        HookKind::PtrToInt
    } else if m == 5 {
        HookKind::LoadValue
    } else if m == 6 {
        HookKind::StoreValue
    } else if m == 7 {
        HookKind::PtrStore
    } else if m == 8 {
        HookKind::PtrLoad
    } else if m == 9 {
        HookKind::PtrRet
    } else if m == 10 {
        HookKind::Malloc
    } else if m == 11 {
        HookKind::Free
    } else if m == 12 {
        HookKind::Calloc
    } else if m == 13 {
        HookKind::Realloc
    } else if m == 14 {
        HookKind::Reallocarray
    } else if m == 15 {
        HookKind::Initialize
    } else {
        HookKind::Finalize
    }
}

/// Whether `name` is the name of a memory primitive, and which.
pub open spec fn memory_primitive_named(name: Seq<char>) -> Option<HookKind> {
    if name == HookKind::Malloc.spec_name() {
        Some(HookKind::Malloc)
    } else if name == HookKind::Free.spec_name() {
        Some(HookKind::Free)
    } else if name == HookKind::Calloc.spec_name() {
        Some(HookKind::Calloc)
    } else if name == HookKind::Realloc.spec_name() {
        Some(HookKind::Realloc)
    } else if name == HookKind::Reallocarray.spec_name() {
        Some(HookKind::Reallocarray)
    } else {
        None
    }
}

/// The memory primitive that a function of this name is, if it is one.
pub fn memory_primitive(name: &String) -> (r: Option<HookKind>)
    ensures
        r == memory_primitive_named(name@),
{
    let kinds = [HookKind::Malloc, HookKind::Free, HookKind::Calloc, HookKind::Realloc, HookKind::Reallocarray];
    let mut i: usize = 0;
    while i < 5
        invariant
            kinds@ == seq![HookKind::Malloc, HookKind::Free, HookKind::Calloc, HookKind::Realloc, HookKind::Reallocarray],
            i <= 5,
            forall|j: int| 0 <= j < i ==> name@ != kinds@[j].spec_name(),
        decreases 5 - i,
    {
        let candidate = kinds[i].name().to_owned();
        if *name == candidate {
            return Some(kinds[i]);
        }
        i = i + 1;
    }
    None
}

/// A function that the runtime defines: its identity and return type.
#[derive(Debug)]
pub struct RuntimeFn {
    pub func: FnRef,
    pub ret: Ty,
}

impl RuntimeFn {
    pub fn duplicate(&self) -> (r: RuntimeFn)
        ensures
            r.func@ == self.func@,
            r.ret == self.ret,
    {
        RuntimeFn { func: self.func.duplicate(), ret: self.ret.duplicate() }
    }
}

/// The runtime's definition of every hook, resolved once before any code is
/// rewritten.
pub struct Hooks {
    defs: Vec<RuntimeFn>,
}

impl Hooks {
    /// The definition of hook `k`.
    pub closed spec fn def(&self, k: HookKind) -> FnRefView {
        self.defs@[k.spec_index()].func@
    }

    /// The return type of hook `k`.
    pub closed spec fn ret(&self, k: HookKind) -> Ty {
        self.defs@[k.spec_index()].ret
    }

    pub closed spec fn wf(&self) -> bool {
        &&& self.defs@.len() == NUM_HOOKS
        &&& forall|k: HookKind| #![trigger self.def(k)] self.def(k).name == k.spec_name()
    }

    /// Finds each hook among the functions the runtime defines, by name.
    /// Fails with the first hook (in table order) that the runtime lacks.
    pub fn resolve(runtime: &Vec<RuntimeFn>) -> (r: Result<Hooks, HookKind>)
        ensures
            r matches Ok(h) ==> h.wf() && forall|k: HookKind| #![trigger h.def(k)] defined_in(runtime@, h.def(k)),
            r matches Ok(h) ==> resolves(runtime@, h),
            r matches Err(k) ==> !exists|j: int| 0 <= j < runtime@.len() && runtime@[j].func.name@ == k.spec_name(),
            r matches Err(k) ==> !hook_named(runtime@, k.spec_index()) && forall|m: int| 0 <= m < k.spec_index()
                ==> #[trigger] hook_named(runtime@, m),
            r is Ok <==> forall|m: int| 0 <= m < NUM_HOOKS ==> #[trigger] hook_named(runtime@, m),
    {
        let mut defs: Vec<RuntimeFn> = Vec::new();
        let mut i: usize = 0;
        while i < NUM_HOOKS
            invariant
                i <= NUM_HOOKS,
                defs@.len() == i,
                forall|m: int| 0 <= m < i ==> #[trigger] hook_entry(runtime@, defs@[m], m),
                forall|m: int| 0 <= m < i ==> #[trigger] hook_named(runtime@, m),
            decreases NUM_HOOKS - i,
        {
            let kind = HookKind::from_index(i);
            let name = kind.name().to_owned();
            let mut found: Option<usize> = None;
            let mut j: usize = 0;
            while j < runtime.len()
                invariant
                    j <= runtime@.len(),
                    found matches Some(f) ==> f < runtime@.len() && runtime@[f as int].func.name@ == name@,
                    found is None ==> forall|m: int| 0 <= m < j ==> runtime@[m].func.name@ != name@,
                ensures
                    found matches Some(f) ==> f < runtime@.len() && runtime@[f as int].func.name@ == name@,
                    found is None ==> forall|m: int| 0 <= m < runtime@.len() ==> runtime@[m].func.name@ != name@,
                decreases runtime@.len() - j,
            {
                if runtime[j].func.name == name {
                    found = Some(j);
                    break;
                }
                j = j + 1;
            }
            match found {
                Some(f) => {
                    let ghost old_defs = defs@;
                    defs.push(runtime[f].duplicate());
                    proof {
                        assert(defined_in(runtime@, defs@[i as int].func@)) by {
                            assert(runtime@[f as int].func@ == defs@[i as int].func@);
                        }
                        assert(runtime_has(runtime@, defs@[i as int])) by {
                            assert(runtime@[f as int].ret == defs@[i as int].ret);
                        }
                        assert forall|m: int| 0 <= m < i + 1 implies #[trigger] hook_entry(runtime@, defs@[m], m) by {
                            if m < i {
                                assert(hook_entry(runtime@, old_defs[m], m));
                                assert(defs@[m] == old_defs[m]);
                            } else {
                                assert(defs@[m].func@.name == runtime@[f as int].func.name@);
                                assert(name@ == kind_at(m).spec_name());
                            }
                        }
                        assert(hook_named(runtime@, i as int)) by {
                            assert(runtime@[f as int].func.name@ == kind_at(i as int).spec_name());
                        }
                    }
                },
                None => {
                    assert(!hook_named(runtime@, i as int));
                    return Err(kind);
                },
            }
            i = i + 1;
        }
        let h = Hooks { defs };
        assert(forall|m: int| 0 <= m < NUM_HOOKS ==> #[trigger] hook_named(runtime@, m));
        assert forall|k: HookKind| #![trigger h.def(k)] h.def(k).name == k.spec_name() && defined_in(runtime@, h.def(k)) by {
            assert(kind_at(k.spec_index()) == k);
            assert(hook_entry(runtime@, h.defs@[k.spec_index()], k.spec_index()));
        }
        assert forall|k: HookKind| #[trigger] runtime_has(runtime@, h.get_spec(k)) by {
            assert(hook_entry(runtime@, h.defs@[k.spec_index()], k.spec_index()));
        }
        Ok(h)
    }

    /// The runtime function that hook `k` resolved to.
    pub closed spec fn get_spec(&self, k: HookKind) -> RuntimeFn {
        self.defs@[k.spec_index()]
    }

    pub fn get(&self, k: HookKind) -> (r: &RuntimeFn)
        requires
            self.wf(),
        ensures
            r.func@ == self.def(k),
            r.ret == self.ret(k),
            *r == self.get_spec(k),
    {
        &self.defs[k.index()]
    }
}

/// Whether `d` is a function of the runtime named as the hook at position `m`.
pub open spec fn hook_entry(runtime: Seq<RuntimeFn>, d: RuntimeFn, m: int) -> bool {
    d.func@.name == kind_at(m).spec_name() && defined_in(runtime, d.func@) && runtime_has(runtime, d)
}

/// Whether the runtime defines `d`: its identity and its return type.
pub open spec fn runtime_has(runtime: Seq<RuntimeFn>, d: RuntimeFn) -> bool {
    exists|j: int| 0 <= j < runtime.len() && runtime[j].func@ == d.func@ && runtime[j].ret == d.ret
}

/// Whether `h` is a table of the runtime's hooks: each hook is a function of
/// the runtime with the hook's name.
pub open spec fn resolves(runtime: Seq<RuntimeFn>, h: Hooks) -> bool {
    h.wf() && forall|k: HookKind| #[trigger] runtime_has(runtime, h.get_spec(k))
}

/// Whether the runtime defines a function named as the hook at position `m`.
pub open spec fn hook_named(runtime: Seq<RuntimeFn>, m: int) -> bool {
    exists|j: int| 0 <= j < runtime.len() && runtime[j].func.name@ == kind_at(m).spec_name()
}

/// Whether the runtime defines a function with exactly this identity.
pub open spec fn defined_in(runtime: Seq<RuntimeFn>, f: FnRefView) -> bool {
    exists|j: int| 0 <= j < runtime.len() && runtime[j].func@ == f
}

/// An argument of a hook call, tagged with how it reaches the hook.
#[derive(Debug)]
pub enum InstrumentationArg {
    /// Already an integer (or unit): passed as it is.
    AddressUsize(Operand),
    /// A reference: passed as the address it points to.
    Reference(Operand),
    /// A raw pointer: passed as its address.
    RawPtr(Operand),
    /// A place: passed as its own address, taken with a raw borrow.
    Place(Operand),
}

/// The mathematical value of an [`InstrumentationArg`].
pub enum ArgView {
    AddressUsize(OperandView),
    Reference(OperandView),
    RawPtr(OperandView),
    Place(OperandView),
}

impl View for InstrumentationArg {
    type V = ArgView;

    open spec fn view(&self) -> ArgView {
        match self {
            InstrumentationArg::AddressUsize(o) => ArgView::AddressUsize(o@),
            InstrumentationArg::Reference(o) => ArgView::Reference(o@),
            InstrumentationArg::RawPtr(o) => ArgView::RawPtr(o@),
            InstrumentationArg::Place(o) => ArgView::Place(o@),
        }
    }
}

impl ArgView {
    pub open spec fn inner(self) -> OperandView {
        match self {
            ArgView::AddressUsize(o) => o,
            ArgView::Reference(o) => o,
            ArgView::RawPtr(o) => o,
            ArgView::Place(o) => o,
        }
    }
}

/// How an operand of type `ty` is passed to a hook: raw pointers and
/// references by address, integers as they are; other types cannot be.
pub open spec fn arg_of_type(op: OperandView, ty: Ty) -> Option<ArgView> {
    if ty.is_unsafe_ptr() {
        Some(ArgView::RawPtr(op))
    } else if ty.is_region_ptr() {
        Some(ArgView::Reference(op))
    } else if ty.is_integral() {
        Some(ArgView::AddressUsize(op))
    } else {
        None
    }
}

impl InstrumentationArg {
    pub fn inner(&self) -> (r: Operand)
        ensures
            r@ == self@.inner(),
    {
        match self {
            InstrumentationArg::AddressUsize(o) => o.duplicate(),
            InstrumentationArg::Reference(o) => o.duplicate(),
            InstrumentationArg::RawPtr(o) => o.duplicate(),
            InstrumentationArg::Place(o) => o.duplicate(),
        }
    }

    pub fn duplicate(&self) -> (r: InstrumentationArg)
        ensures
            r@ == self@,
    {
        match self {
            InstrumentationArg::AddressUsize(o) => InstrumentationArg::AddressUsize(o.duplicate()),
            InstrumentationArg::Reference(o) => InstrumentationArg::Reference(o.duplicate()),
            InstrumentationArg::RawPtr(o) => InstrumentationArg::RawPtr(o.duplicate()),
            InstrumentationArg::Place(o) => InstrumentationArg::Place(o.duplicate()),
        }
    }

    pub fn from_type(op: Operand, ty: &Ty) -> (r: Option<InstrumentationArg>)
        ensures
            r matches Some(a) ==> arg_of_type(op@, *ty) == Some(a@),
            r is None ==> arg_of_type(op@, *ty) is None,
    {
        if ty.is_unsafe_ptr_exec() {
            Some(InstrumentationArg::RawPtr(op))
        } else if ty.is_region_ptr_exec() {
            Some(InstrumentationArg::Reference(op))
        } else if ty.is_integral_exec() {
            Some(InstrumentationArg::AddressUsize(op))
        } else {
            None
        }
    }
}

/// A pending request to insert a hook call.
#[derive(Debug)]
pub struct InstrumentationPoint {
    /// The order in which the collector produced the request.
    pub id: usize,
    /// The call is inserted before this statement (or before the terminator).
    pub loc: Location,
    pub func: HookKind,
    pub args: Vec<InstrumentationArg>,
    /// The block that follows the call is a cleanup block.
    pub is_cleanup: bool,
    /// The call runs after the call terminator at `loc`, with its result.
    pub after_call: bool,
    pub metadata: EventMetadata,
}

/// The mathematical value of an [`InstrumentationPoint`].
pub struct PointView {
    pub id: usize,
    pub loc: Location,
    pub func: HookKind,
    pub args: Seq<ArgView>,
    pub is_cleanup: bool,
    pub after_call: bool,
    pub metadata: EventMetadataView,
}

pub open spec fn args_view(args: Seq<InstrumentationArg>) -> Seq<ArgView> {
    args.map_values(|a: InstrumentationArg| a@)
}

impl View for InstrumentationPoint {
    type V = PointView;

    open spec fn view(&self) -> PointView {
        PointView {
            id: self.id,
            loc: self.loc,
            func: self.func,
            args: args_view(self.args@),
            is_cleanup: self.is_cleanup,
            after_call: self.after_call,
            metadata: self.metadata@,
        }
    }
}

impl InstrumentationPoint {
    pub fn new(loc: Location, func: HookKind) -> (r: Self)
        ensures
            r@ == (PointView {
                id: 0,
                loc,
                func,
                args: Seq::empty(),
                is_cleanup: false,
                after_call: false,
                metadata: EventMetadataView::empty(),
            }),
    {
        let r = InstrumentationPoint {
            id: 0,
            loc,
            func,
            args: Vec::new(),
            is_cleanup: false,
            after_call: false,
            metadata: EventMetadata::new(),
        };
        assert(r@.args =~= Seq::<ArgView>::empty());
        r
    }

    pub fn offset(self, i: usize) -> (r: Self)
        ensures
            r@ == (PointView { loc: Location { block: self.loc.block, statement_index: i }, ..self@ }),
    {
        let mut s = self;
        s.loc.statement_index = i;
        s
    }

    pub fn arg(self, a: InstrumentationArg) -> (r: Self)
        ensures
            r@ == (PointView { args: self@.args.push(a@), ..self@ }),
    {
        let mut s = self;
        s.args.push(a);
        assert(s@.args =~= self@.args.push(a@));
        s
    }

    pub fn args(self, args: Vec<InstrumentationArg>) -> (r: Self)
        ensures
            r@ == (PointView { args: self@.args + args_view(args@), ..self@ }),
    {
        let mut s = self;
        let mut more = args;
        s.args.append(&mut more);
        assert(s@.args =~= self@.args + args_view(args@));
        s
    }

    pub fn cleanup(self) -> (r: Self)
        ensures
            r@ == (PointView { is_cleanup: true, ..self@ }),
    {
        let mut s = self;
        s.is_cleanup = true;
        s
    }

    pub fn after_call(self) -> (r: Self)
        ensures
            r@ == (PointView { after_call: true, ..self@ }),
    {
        let mut s = self;
        s.after_call = true;
        s
    }

    pub fn source(self, source: Option<MirPlace>) -> (r: Self)
        ensures
            r@ == (PointView { metadata: EventMetadataView { source: opt_mir_place_view(source), ..self@.metadata }, ..self@ }),
    {
        let mut s = self;
        s.metadata.source = source;
        s
    }

    pub fn dest(self, p: &Place) -> (r: Self)
        ensures
            r@ == (PointView { metadata: EventMetadataView { destination: Some(mir_place_of(p@)), ..self@.metadata }, ..self@ }),
    {
        let mut s = self;
        s.metadata.destination = Some(to_mir_place(p));
        s
    }

    pub fn transfer(self, t: TransferKind) -> (r: Self)
        ensures
            r@ == (PointView { metadata: EventMetadataView { transfer_kind: t, ..self@.metadata }, ..self@ }),
    {
        let mut s = self;
        s.metadata.transfer_kind = t;
        s
    }

    /// Queues the request, numbered after those already queued.
    pub fn add(self, points: &mut Vec<InstrumentationPoint>)
        ensures
            final(points)@.len() == old(points)@.len() + 1,
            final(points)@.subrange(0, old(points)@.len() as int) == old(points)@,
            final(points)@.last().id == old(points)@.len(),
            final(points)@.last()@ == (PointView { id: final(points)@.last().id, ..self@ }),
    {
        let mut s = self;
        s.id = points.len();
        points.push(s);
        assert(points@.subrange(0, old(points)@.len() as int) =~= old(points)@);
    }
}

/// Whether `a` is applied no later than `b`: points are applied in strictly
/// reverse program order, by location, then after-call points first, then
/// later requests first.
pub open spec fn applied_before(a: PointView, b: PointView) -> bool {
    ||| a.loc.block > b.loc.block
    ||| a.loc.block == b.loc.block && a.loc.statement_index > b.loc.statement_index
    ||| a.loc.block == b.loc.block && a.loc.statement_index == b.loc.statement_index && a.after_call
        && !b.after_call
    ||| a.loc.block == b.loc.block && a.loc.statement_index == b.loc.statement_index && a.after_call
        == b.after_call && a.id >= b.id
}

/// Whether the points are in application order.
pub open spec fn in_application_order(ps: Seq<InstrumentationPoint>) -> bool {
    forall|i: int, j: int| 0 <= i < j < ps.len() ==> applied_before(ps[i]@, ps[j]@)
}

pub fn is_applied_before(a: &InstrumentationPoint, b: &InstrumentationPoint) -> (r: bool)
    ensures
        r == applied_before(a@, b@),
{
    if a.loc.block != b.loc.block {
        a.loc.block > b.loc.block
    } else if a.loc.statement_index != b.loc.statement_index {
        a.loc.statement_index > b.loc.statement_index
    } else if a.after_call != b.after_call {
        a.after_call
    } else {
        a.id >= b.id
    }
}

proof fn lemma_insert_to_multiset<A>(s: Seq<A>, i: int, a: A)
    requires
        0 <= i <= s.len(),
    ensures
        s.insert(i, a).to_multiset() =~= s.to_multiset().insert(a),
{
    broadcast use vstd::seq_lib::group_to_multiset_ensures;
    let t = s.insert(i, a);
    assert(t.remove(i) =~= s);
    assert(t[i] == a);
    assert(t.to_multiset().count(a) > 0);
    assert(s.to_multiset() =~= t.to_multiset().remove(a));
}

/// Puts the points in application order. The result holds the same points.
pub fn into_application_order(points: Vec<InstrumentationPoint>) -> (r: Vec<InstrumentationPoint>)
    ensures
        in_application_order(r@),
        r@.to_multiset() == points@.to_multiset(),
{
    broadcast use vstd::seq_lib::group_to_multiset_ensures;
    let mut rest = points;
    let mut out: Vec<InstrumentationPoint> = Vec::new();
    while rest.len() > 0
        invariant
            in_application_order(out@),
            out@.to_multiset().add(rest@.to_multiset()) == points@.to_multiset(),
        decreases rest@.len(),
    {
        let ghost rest_before = rest@;
        let p = rest.pop().unwrap();
        assert(rest_before =~= rest@.push(p));
        let mut pos: usize = 0;
        while pos < out.len() && is_applied_before(&out[pos], &p)
            invariant
                pos <= out@.len(),
                forall|j: int| 0 <= j < pos ==> applied_before(out@[j]@, p@),
            decreases out@.len() - pos,
        {
            pos = pos + 1;
        }
        proof {
            lemma_insert_to_multiset(out@, pos as int, p);
            vstd::seq_lib::to_multiset_build(rest@, p);
            assert(rest_before.to_multiset() =~= rest@.to_multiset().insert(p));
            assert(out@.insert(pos as int, p).to_multiset().add(rest@.to_multiset())
                =~= out@.to_multiset().add(rest_before.to_multiset()));
        }
        let ghost out_before = out@;
        out.insert(pos, p);
        proof {
            assert forall|i: int, j: int| 0 <= i < j < out@.len() implies applied_before(out@[i]@, out@[j]@) by {
                if j == pos {
                } else if i == pos {
                    assert(!applied_before(out_before[pos as int]@, p@));
                    assert(applied_before(out_before[pos as int]@, out_before[j - 1]@) || j - 1 == pos);
                } else if i < pos && j > pos {
                    assert(applied_before(out_before[i]@, out_before[j - 1]@));
                } else {
                }
            }
        }
    }
    out
}

} // verus!
