//! A typed control-flow graph: the intermediate representation that the
//! instrumentation pass reads and rewrites.
//!
//! Types are given by the host; a place's type is computed from its base
//! local's declared type and its projections.
use vstd::prelude::*;

verus! {

/// Whether a pointer or borrow allows mutation.
#[derive(Clone, Copy, Debug, PartialEq, Eq, Structural)]
pub enum Mutability {
    Not,
    Mut,
}

/// The machine integer types.
#[derive(Clone, Copy, Debug, PartialEq, Eq, Structural)]
pub enum IntTy {
    I8,
    I16,
    I32,
    I64,
    I128,
    Isize,
    U8,
    U16,
    U32,
    U64,
    U128,
    Usize,
}

/// A value type as far as the instrumentation needs to know it.
#[derive(Debug, PartialEq, Eq)]
pub enum Ty {
    Unit,
    Bool,
    Int(IntTy),
    /// `*const T` / `*mut T`
    RawPtr(Mutability, Box<Ty>),
    /// `&T` / `&mut T`
    Ref(Mutability, Box<Ty>),
    /// `[T; n]` or `[T]`
    Array(Box<Ty>),
    /// A struct, union or enum, by an identifier of the host's choosing.
    Adt(u32),
    /// Any other type (floats, function items, ...).
    Other,
}

/// The kind of a borrow `&p` / `&mut p`.
#[derive(Clone, Copy, Debug, PartialEq, Eq, Structural)]
pub enum BorrowKind {
    Shared,
    Mut,
}

/// One step of a place's projection.
#[derive(Debug, PartialEq, Eq)]
pub enum Projection {
    /// `*p`
    Deref,
    /// `p.i`, with the type of the field.
    Field(u32, Ty),
    /// `p[l]` where `l` is a local.
    Index(u32),
    /// Any other projection, with the type it produces.
    Other(Ty),
}

/// An addressable location: a base local and projections applied in order.
#[derive(Debug, PartialEq, Eq)]
pub struct Place {
    pub local: u32,
    pub projection: Vec<Projection>,
}

/// A constant of integer-like type.
#[derive(Debug, PartialEq, Eq)]
pub struct Constant {
    pub value: u128,
    pub ty: Ty,
}

/// A read-only view of a value.
#[derive(Debug, PartialEq, Eq)]
pub enum Operand {
    Copy(Place),
    Move(Place),
    Constant(Constant),
}

/// The right-hand side of an assignment.
#[derive(Debug, PartialEq, Eq)]
pub enum Rvalue {
    Use(Operand),
    Repeat(Operand, u64),
    Ref(BorrowKind, Place),
    AddressOf(Mutability, Place),
    Len(Place),
    /// A cast of the operand to the given type.
    Cast(Operand, Ty),
    /// A binary operation, with its result type.
    BinaryOp(Operand, Operand, Ty),
    /// A unary operation, with its result type.
    UnaryOp(Operand, Ty),
    /// The discriminant of an enum place, with its integer type.
    Discriminant(Place, Ty),
    /// An aggregate built from operands, with its type.
    Aggregate(Vec<Operand>, Ty),
    /// Any other right-hand side that reads no place, with its type.
    Other(Ty),
}

/// A statement of a basic block.
#[derive(Debug, PartialEq, Eq)]
pub enum Statement {
    Assign(Place, Rvalue),
    Nop,
}

/// A function by identity: its stable hash and its display name.
#[derive(Debug, PartialEq, Eq)]
pub struct FnRef {
    pub hash: u128,
    pub name: String,
}

/// What a call terminator calls.
#[derive(Debug, PartialEq, Eq)]
pub enum Callee {
    /// A statically known function.
    Def(FnRef),
    /// A call through a function pointer.
    Indirect(Operand),
}

/// The instruction that ends a basic block.
#[derive(Debug, PartialEq, Eq)]
pub enum Terminator {
    Goto(usize),
    SwitchInt(Operand, Vec<usize>),
    Return,
    Resume,
    Unreachable,
    Call {
        func: Callee,
        args: Vec<Operand>,
        /// The place that receives the result and the block control continues in.
        destination: Option<(Place, usize)>,
        /// The block entered when the callee unwinds.
        cleanup: Option<usize>,
    },
}

/// A basic block: statements followed by one terminator.
#[derive(Debug, PartialEq, Eq)]
pub struct BasicBlockData {
    pub statements: Vec<Statement>,
    pub terminator: Terminator,
    pub is_cleanup: bool,
}

/// A function body: its blocks (block 0 is the entry) and the declared type
/// of each local (local 0 is the return place).
#[derive(Debug, PartialEq, Eq)]
pub struct Body {
    pub basic_blocks: Vec<BasicBlockData>,
    pub local_decls: Vec<Ty>,
}

/// A program point: a block and the index of a statement in it; the index
/// equal to the number of statements designates the terminator.
#[derive(Clone, Copy, Debug, PartialEq, Eq, Structural)]
pub struct Location {
    pub block: usize,
    pub statement_index: usize,
}

impl Ty {
    pub open spec fn is_unsafe_ptr(&self) -> bool {
        self is RawPtr
    }

    pub open spec fn is_region_ptr(&self) -> bool {
        self is Ref
    }

    pub open spec fn is_integral(&self) -> bool {
        self is Int
    }

    pub open spec fn is_mutable_ptr(&self) -> bool {
        match self {
            Ty::RawPtr(m, _) => m == Mutability::Mut,
            Ty::Ref(m, _) => m == Mutability::Mut,
            _ => false,
        }
    }

    /// A raw pointer or a reference.
    pub open spec fn is_pointer(&self) -> bool {
        self is RawPtr || self is Ref
    }

    /// The type obtained by dereferencing a pointer of this type.
    pub open spec fn pointee(&self) -> Ty {
        match self {
            Ty::RawPtr(_, b) => **b,
            Ty::Ref(_, b) => **b,
            _ => Ty::Other,
        }
    }

    pub fn is_unsafe_ptr_exec(&self) -> (r: bool)
        ensures
            r == self.is_unsafe_ptr(),
    {
        matches!(self, Ty::RawPtr(_, _))
    }

    pub fn is_region_ptr_exec(&self) -> (r: bool)
        ensures
            r == self.is_region_ptr(),
    {
        matches!(self, Ty::Ref(_, _))
    }

    pub fn is_integral_exec(&self) -> (r: bool)
        ensures
            r == self.is_integral(),
    {
        matches!(self, Ty::Int(_))
    }

    pub fn is_mutable_ptr_exec(&self) -> (r: bool)
        ensures
            r == self.is_mutable_ptr(),
    {
        match self {
            Ty::RawPtr(m, _) => matches!(m, Mutability::Mut),
            Ty::Ref(m, _) => matches!(m, Mutability::Mut),
            _ => false,
        }
    }

    pub fn is_pointer_exec(&self) -> (r: bool)
        ensures
            r == self.is_pointer(),
    {
        matches!(self, Ty::RawPtr(_, _) | Ty::Ref(_, _))
    }

    pub fn is_unit_exec(&self) -> (r: bool)
        ensures
            r == (*self is Unit),
    {
        matches!(self, Ty::Unit)
    }

    /// An equal copy of this type.
    pub fn duplicate(&self) -> (r: Ty)
        ensures
            r == *self,
        decreases self,
    {
        match self {
            Ty::Unit => Ty::Unit,
            Ty::Bool => Ty::Bool,
            Ty::Int(i) => Ty::Int(*i),
            Ty::RawPtr(m, b) => Ty::RawPtr(*m, Box::new((**b).duplicate())),
            Ty::Ref(m, b) => Ty::Ref(*m, Box::new((**b).duplicate())),
            Ty::Array(b) => Ty::Array(Box::new((**b).duplicate())),
            Ty::Adt(id) => Ty::Adt(*id),
            Ty::Other => Ty::Other,
        }
    }

    pub fn pointee_exec(&self) -> (r: Ty)
        ensures
            r == self.pointee(),
    {
        match self {
            Ty::RawPtr(_, b) => (**b).duplicate(),
            Ty::Ref(_, b) => (**b).duplicate(),
            _ => Ty::Other,
        }
    }
}

impl Projection {
    pub fn duplicate(&self) -> (r: Projection)
        ensures
            r == *self,
    {
        match self {
            Projection::Deref => Projection::Deref,
            Projection::Field(i, t) => Projection::Field(*i, t.duplicate()),
            Projection::Index(l) => Projection::Index(*l),
            Projection::Other(t) => Projection::Other(t.duplicate()),
        }
    }
}

/// The type of a value of type `t` after one projection step.
pub open spec fn project(t: Ty, p: Projection) -> Ty {
    match p {
        Projection::Deref => t.pointee(),
        Projection::Field(_, ft) => ft,
        Projection::Index(_) => match t {
            Ty::Array(e) => *e,
            _ => Ty::Other,
        },
        Projection::Other(ot) => ot,
    }
}

/// The type of a value of type `t` after the projections `ps`, in order.
pub open spec fn projected_ty(t: Ty, ps: Seq<Projection>) -> Ty
    decreases ps.len(),
{
    if ps.len() == 0 {
        t
    } else {
        project(projected_ty(t, ps.drop_last()), ps.last())
    }
}

/// The declared type of local `l`; `Other` for an undeclared local.
pub open spec fn local_ty(locals: Seq<Ty>, l: u32) -> Ty {
    if l < locals.len() {
        locals[l as int]
    } else {
        Ty::Other
    }
}

/// Whether some projection of the sequence dereferences.
pub open spec fn has_deref(ps: Seq<Projection>) -> bool {
    exists|i: int| 0 <= i < ps.len() && ps[i] is Deref
}

/// Projections with a final dereference removed, if they end in one.
pub open spec fn drop_outer_deref(ps: Seq<Projection>) -> Seq<Projection> {
    if ps.len() > 0 && ps.last() is Deref {
        ps.drop_last()
    } else {
        ps
    }
}

/// The mathematical value of a [`Place`].
pub struct PlaceView {
    pub local: u32,
    pub projection: Seq<Projection>,
}

impl PlaceView {
    /// The place made of a local alone.
    pub open spec fn local_only(l: u32) -> PlaceView {
        PlaceView { local: l, projection: Seq::empty() }
    }

    /// The place's type, given the declared types of the locals.
    pub open spec fn ty(self, locals: Seq<Ty>) -> Ty {
        projected_ty(local_ty(locals, self.local), self.projection)
    }

    /// Whether reaching the place goes through a pointer.
    pub open spec fn is_indirect(self) -> bool {
        has_deref(self.projection)
    }

    /// Whether the last projection is a dereference.
    pub open spec fn has_outer_deref(self) -> bool {
        self.projection.len() > 0 && self.projection.last() is Deref
    }

    /// The place with a final dereference removed.
    pub open spec fn without_outer_deref(self) -> PlaceView {
        PlaceView { local: self.local, projection: drop_outer_deref(self.projection) }
    }
}

impl View for Place {
    type V = PlaceView;

    open spec fn view(&self) -> PlaceView {
        PlaceView { local: self.local, projection: self.projection@ }
    }
}

impl Place {
    pub fn from_local(l: u32) -> (r: Place)
        ensures
            r@ == PlaceView::local_only(l),
    {
        Place { local: l, projection: Vec::new() }
    }

    pub fn duplicate(&self) -> (r: Place)
        ensures
            r@ == self@,
    {
        let mut projection: Vec<Projection> = Vec::new();
        let n = self.projection.len();
        for i in 0..n
            invariant
                n == self.projection@.len(),
                projection@ == self.projection@.subrange(0, i as int),
        {
            projection.push(self.projection[i].duplicate());
            assert(projection@ =~= self.projection@.subrange(0, i + 1));
        }
        assert(projection@ =~= self.projection@);
        Place { local: self.local, projection }
    }

    pub fn ty_exec(&self, locals: &Vec<Ty>) -> (r: Ty)
        ensures
            r == self@.ty(locals@),
    {
        let mut t = if (self.local as usize) < locals.len() {
            locals[self.local as usize].duplicate()
        } else {
            Ty::Other
        };
        let n = self.projection.len();
        for i in 0..n
            invariant
                n == self.projection@.len(),
                t == projected_ty(local_ty(locals@, self.local), self.projection@.subrange(0, i as int)),
        {
            let ghost before = self.projection@.subrange(0, i as int);
            assert(self.projection@.subrange(0, i + 1).drop_last() =~= before);
            t = match &self.projection[i] {
                Projection::Deref => t.pointee_exec(),
                Projection::Field(_, ft) => ft.duplicate(),
                Projection::Index(_) => match &t {
                    Ty::Array(e) => (**e).duplicate(),
                    _ => Ty::Other,
                },
                Projection::Other(ot) => ot.duplicate(),
            };
        }
        assert(self.projection@.subrange(0, n as int) =~= self.projection@);
        t
    }

    pub fn is_indirect_exec(&self) -> (r: bool)
        ensures
            r == self@.is_indirect(),
    {
        let n = self.projection.len();
        for i in 0..n
            invariant
                n == self.projection@.len(),
                forall|j: int| 0 <= j < i ==> !(self.projection@[j] is Deref),
        {
            if matches!(self.projection[i], Projection::Deref) {
                return true;
            }
        }
        false
    }

    pub fn has_outer_deref_exec(&self) -> (r: bool)
        ensures
            r == self@.has_outer_deref(),
    {
        let n = self.projection.len();
        n > 0 && matches!(self.projection[n - 1], Projection::Deref)
    }
}

/// The place with its final dereference removed, if it ends in one.
pub fn remove_outer_deref(p: &Place) -> (r: Place)
    ensures
        r@ == p@.without_outer_deref(),
{
    let mut r = p.duplicate();
    if p.has_outer_deref_exec() {
        r.projection.pop();
    }
    r
}

/// The innermost dereferenced place: the prefix of `p` before its first
/// dereference, that is the pointer that `p` is reached through. A place
/// with no dereference is returned whole.
pub fn strip_all_deref(p: &Place) -> (r: Place)
    ensures
        r@.local == p@.local,
        r@.projection.len() <= p@.projection.len(),
        r@.projection == p@.projection.subrange(0, r@.projection.len() as int),
        !r@.is_indirect(),
        r@.projection.len() < p@.projection.len() ==> p@.projection[r@.projection.len() as int] is Deref,
{
    let mut projection: Vec<Projection> = Vec::new();
    let n = p.projection.len();
    let mut i: usize = 0;
    while i < n
        invariant
            n == p.projection@.len(),
            i <= n,
            projection@ == p.projection@.subrange(0, i as int),
            forall|j: int| 0 <= j < i ==> !(p.projection@[j] is Deref),
        ensures
            i <= n,
            projection@ == p.projection@.subrange(0, i as int),
            forall|j: int| 0 <= j < i ==> !(p.projection@[j] is Deref),
            i < n ==> p.projection@[i as int] is Deref,
        decreases n - i,
    {
        if matches!(p.projection[i], Projection::Deref) {
            break;
        }
        projection.push(p.projection[i].duplicate());
        i = i + 1;
        assert(projection@ =~= p.projection@.subrange(0, i as int));
    }
    Place { local: p.local, projection }
}

/// The mathematical value of an [`Operand`].
pub enum OperandView {
    Copy(PlaceView),
    Move(PlaceView),
    Constant(Constant),
}

impl OperandView {
    /// The place the operand reads, if it reads one.
    pub open spec fn place(self) -> Option<PlaceView> {
        match self {
            OperandView::Copy(p) => Some(p),
            OperandView::Move(p) => Some(p),
            OperandView::Constant(_) => None,
        }
    }

    pub open spec fn ty(self, locals: Seq<Ty>) -> Ty {
        match self {
            OperandView::Copy(p) => p.ty(locals),
            OperandView::Move(p) => p.ty(locals),
            OperandView::Constant(c) => c.ty,
        }
    }

    /// The operand that reads the same place without moving out of it.
    pub open spec fn to_copy(self) -> OperandView {
        match self {
            OperandView::Move(p) => OperandView::Copy(p),
            _ => self,
        }
    }
}

impl View for Operand {
    type V = OperandView;

    open spec fn view(&self) -> OperandView {
        match self {
            Operand::Copy(p) => OperandView::Copy(p@),
            Operand::Move(p) => OperandView::Move(p@),
            Operand::Constant(c) => OperandView::Constant(*c),
        }
    }
}

impl Constant {
    pub fn duplicate(&self) -> (r: Constant)
        ensures
            r == *self,
    {
        Constant { value: self.value, ty: self.ty.duplicate() }
    }
}

impl Operand {
    pub fn duplicate(&self) -> (r: Operand)
        ensures
            r@ == self@,
    {
        match self {
            Operand::Copy(p) => Operand::Copy(p.duplicate()),
            Operand::Move(p) => Operand::Move(p.duplicate()),
            Operand::Constant(c) => Operand::Constant(c.duplicate()),
        }
    }

    /// A copy of the operand that reads without moving.
    pub fn to_copy(&self) -> (r: Operand)
        ensures
            r@ == self@.to_copy(),
    {
        match self {
            Operand::Copy(p) => Operand::Copy(p.duplicate()),
            Operand::Move(p) => Operand::Copy(p.duplicate()),
            Operand::Constant(c) => Operand::Constant(c.duplicate()),
        }
    }

    pub fn place(&self) -> (r: Option<&Place>)
        ensures
            r matches Some(p) ==> self@.place() == Some(p@),
            r is None ==> self@.place() is None,
    {
        match self {
            Operand::Copy(p) => Some(p),
            Operand::Move(p) => Some(p),
            Operand::Constant(_) => None,
        }
    }

    pub fn ty_exec(&self, locals: &Vec<Ty>) -> (r: Ty)
        ensures
            r == self@.ty(locals@),
    {
        match self {
            Operand::Copy(p) => p.ty_exec(locals),
            Operand::Move(p) => p.ty_exec(locals),
            Operand::Constant(c) => c.ty.duplicate(),
        }
    }
}

pub open spec fn operands_view(ops: Seq<Operand>) -> Seq<OperandView> {
    ops.map_values(|o: Operand| o@)
}

/// The mathematical value of an [`Rvalue`].
pub enum RvalueView {
    Use(OperandView),
    Repeat(OperandView, u64),
    Ref(BorrowKind, PlaceView),
    AddressOf(Mutability, PlaceView),
    Len(PlaceView),
    Cast(OperandView, Ty),
    BinaryOp(OperandView, OperandView, Ty),
    UnaryOp(OperandView, Ty),
    Discriminant(PlaceView, Ty),
    Aggregate(Seq<OperandView>, Ty),
    Other(Ty),
}

impl View for Rvalue {
    type V = RvalueView;

    open spec fn view(&self) -> RvalueView {
        match self {
            Rvalue::Use(o) => RvalueView::Use(o@),
            Rvalue::Repeat(o, n) => RvalueView::Repeat(o@, *n),
            Rvalue::Ref(k, p) => RvalueView::Ref(*k, p@),
            Rvalue::AddressOf(m, p) => RvalueView::AddressOf(*m, p@),
            Rvalue::Len(p) => RvalueView::Len(p@),
            Rvalue::Cast(o, t) => RvalueView::Cast(o@, *t),
            Rvalue::BinaryOp(a, b, t) => RvalueView::BinaryOp(a@, b@, *t),
            Rvalue::UnaryOp(o, t) => RvalueView::UnaryOp(o@, *t),
            Rvalue::Discriminant(p, t) => RvalueView::Discriminant(p@, *t),
            Rvalue::Aggregate(os, t) => RvalueView::Aggregate(operands_view(os@), *t),
            Rvalue::Other(t) => RvalueView::Other(*t),
        }
    }
}

impl RvalueView {
    /// The type of the value the right-hand side produces.
    pub open spec fn ty(self, locals: Seq<Ty>) -> Ty {
        match self {
            RvalueView::Use(o) => o.ty(locals),
            RvalueView::Repeat(o, _) => Ty::Array(Box::new(o.ty(locals))),
            RvalueView::Ref(k, p) => Ty::Ref(
                if k == BorrowKind::Mut { Mutability::Mut } else { Mutability::Not },
                Box::new(p.ty(locals)),
            ),
            RvalueView::AddressOf(m, p) => Ty::RawPtr(m, Box::new(p.ty(locals))),
            RvalueView::Len(_) => Ty::Int(IntTy::Usize),
            RvalueView::Cast(_, t) => t,
            RvalueView::BinaryOp(_, _, t) => t,
            RvalueView::UnaryOp(_, t) => t,
            RvalueView::Discriminant(_, t) => t,
            RvalueView::Aggregate(_, t) => t,
            RvalueView::Other(t) => t,
        }
    }

    /// The one place that the right-hand side reads, where there is one.
    pub open spec fn single_place(self) -> Option<PlaceView> {
        match self {
            RvalueView::Use(o) => o.place(),
            RvalueView::Repeat(o, _) => o.place(),
            RvalueView::Ref(_, p) => Some(p),
            RvalueView::AddressOf(_, p) => Some(p),
            RvalueView::Len(p) => Some(p),
            RvalueView::Cast(o, _) => o.place(),
            RvalueView::UnaryOp(o, _) => o.place(),
            RvalueView::Discriminant(p, _) => Some(p),
            _ => None,
        }
    }
}

impl Rvalue {
    pub fn ty_exec(&self, locals: &Vec<Ty>) -> (r: Ty)
        ensures
            r == self@.ty(locals@),
    {
        match self {
            Rvalue::Use(o) => o.ty_exec(locals),
            Rvalue::Repeat(o, _) => Ty::Array(Box::new(o.ty_exec(locals))),
            Rvalue::Ref(k, p) => {
                let m = match k {
                    BorrowKind::Mut => Mutability::Mut,
                    BorrowKind::Shared => Mutability::Not,
                };
                Ty::Ref(m, Box::new(p.ty_exec(locals)))
            },
            Rvalue::AddressOf(m, p) => Ty::RawPtr(*m, Box::new(p.ty_exec(locals))),
            Rvalue::Len(_) => Ty::Int(IntTy::Usize),
            Rvalue::Cast(_, t) => t.duplicate(),
            Rvalue::BinaryOp(_, _, t) => t.duplicate(),
            Rvalue::UnaryOp(_, t) => t.duplicate(),
            Rvalue::Discriminant(_, t) => t.duplicate(),
            Rvalue::Aggregate(_, t) => t.duplicate(),
            Rvalue::Other(t) => t.duplicate(),
        }
    }
}

/// The one place that `rv` reads, where there is one.
pub fn rv_place(rv: &Rvalue) -> (r: Option<&Place>)
    ensures
        r matches Some(p) ==> rv@.single_place() == Some(p@),
        r is None ==> rv@.single_place() is None,
{
    match rv {
        Rvalue::Use(o) => o.place(),
        Rvalue::Repeat(o, _) => o.place(),
        Rvalue::Ref(_, p) => Some(p),
        Rvalue::AddressOf(_, p) => Some(p),
        Rvalue::Len(p) => Some(p),
        Rvalue::Cast(o, _) => o.place(),
        Rvalue::UnaryOp(o, _) => o.place(),
        Rvalue::Discriminant(p, _) => Some(p),
        _ => None,
    }
}

/// The mathematical value of a [`Statement`].
pub enum StatementView {
    Assign(PlaceView, RvalueView),
    Nop,
}

impl View for Statement {
    type V = StatementView;

    open spec fn view(&self) -> StatementView {
        match self {
            Statement::Assign(p, rv) => StatementView::Assign(p@, rv@),
            Statement::Nop => StatementView::Nop,
        }
    }
}

pub open spec fn statements_view(ss: Seq<Statement>) -> Seq<StatementView> {
    ss.map_values(|s: Statement| s@)
}

/// The mathematical value of a [`FnRef`].
pub struct FnRefView {
    pub hash: u128,
    pub name: Seq<char>,
}

impl View for FnRef {
    type V = FnRefView;

    open spec fn view(&self) -> FnRefView {
        FnRefView { hash: self.hash, name: self.name@ }
    }
}

impl FnRef {
    pub fn duplicate(&self) -> (r: FnRef)
        ensures
            r@ == self@,
    {
        FnRef { hash: self.hash, name: self.name.clone() }
    }
}

/// The mathematical value of a [`Callee`].
pub enum CalleeView {
    Def(FnRefView),
    Indirect(OperandView),
}

impl View for Callee {
    type V = CalleeView;

    open spec fn view(&self) -> CalleeView {
        match self {
            Callee::Def(f) => CalleeView::Def(f@),
            Callee::Indirect(o) => CalleeView::Indirect(o@),
        }
    }
}

/// The mathematical value of a [`Terminator`].
pub enum TerminatorView {
    Goto(usize),
    SwitchInt(OperandView, Seq<usize>),
    Return,
    Resume,
    Unreachable,
    Call {
        func: CalleeView,
        args: Seq<OperandView>,
        destination: Option<(PlaceView, usize)>,
        cleanup: Option<usize>,
    },
}

impl View for Terminator {
    type V = TerminatorView;

    open spec fn view(&self) -> TerminatorView {
        match self {
            Terminator::Goto(t) => TerminatorView::Goto(*t),
            Terminator::SwitchInt(o, ts) => TerminatorView::SwitchInt(o@, ts@),
            Terminator::Return => TerminatorView::Return,
            Terminator::Resume => TerminatorView::Resume,
            Terminator::Unreachable => TerminatorView::Unreachable,
            Terminator::Call { func, args, destination, cleanup } => TerminatorView::Call {
                func: func@,
                args: operands_view(args@),
                destination: match destination {
                    Some((p, b)) => Some((p@, *b)),
                    None => None,
                },
                cleanup: *cleanup,
            },
        }
    }
}

impl TerminatorView {
    /// Whether control can pass from this terminator to block `b`.
    pub open spec fn targets(self, b: usize) -> bool {
        match self {
            TerminatorView::Goto(t) => t == b,
            TerminatorView::SwitchInt(_, ts) => ts.contains(b),
            TerminatorView::Call { destination, cleanup, .. } => {
                (destination matches Some((_, d)) && d == b) || cleanup == Some(b)
            },
            _ => false,
        }
    }
}

/// The mathematical value of a [`BasicBlockData`].
pub struct BlockView {
    pub statements: Seq<StatementView>,
    pub terminator: TerminatorView,
    pub is_cleanup: bool,
}

impl View for BasicBlockData {
    type V = BlockView;

    open spec fn view(&self) -> BlockView {
        BlockView {
            statements: statements_view(self.statements@),
            terminator: self.terminator@,
            is_cleanup: self.is_cleanup,
        }
    }
}

/// The mathematical value of a [`Body`].
pub struct BodyView {
    pub blocks: Seq<BlockView>,
    pub locals: Seq<Ty>,
}

impl View for Body {
    type V = BodyView;

    open spec fn view(&self) -> BodyView {
        BodyView {
            blocks: self.basic_blocks@.map_values(|b: BasicBlockData| b@),
            locals: self.local_decls@,
        }
    }
}

} // verus!
