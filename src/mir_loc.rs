//! Descriptions of instrumented program points, as they are recorded in the
//! location table and persisted in the metadata artifact.
use vstd::prelude::*;
use std::collections::HashMap;
use crate::mir::{Place, PlaceView, Projection};

verus! {

/// A projection step as recorded in metadata.
#[derive(Clone, Copy, Debug, PartialEq, Eq, Hash, Structural)]
pub enum MirProjection {
    Deref,
    Field(u32),
    Index(u32),
    Unsupported,
}

/// A place as recorded in metadata: a local and its projections.
#[derive(Clone, Debug, PartialEq, Eq, Hash)]
pub struct MirPlace {
    pub local: u32,
    pub projection: Vec<MirProjection>,
}

/// Whether an event passes a value into a callee or back to a caller, and
/// which function is on the other side (by its hash).
#[derive(Clone, Copy, Debug, PartialEq, Eq, Hash, Structural)]
pub enum TransferKind {
    NoTransfer,
    Arg(u128),
    Ret(u128),
}

/// What an event reads from and writes to, and across which call boundary.
#[derive(Clone, Debug, PartialEq, Eq, Hash)]
pub struct EventMetadata {
    pub source: Option<MirPlace>,
    pub destination: Option<MirPlace>,
    pub transfer_kind: TransferKind,
}

/// A function identity: its stable hash and display name.
#[derive(Clone, Debug, PartialEq, Eq, Hash)]
pub struct Func {
    pub def_path_hash: u128,
    pub name: String,
}

/// A program point with the event that is recorded there.
#[derive(Clone, Debug, PartialEq, Eq, Hash)]
pub struct MirLoc {
    pub func: Func,
    pub basic_block_idx: usize,
    pub statement_idx: usize,
    pub metadata: EventMetadata,
}

/// The artifact persisted at the end of a compilation: every registered
/// program point in registration order, and each function's display name.
#[derive(Debug)]
pub struct Metadata {
    pub locs: Vec<MirLoc>,
    pub functions: HashMap<u128, String>,
}

/// The mathematical value of a [`MirPlace`].
pub struct MirPlaceView {
    pub local: u32,
    pub projection: Seq<MirProjection>,
}

impl View for MirPlace {
    type V = MirPlaceView;

    open spec fn view(&self) -> MirPlaceView {
        MirPlaceView { local: self.local, projection: self.projection@ }
    }
}

pub open spec fn opt_mir_place_view(p: Option<MirPlace>) -> Option<MirPlaceView> {
    match p {
        Some(q) => Some(q@),
        None => None,
    }
}

/// The mathematical value of an [`EventMetadata`].
pub struct EventMetadataView {
    pub source: Option<MirPlaceView>,
    pub destination: Option<MirPlaceView>,
    pub transfer_kind: TransferKind,
}

impl EventMetadataView {
    pub open spec fn empty() -> EventMetadataView {
        EventMetadataView { source: None, destination: None, transfer_kind: TransferKind::NoTransfer }
    }
}

impl View for EventMetadata {
    type V = EventMetadataView;

    open spec fn view(&self) -> EventMetadataView {
        EventMetadataView {
            source: opt_mir_place_view(self.source),
            destination: opt_mir_place_view(self.destination),
            transfer_kind: self.transfer_kind,
        }
    }
}

/// The mathematical value of a [`MirLoc`].
pub struct MirLocView {
    pub func_hash: u128,
    pub func_name: Seq<char>,
    pub block: usize,
    pub statement: usize,
    pub metadata: EventMetadataView,
}

impl View for MirLoc {
    type V = MirLocView;

    open spec fn view(&self) -> MirLocView {
        MirLocView {
            func_hash: self.func.def_path_hash,
            func_name: self.func.name@,
            block: self.basic_block_idx,
            statement: self.statement_idx,
            metadata: self.metadata@,
        }
    }
}

/// How a projection step is recorded.
pub open spec fn mir_projection_of(p: Projection) -> MirProjection {
    match p {
        Projection::Deref => MirProjection::Deref,
        Projection::Field(i, _) => MirProjection::Field(i),
        Projection::Index(l) => MirProjection::Index(l),
        Projection::Other(_) => MirProjection::Unsupported,
    }
}

/// How a place is recorded.
pub open spec fn mir_place_of(p: PlaceView) -> MirPlaceView {
    MirPlaceView { local: p.local, projection: p.projection.map_values(|q: Projection| mir_projection_of(q)) }
}

impl MirPlace {
    pub fn duplicate(&self) -> (r: MirPlace)
        ensures
            r@ == self@,
    {
        let mut projection: Vec<MirProjection> = Vec::new();
        let n = self.projection.len();
        for i in 0..n
            invariant
                n == self.projection@.len(),
                projection@ == self.projection@.subrange(0, i as int),
        {
            projection.push(self.projection[i]);
            assert(projection@ =~= self.projection@.subrange(0, i + 1));
        }
        assert(projection@ =~= self.projection@);
        MirPlace { local: self.local, projection }
    }
}

pub fn duplicate_opt_mir_place(p: &Option<MirPlace>) -> (r: Option<MirPlace>)
    ensures
        opt_mir_place_view(r) == opt_mir_place_view(*p),
{
    match p {
        Some(q) => Some(q.duplicate()),
        None => None,
    }
}

impl EventMetadata {
    pub fn new() -> (r: EventMetadata)
        ensures
            r@ == EventMetadataView::empty(),
    {
        EventMetadata { source: None, destination: None, transfer_kind: TransferKind::NoTransfer }
    }

    pub fn duplicate(&self) -> (r: EventMetadata)
        ensures
            r@ == self@,
    {
        EventMetadata {
            source: duplicate_opt_mir_place(&self.source),
            destination: duplicate_opt_mir_place(&self.destination),
            transfer_kind: self.transfer_kind,
        }
    }
}

/// Records a place for metadata: each projection keeps its kind and index.
pub fn to_mir_place(place: &Place) -> (r: MirPlace)
    ensures
        r@ == mir_place_of(place@),
{
    let mut projection: Vec<MirProjection> = Vec::new();
    let n = place.projection.len();
    for i in 0..n
        invariant
            n == place.projection@.len(),
            projection@ == place.projection@.subrange(0, i as int).map_values(
                |q: Projection| mir_projection_of(q),
            ),
    {
        let m = match &place.projection[i] {
            Projection::Deref => MirProjection::Deref,
            Projection::Field(f, _) => MirProjection::Field(*f),
            Projection::Index(l) => MirProjection::Index(*l),
            Projection::Other(_) => MirProjection::Unsupported,
        };
        projection.push(m);
        assert(projection@ =~= place.projection@.subrange(0, i + 1).map_values(
            |q: Projection| mir_projection_of(q),
        ));
    }
    assert(place.projection@.subrange(0, n as int) =~= place.projection@);
    MirPlace { local: place.local, projection }
}

} // verus!
