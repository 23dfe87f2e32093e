//! Runtime events: what a hook call records, and how a hook call becomes an
//! event.
use vstd::prelude::*;
use crate::points::HookKind;

verus! {

/// The operation an event records, with the runtime values observed.
#[derive(Clone, Copy, Debug, PartialEq, Eq, Structural)]
pub enum EventKind {
    /// A pointer copied into a new place.
    CopyPtr(usize),
    /// A pointer passed into a callee's parameter.
    Arg(usize),
    /// A pointer returned to the caller.
    Ret(usize),
    /// A pointer that a function returns, captured before the return.
    Return(usize),
    /// A field of the pointed-to value projected: base pointer and field.
    Field(usize, u32),
    /// A load through a pointer.
    Load(usize),
    /// A store through a pointer.
    Store(usize),
    /// A pointer value obtained by a load.
    LoadValue(usize),
    /// A pointer value written by a store.
    StoreValue(usize),
    /// The address of a local taken: the address and the local.
    AddrOfLocal(usize, u32),
    /// A pointer cast to an integer.
    ToInt(usize),
    /// A pointer made up from an integer.
    FromInt(usize),
    /// An allocation of `size` bytes at `ptr`.
    Alloc { size: usize, ptr: usize },
    /// The block at `ptr` freed.
    Free { ptr: usize },
    /// The block at `old_ptr` reallocated to `size` bytes at `new_ptr`.
    Realloc { old_ptr: usize, size: usize, new_ptr: usize },
    /// The end of the event stream.
    Done,
}

/// One hook invocation: the index of its program point and what it saw.
#[derive(Clone, Copy, Debug, PartialEq, Eq, Structural)]
pub struct Event {
    pub mir_loc: u32,
    pub kind: EventKind,
}

impl Event {
    /// The terminal marker of the stream.
    pub fn done() -> (r: Event)
        ensures
            r.kind is Done,
            r.mir_loc == 0,
    {
        Event { mir_loc: 0, kind: EventKind::Done }
    }

    pub fn is_done(&self) -> (r: bool)
        ensures
            r == (self.kind is Done),
    {
        matches!(self.kind, EventKind::Done)
    }
}

/// The event that a call of `hook` at program point `mir_loc` records, given
/// the values it receives after the program-point index (addresses as
/// integers, and for a traced call its result last). `None` for a hook that
/// records no event, or for too few values.
pub open spec fn hook_event_spec(hook: HookKind, mir_loc: u32, vals: Seq<usize>) -> Option<Event> {
    let ev = |k: EventKind| Some(Event { mir_loc, kind: k });
    match hook {
        HookKind::PtrCopy => if vals.len() >= 1 { ev(EventKind::CopyPtr(vals[0])) } else { None },
        HookKind::PtrRet => if vals.len() >= 1 { ev(EventKind::Return(vals[0])) } else { None },
        HookKind::PtrField => if vals.len() >= 2 && vals[1] <= u32::MAX {
            ev(EventKind::Field(vals[0], vals[1] as u32))
        } else {
            None
        },
        HookKind::PtrLoad => if vals.len() >= 1 { ev(EventKind::Load(vals[0])) } else { None },
        HookKind::PtrStore => if vals.len() >= 1 { ev(EventKind::Store(vals[0])) } else { None },
        HookKind::LoadValue => if vals.len() >= 1 { ev(EventKind::LoadValue(vals[0])) } else { None },
        HookKind::StoreValue => if vals.len() >= 1 { ev(EventKind::StoreValue(vals[0])) } else { None },
        HookKind::AddrOfLocal => if vals.len() >= 2 && vals[1] <= u32::MAX {
            ev(EventKind::AddrOfLocal(vals[0], vals[1] as u32))
        } else {
            None
        },
        HookKind::PtrToInt => if vals.len() >= 1 { ev(EventKind::ToInt(vals[0])) } else { None },
        HookKind::PtrContrive => if vals.len() >= 1 { ev(EventKind::FromInt(vals[0])) } else { None },
        HookKind::Malloc => if vals.len() >= 2 { ev(EventKind::Alloc { size: vals[0], ptr: vals[1] }) } else { None },
        HookKind::Calloc => if vals.len() >= 3 {
            ev(EventKind::Alloc { size: vals[0].wrapping_mul(vals[1]), ptr: vals[2] })
        } else {
            None
        },
        HookKind::Free => if vals.len() >= 1 { ev(EventKind::Free { ptr: vals[0] }) } else { None },
        HookKind::Realloc => if vals.len() >= 3 {
            ev(EventKind::Realloc { old_ptr: vals[0], size: vals[1], new_ptr: vals[2] })
        } else {
            None
        },
        HookKind::Reallocarray => if vals.len() >= 4 {
            ev(EventKind::Realloc { old_ptr: vals[0], size: vals[1].wrapping_mul(vals[2]), new_ptr: vals[3] })
        } else {
            None
        },
        HookKind::Initialize => None,
        HookKind::Finalize => None,
    }
}

/// The event that a call of `hook` records; see [`hook_event_spec`]. Sizes
/// given as a count and an element size are multiplied, wrapping on
/// overflow.
pub fn hook_event(hook: HookKind, mir_loc: u32, vals: &Vec<usize>) -> (r: Option<Event>)
    ensures
        r == hook_event_spec(hook, mir_loc, vals@),
{
    let n = vals.len();
    let kind = match hook {
        HookKind::PtrCopy => if n >= 1 { Some(EventKind::CopyPtr(vals[0])) } else { None },
        HookKind::PtrRet => if n >= 1 { Some(EventKind::Return(vals[0])) } else { None },
        HookKind::PtrField => if n >= 2 && vals[1] <= u32::MAX as usize {
            Some(EventKind::Field(vals[0], vals[1] as u32))
        } else {
            None
        },
        HookKind::PtrLoad => if n >= 1 { Some(EventKind::Load(vals[0])) } else { None },
        HookKind::PtrStore => if n >= 1 { Some(EventKind::Store(vals[0])) } else { None },
        HookKind::LoadValue => if n >= 1 { Some(EventKind::LoadValue(vals[0])) } else { None },
        HookKind::StoreValue => if n >= 1 { Some(EventKind::StoreValue(vals[0])) } else { None },
        HookKind::AddrOfLocal => if n >= 2 && vals[1] <= u32::MAX as usize {
            Some(EventKind::AddrOfLocal(vals[0], vals[1] as u32))
        } else {
            None
        },
        HookKind::PtrToInt => if n >= 1 { Some(EventKind::ToInt(vals[0])) } else { None },
        HookKind::PtrContrive => if n >= 1 { Some(EventKind::FromInt(vals[0])) } else { None },
        HookKind::Malloc => if n >= 2 { Some(EventKind::Alloc { size: vals[0], ptr: vals[1] }) } else { None },
        HookKind::Calloc => if n >= 3 {
            Some(EventKind::Alloc { size: vals[0].wrapping_mul(vals[1]), ptr: vals[2] })
        } else {
            None
        },
        HookKind::Free => if n >= 1 { Some(EventKind::Free { ptr: vals[0] }) } else { None },
        HookKind::Realloc => if n >= 3 {
            Some(EventKind::Realloc { old_ptr: vals[0], size: vals[1], new_ptr: vals[2] })
        } else {
            None
        },
        HookKind::Reallocarray => if n >= 4 {
            Some(EventKind::Realloc { old_ptr: vals[0], size: vals[1].wrapping_mul(vals[2]), new_ptr: vals[3] })
        } else {
            None
        },
        HookKind::Initialize => None,
        HookKind::Finalize => None,
    };
    match kind {
        Some(k) => Some(Event { mir_loc, kind: k }),
        None => None,
    }
}

} // verus!
