//! Pointer-provenance instrumentation: a pass that rewrites a function's
//! control-flow graph to call tracing hooks at every pointer operation, a
//! registry of the program points it instruments, and the runtime event
//! pipeline that carries hook events to a backend.
pub mod mir;
pub mod mir_loc;
pub mod location_table;
pub mod points;
pub mod rewrite;
pub mod collect;
pub mod instrument;
pub mod events;
pub mod channel;
pub mod backend;
pub mod deps;
