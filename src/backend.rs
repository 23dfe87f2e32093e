//! The consuming side of the event pipeline: which backend runs, what the
//! consumer writes, and how the debug backend resolves an event to its
//! source.
use vstd::prelude::*;
use crate::channel::{EventChannel, sent_all, lemma_sends_within_capacity};
use crate::events::Event;
use crate::mir_loc::Metadata;

verus! {

/// The backends that consume events.
#[derive(Clone, Copy, Debug, PartialEq, Eq, Structural)]
pub enum BackendKind {
    /// Prints each event with its source function.
    Debug,
    /// Encodes each event to the output file.
    Log,
}

/// The backend that a selector setting chooses: "log" and "debug" are
/// recognized; anything else, or no setting, means "debug".
pub open spec fn backend_for(setting: Option<Seq<char>>) -> BackendKind {
    match setting {
        Some(s) => if s == "log"@ { BackendKind::Log } else { BackendKind::Debug },
        None => BackendKind::Debug,
    }
}

pub fn select_backend(setting: Option<&str>) -> (r: BackendKind)
    ensures
        r == backend_for(match setting {
            Some(s) => Some(s@),
            None => None,
        }),
{
    match setting {
        Some(s) => {
            let owned = s.to_owned();
            let log = "log".to_owned();
            if owned == log {
                BackendKind::Log
            } else {
                BackendKind::Debug
            }
        },
        None => BackendKind::Debug,
    }
}

/// What the consumer does with the events `q`, taken in order: the events it
/// writes (those before the first `Done`), the events left behind it, and
/// whether it saw `Done` (which it does not write).
pub open spec fn consumed(q: Seq<Event>) -> (Seq<Event>, Seq<Event>, bool)
    decreases q.len(),
{
    if q.len() == 0 {
        (Seq::empty(), Seq::empty(), false)
    } else if q[0].kind is Done {
        (Seq::empty(), q.drop_first(), true)
    } else {
        let rest = consumed(q.drop_first());
        (seq![q[0]] + rest.0, rest.1, rest.2)
    }
}

/// Takes the events waiting in the channel, appending each to `written`,
/// until it takes `Done` (not written) or the channel is empty. Returns
/// whether it took `Done`: the consumer's loop ends there.
pub fn write_all(channel: &mut EventChannel, written: &mut Vec<Event>) -> (done: bool)
    requires
        old(channel).wf(),
    ensures
        final(channel).wf(),
        final(channel).cap() == old(channel).cap(),
        ({
            let c = consumed(old(channel).queued());
            &&& final(written)@ == old(written)@ + c.0
            &&& final(channel).queued() == c.1
            &&& done == c.2
        }),
{
    let ghost q0 = channel.queued();
    let ghost w0 = written@;
    let mut done = false;
    loop
        invariant_except_break
            !done,
        invariant
            channel.wf(),
            channel.cap() == old(channel).cap(),
            !done ==> ({
                let c = consumed(channel.queued());
                let c0 = consumed(q0);
                &&& written@ + c.0 == w0 + c0.0
                &&& c.1 == c0.1
                &&& c.2 == c0.2
            }),
        ensures
            channel.wf(),
            channel.cap() == old(channel).cap(),
            written@ == w0 + consumed(q0).0,
            channel.queued() == consumed(q0).1,
            done == consumed(q0).2,
        decreases channel.queued().len(),
    {
        let ghost q = channel.queued();
        match channel.recv() {
            None => {
                assert(consumed(q) == (Seq::<Event>::empty(), Seq::<Event>::empty(), false));
                assert(written@ + consumed(q).0 =~= written@);
                break;
            },
            Some(e) => {
                if e.is_done() {
                    assert(consumed(q) == (Seq::<Event>::empty(), q.drop_first(), true));
                    assert(written@ + consumed(q).0 =~= written@);
                    done = true;
                    break;
                }
                written.push(e);
                assert(seq![e] + consumed(q.drop_first()).0 == consumed(q).0);
                assert(written@ + consumed(channel.queued()).0 =~= w0 + consumed(q0).0);
            },
        }
    }
    done
}

/// Events `es` (none of them `Done`) sent by one producer into an empty
/// channel with room for them and for `Done`, then `Done`: the consumer
/// writes exactly `es`, in order, and sees `Done`.
pub proof fn lemma_shutdown_complete(cap: nat, es: Seq<Event>, done: Event)
    requires
        es.len() + 1 <= cap,
        forall|i: int| 0 <= i < es.len() ==> !(#[trigger] es[i].kind is Done),
        done.kind is Done,
    ensures
        sent_all(Seq::empty(), cap, es.push(done)).0 == es.push(done),
        consumed(es.push(done)).0 == es,
        consumed(es.push(done)).1 == Seq::<Event>::empty(),
        consumed(es.push(done)).2,
{
    lemma_sends_within_capacity(cap, es.push(done));
    lemma_consumed_prefix(es, done, Seq::empty());
}

/// The consumer writes the events before `Done` and leaves those after it.
pub proof fn lemma_consumed_prefix(es: Seq<Event>, done: Event, rest: Seq<Event>)
    requires
        forall|i: int| 0 <= i < es.len() ==> !(#[trigger] es[i].kind is Done),
        done.kind is Done,
    ensures
        consumed(es.push(done) + rest).0 == es,
        consumed(es.push(done) + rest).1 == rest,
        consumed(es.push(done) + rest).2,
    decreases es.len(),
{
    let q = es.push(done) + rest;
    if es.len() == 0 {
        assert(q[0] == done);
        assert(q.drop_first() =~= rest);
    } else {
        let tail = es.drop_first();
        assert(q.drop_first() =~= tail.push(done) + rest);
        assert forall|i: int| 0 <= i < tail.len() implies !(#[trigger] tail[i].kind is Done) by {
            assert(tail[i] == es[i + 1]);
        }
        lemma_consumed_prefix(tail, done, rest);
        assert(q[0] == es[0]);
        assert(seq![es[0]] + tail =~= es);
    }
}

/// Where an event happened, as the debug backend prints it.
#[derive(Debug)]
pub struct EventSite {
    pub func_name: String,
    pub block: usize,
    pub statement: usize,
}

/// The debug backend: resolves each event's program point through the
/// metadata artifact.
pub struct DebugBackend {
    metadata: Metadata,
}

impl DebugBackend {
    pub closed spec fn metadata(&self) -> Metadata {
        self.metadata
    }

    pub fn new(metadata: Metadata) -> (r: Self)
        ensures
            r.metadata() == metadata,
    {
        DebugBackend { metadata }
    }

    /// The source of event `e`: the function, block and statement of its
    /// program point; `None` for an index that the metadata does not have.
    pub fn site(&self, e: &Event) -> (r: Option<EventSite>)
        ensures
            (e.mir_loc as int) < self.metadata().locs@.len() <==> r is Some,
            r matches Some(s) ==> {
                let l = self.metadata().locs@[e.mir_loc as int];
                &&& s.func_name@ == l.func.name@
                &&& s.block == l.basic_block_idx
                &&& s.statement == l.statement_idx
            },
    {
        let i = e.mir_loc as usize;
        if i < self.metadata.locs.len() {
            let l = &self.metadata.locs[i];
            Some(EventSite { func_name: l.func.name.clone(), block: l.basic_block_idx, statement: l.statement_idx })
        } else {
            None
        }
    }
}

} // verus!
