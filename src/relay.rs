use vstd::prelude::*;

verus! {

/// What happens next on the relayed response body.
#[derive(Debug)]
pub enum RelayEvent {
    /// The upstream body yielded its next chunk.
    Chunk(Vec<u8>),
    /// Reading the next upstream chunk failed.
    ReadFailed,
    /// The upstream body ended.
    Finished,
    /// The downstream client went away.
    DownstreamClosed,
}

/// What the driver of the relay does next.
#[derive(Debug)]
pub enum RelayAction {
    /// Send these bytes downstream unmodified, then pull the next chunk.
    Forward(Vec<u8>),
    /// The body is complete: end the downstream stream.
    End,
    /// Reading upstream failed: end the downstream stream early, truncated.
    Truncate,
    /// Nobody reads any more: drop the upstream body without draining it.
    Cancel,
    /// The relay has already stopped: pull nothing more.
    Stopped,
}

/// The pull loop that moves an upstream body to the client one chunk at a
/// time. It holds no body bytes: each chunk passes straight through, so its
/// memory does not grow with the body.
pub struct BodyRelay {
    open: bool,
    forwarded: Ghost<Seq<Seq<u8>>>,
}

/// Whether the relay is still open after `ev`.
pub open spec fn next_open(open: bool, ev: RelayEvent) -> bool {
    open && ev is Chunk
}

/// The chunks forwarded once `ev` is handled.
pub open spec fn next_forwarded(open: bool, fwd: Seq<Seq<u8>>, ev: RelayEvent) -> Seq<Seq<u8>> {
    if open && ev is Chunk {
        fwd.push(ev->Chunk_0@)
    } else {
        fwd
    }
}

/// The relay's state after handling `evs` in order, from `(open, fwd)`.
pub open spec fn relay_run(open: bool, fwd: Seq<Seq<u8>>, evs: Seq<RelayEvent>) -> (bool, Seq<Seq<u8>>)
    decreases evs.len(),
{
    if evs.len() == 0 {
        (open, fwd)
    } else {
        let prev = relay_run(open, fwd, evs.drop_last());
        (next_open(prev.0, evs.last()), next_forwarded(prev.0, prev.1, evs.last()))
    }
}

/// The bytes that chunk events carry, in order.
pub open spec fn chunk_data(evs: Seq<RelayEvent>) -> Seq<Seq<u8>> {
    evs.map_values(|e: RelayEvent| e->Chunk_0@)
}

impl BodyRelay {
    /// A relay that has forwarded nothing yet.
    pub fn new() -> (r: BodyRelay)
        ensures
            r.is_open_spec(),
            r.forwarded_chunks() == Seq::<Seq<u8>>::empty(),
    {
        BodyRelay { open: true, forwarded: Ghost(Seq::empty()) }
    }

    pub closed spec fn is_open_spec(&self) -> bool {
        self.open
    }

    /// The chunks passed downstream so far, in order.
    pub closed spec fn forwarded_chunks(&self) -> Seq<Seq<u8>> {
        self.forwarded@
    }

    /// Whether the relay still pulls chunks.
    pub fn is_open(&self) -> (r: bool)
        ensures
            r == self.is_open_spec(),
    {
        self.open
    }

    /// Decides what to do with `ev`. While open, a chunk is forwarded as it
    /// is and the relay stays open; the end of the body, a read failure or a
    /// closed client each stop it, with their own action. Once stopped, it
    /// forwards nothing.
    pub fn step(&mut self, ev: RelayEvent) -> (a: RelayAction)
        ensures
            final(self).is_open_spec() == next_open(old(self).is_open_spec(), ev),
            final(self).forwarded_chunks() == next_forwarded(old(self).is_open_spec(), old(self).forwarded_chunks(), ev),
            !old(self).is_open_spec() ==> a is Stopped,
            old(self).is_open_spec() ==> match ev {
                RelayEvent::Chunk(c) => a matches RelayAction::Forward(d) && d@ == c@,
                RelayEvent::ReadFailed => a is Truncate,
                RelayEvent::Finished => a is End,
                RelayEvent::DownstreamClosed => a is Cancel,
            },
    {
        if !self.open {
            return RelayAction::Stopped;
        }
        match ev {
            RelayEvent::Chunk(c) => {
                proof {
                    self.forwarded@ = self.forwarded@.push(c@);
                }
                RelayAction::Forward(c)
            },
            RelayEvent::ReadFailed => {
                self.open = false;
                RelayAction::Truncate
            },
            RelayEvent::Finished => {
                self.open = false;
                RelayAction::End
            },
            RelayEvent::DownstreamClosed => {
                self.open = false;
                RelayAction::Cancel
            },
        }
    }
}

/// Relaying is byte-exact and in order. Whatever events come, a fresh relay
/// forwards exactly the chunks that precede the first event that is not a
/// chunk, each unmodified and in the order received, so the client sees their
/// concatenation; it stays open only if every event was a chunk, and after it
/// stops nothing more is forwarded.
pub proof fn lemma_relay_forwards_chunks_in_order(evs: Seq<RelayEvent>, k: int)
    requires
        0 <= k <= evs.len(),
        forall|i: int| 0 <= i < k ==> (#[trigger] evs[i]) is Chunk,
        k < evs.len() ==> !(evs[k] is Chunk),
    ensures
        relay_run(true, Seq::empty(), evs).1 == chunk_data(evs.take(k)),
        relay_run(true, Seq::empty(), evs).1.flatten() == chunk_data(evs.take(k)).flatten(),
        relay_run(true, Seq::empty(), evs).0 == (k == evs.len()),
    decreases evs.len(),
{
    if evs.len() == 0 {
        assert(chunk_data(evs.take(k)) =~= Seq::empty());
    } else {
        let n = evs.len() - 1;
        let init = evs.drop_last();
        if k == evs.len() {
            lemma_relay_forwards_chunks_in_order(init, n);
            assert(init.take(n) =~= init);
            assert(evs.take(k) =~= evs);
            assert(chunk_data(evs) =~= chunk_data(init).push(evs.last()->Chunk_0@));
        } else if k == n {
            lemma_relay_forwards_chunks_in_order(init, n);
            assert(init.take(n) =~= evs.take(k));
        } else {
            lemma_relay_forwards_chunks_in_order(init, k);
            assert(init.take(k) =~= evs.take(k));
        }
    }
}

} // verus!
