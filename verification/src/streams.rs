//! Per-tunnel bookkeeping of visitor requests waiting for the client's
//! answer: stream ids are handed out in turn, and each answer goes to the
//! request that opened its stream.
use crate::types::MessageType;
use std::collections::HashMap;
use vstd::prelude::*;

verus! {

broadcast use vstd::std_specs::hash::group_hash_axioms;

/// The id that follows `id`, wrapping from `u32::MAX` back to 0.
pub open spec fn next_stream_id(id: u32) -> u32 {
    if id == u32::MAX {
        0
    } else {
        (id + 1) as u32
    }
}

/// What the server does with a frame its tunnel client sent.
pub enum Dispatch<T> {
    /// An answer: hand the frame to this waiting request.
    Deliver(T),
    /// The client closed the stream: the waiting request, if any, is dropped.
    Closed,
    /// A heartbeat, or an answer for a stream nobody waits on.
    Ignored,
    /// A kind a client has no business sending.
    Unexpected(MessageType),
}

/// The requests of one tunnel that wait for an answer, keyed by stream id,
/// and the id the next request gets.
pub struct StreamTable<T> {
    next_stream: u32,
    pending: HashMap<u32, T>,
}

impl<T> StreamTable<T> {
    /// The id the next request gets.
    pub closed spec fn next_id(&self) -> u32 {
        self.next_stream
    }

    /// The waiting requests, by stream id.
    pub closed spec fn waiting(&self) -> Map<u32, T> {
        self.pending@
    }

    /// No request waits, and the first id is 1.
    pub fn new() -> (t: Self)
        ensures
            t.next_id() == 1,
            t.waiting() == Map::<u32, T>::empty(),
    {
        StreamTable { next_stream: 1, pending: HashMap::new() }
    }

    /// Gives a request the next stream id and records it as waiting on it;
    /// a request still waiting on that id (after the ids wrapped) is dropped.
    pub fn open(&mut self, responder: T) -> (id: u32)
        ensures
            id == old(self).next_id(),
            final(self).next_id() == next_stream_id(old(self).next_id()),
            final(self).waiting() == old(self).waiting().insert(id, responder),
    {
        let id: u32 = self.next_stream;
        self.next_stream = id.wrapping_add(1);
        self.pending.insert(id, responder);
        id
    }

    /// Takes the request waiting on `id` out of the table, if there is one.
    pub fn take(&mut self, id: u32) -> (r: Option<T>)
        ensures
            final(self).next_id() == old(self).next_id(),
            final(self).waiting() == old(self).waiting().remove(id),
            match r {
                Some(t) => old(self).waiting().contains_key(id) && old(self).waiting()[id] == t,
                None => !old(self).waiting().contains_key(id),
            },
    {
        self.pending.remove(&id)
    }

    /// Acts on a frame from the tunnel client: an HTTP response or TCP data
    /// goes to the request waiting on its stream; closing a stream drops the
    /// request waiting on it; heartbeats are ignored; any other kind is
    /// unexpected and changes nothing.
    pub fn dispatch(&mut self, msg_type: MessageType, stream_id: u32) -> (d: Dispatch<T>)
        ensures
            final(self).next_id() == old(self).next_id(),
            match msg_type {
                MessageType::HttpResponse | MessageType::TcpData => {
                    &&& final(self).waiting() == old(self).waiting().remove(stream_id)
                    &&& match d {
                        Dispatch::Deliver(t) => old(self).waiting().contains_key(stream_id)
                            && old(self).waiting()[stream_id] == t,
                        Dispatch::Ignored => !old(self).waiting().contains_key(stream_id),
                        _ => false,
                    }
                },
                MessageType::CloseStream => {
                    &&& final(self).waiting() == old(self).waiting().remove(stream_id)
                    &&& d is Closed
                },
                MessageType::Heartbeat => {
                    &&& final(self).waiting() == old(self).waiting()
                    &&& d is Ignored
                },
                _ => {
                    &&& final(self).waiting() == old(self).waiting()
                    &&& d == Dispatch::<T>::Unexpected(msg_type)
                },
            },
    {
        match msg_type {
            MessageType::HttpResponse | MessageType::TcpData => match self.take(stream_id) {
                Some(t) => Dispatch::Deliver(t),
                None => Dispatch::Ignored,
            },
            MessageType::CloseStream => {
                let _ = self.take(stream_id);
                Dispatch::Closed
            },
            MessageType::Heartbeat => Dispatch::Ignored,
            _ => Dispatch::Unexpected(msg_type),
        }
    }
}

} // verus!

verus! {

/// The id handed out `n` requests after the one that got `start`.
pub open spec fn nth_stream_id(start: u32, n: nat) -> u32
    decreases n,
{
    if n == 0 {
        start
    } else {
        next_stream_id(nth_stream_id(start, (n - 1) as nat))
    }
}

/// Ids count up from where they start, wrapping modulo 2^32.
pub proof fn lemma_nth_stream_id(start: u32, n: nat)
    ensures
        nth_stream_id(start, n) == (start + n) % 0x1_0000_0000,
    decreases n,
{
    if n > 0 {
        lemma_nth_stream_id(start, (n - 1) as nat);
        let p: int = (start + n - 1) % 0x1_0000_0000;
        assert((p + 1) % 0x1_0000_0000 == (start + n) % 0x1_0000_0000) by (nonlinear_arith)
            requires
                p == (start + n - 1) % 0x1_0000_0000,
        ;
    }
}

/// Requests opened one after another get distinct ids, for as long as fewer
/// than 2^32 of them are opened.
pub proof fn lemma_stream_ids_distinct(start: u32, i: nat, j: nat)
    requires
        i < j < 0x1_0000_0000,
    ensures
        nth_stream_id(start, i) != nth_stream_id(start, j),
{
    lemma_nth_stream_id(start, i);
    lemma_nth_stream_id(start, j);
    assert((start + i) % 0x1_0000_0000 != (start + j) % 0x1_0000_0000) by (nonlinear_arith)
        requires
            i < j < 0x1_0000_0000,
            0 <= start,
    ;
}

/// An answer on a stream reaches the request that opened it, and only once:
/// after `open` records `x` under `id`, `dispatch` of a response on `id`
/// hands over `x` and leaves no request waiting on `id`.
pub proof fn lemma_answer_reaches_opener<T>(waiting: Map<u32, T>, id: u32, x: T)
    ensures
        waiting.insert(id, x).contains_key(id),
        waiting.insert(id, x)[id] == x,
        !waiting.insert(id, x).remove(id).contains_key(id),
        forall|other: u32|
            other != id ==> #[trigger] waiting.insert(id, x).remove(id).contains_key(other)
                == waiting.contains_key(other),
{
}

/// A run of `open` calls: each table is the one before it after one more
/// `open`, so its next id follows the one before.
pub open spec fn is_open_run<T>(ts: Seq<StreamTable<T>>) -> bool {
    forall|k: int|
        0 <= k < ts.len() - 1 ==> #[trigger] ts[k + 1].next_id() == next_stream_id(ts[k].next_id())
}

/// Opened one after another on a new table, requests get the ids 1, 2, 3,
/// ... in turn: for up to `u32::MAX` requests none gets 0, the id of the
/// control frames, and no two share an id. `ts[k].next_id()` is the id the
/// request opened on `ts[k]` gets.
pub proof fn lemma_fresh_table_ids<T>(ts: Seq<StreamTable<T>>)
    requires
        0 < ts.len() <= u32::MAX,
        ts[0].next_id() == 1,
        is_open_run(ts),
    ensures
        forall|k: int| 0 <= k < ts.len() ==> #[trigger] ts[k].next_id() == k + 1,
        forall|k: int| 0 <= k < ts.len() ==> #[trigger] ts[k].next_id() != 0,
        forall|i: int, j: int|
            0 <= i < j < ts.len() ==> #[trigger] ts[i].next_id() != #[trigger] ts[j].next_id(),
    decreases ts.len(),
{
    if ts.len() > 1 {
        let p = ts.drop_last();
        assert forall|k: int| 0 <= k < p.len() - 1 implies #[trigger] p[k + 1].next_id()
            == next_stream_id(p[k].next_id()) by {
            assert(p[k] == ts[k]);
            assert(p[k + 1] == ts[k + 1]);
        }
        lemma_fresh_table_ids(p);
        let last: int = ts.len() - 1;
        assert(ts[last - 1] == p[last - 1]);
        assert(ts[last].next_id() == next_stream_id(ts[last - 1].next_id()));
        assert forall|k: int| 0 <= k < ts.len() implies #[trigger] ts[k].next_id() == k + 1 by {
            if k < last {
                assert(ts[k] == p[k]);
            }
        }
    }
}

} // verus!
