//! The requests of a connection that wait for their response.
//!
//! Many requests are on their way at once on one connection. Each gets an id
//! when it is sent, and the response that carries the id goes to what waits
//! for that request, in whatever order the responses arrive.

use crate::proto::ProtocolError;
use std::collections::HashMap;
use vstd::prelude::*;

verus! {

broadcast use vstd::std_specs::hash::group_hash_axioms;

/// The requests of a connection that wait for their response: for each one
/// its id and what waits for the response.
///
/// Ids are given out in rising order, and none is given out twice.
pub struct PendingRequests<W> {
    next_id: u64,
    exhausted: bool,
    waiting: HashMap<u64, W>,
}

impl<W> View for PendingRequests<W> {
    type V = Map<u64, W>;

    /// For each request id that waits for a response, what waits for it.
    closed spec fn view(&self) -> Map<u64, W> {
        self.waiting@
    }
}

/// The id that the next request gets once the id `request_id` has been given
/// out, where `next` was the next before: the smallest id behind all that
/// were given out, and none once the largest id of all was.
pub open spec fn next_after(next: Option<u64>, request_id: u64) -> Option<u64> {
    match next {
        None => None,
        Some(id) => if request_id < id {
            Some(id)
        } else if request_id < u64::MAX {
            Some((request_id + 1) as u64)
        } else {
            None
        },
    }
}

impl<W> PendingRequests<W> {
    /// Whether the table is well formed: every id that waits has been given
    /// out before. A new table is, and every method keeps it so.
    pub closed spec fn wf(&self) -> bool {
        forall|id: u64| self.waiting@.contains_key(id) ==> self.exhausted || id < self.next_id
    }

    /// The id that the next request gets, or none where all ids have been
    /// given out.
    pub closed spec fn next(&self) -> Option<u64> {
        if self.exhausted {
            None
        } else {
            Some(self.next_id)
        }
    }

    /// A table in which no request waits.
    pub fn new() -> (r: Self)
        ensures
            r.wf(),
            r@ == Map::<u64, W>::empty(),
            r.next() == Some(0u64),
    {
        PendingRequests { next_id: 0, exhausted: false, waiting: HashMap::new() }
    }

    /// The number of requests that wait for a response.
    pub fn len(&self) -> (r: usize)
        ensures
            r == self@.len(),
    {
        self.waiting.len()
    }

    /// Gives the next id to a request and lets `waiter` wait for its
    /// response. No id is left once all have been given out.
    pub fn issue(&mut self, waiter: W) -> (r: Result<u64, ProtocolError>)
        requires
            old(self).wf(),
        ensures
            final(self).wf(),
            match old(self).next() {
                Some(id) => {
                    &&& r == Ok::<u64, ProtocolError>(id)
                    &&& !old(self)@.contains_key(id)
                    &&& final(self)@ == old(self)@.insert(id, waiter)
                    &&& final(self).next() == next_after(old(self).next(), id)
                },
                None => {
                    &&& r == Err::<u64, ProtocolError>(ProtocolError::NoRequestId)
                    &&& final(self)@ == old(self)@
                    &&& final(self).next() == old(self).next()
                },
            },
    {
        if self.exhausted {
            return Err(ProtocolError::NoRequestId);
        }
        let id = self.next_id;
        if id == u64::MAX {
            self.exhausted = true;
        } else {
            self.next_id = id + 1;
        }
        self.waiting.insert(id, waiter);
        Ok(id)
    }

    /// Lets `waiter` wait for the response to a request that got its id
    /// elsewhere. The id counts as given out, and so does every smaller one.
    /// Returns what waited for that request before, if anything did.
    pub fn register(&mut self, request_id: u64, waiter: W) -> (r: Option<W>)
        requires
            old(self).wf(),
        ensures
            final(self).wf(),
            final(self)@ == old(self)@.insert(request_id, waiter),
            final(self).next() == next_after(old(self).next(), request_id),
            match r {
                Some(before) => {
                    &&& old(self)@.contains_key(request_id)
                    &&& before == old(self)@[request_id]
                },
                None => !old(self)@.contains_key(request_id),
            },
    {
        if !self.exhausted && request_id >= self.next_id {
            if request_id == u64::MAX {
                self.exhausted = true;
            } else {
                self.next_id = request_id + 1;
            }
        }
        self.waiting.insert(request_id, waiter)
    }

    /// Takes out what waits for the response to the request `request_id`.
    /// A response to a request that does not wait is an error of the peer.
    pub fn complete(&mut self, request_id: u64) -> (r: Result<W, ProtocolError>)
        requires
            old(self).wf(),
        ensures
            final(self).wf(),
            final(self).next() == old(self).next(),
            match r {
                Ok(waiter) => {
                    &&& old(self)@.contains_key(request_id)
                    &&& waiter == old(self)@[request_id]
                    &&& final(self)@ == old(self)@.remove(request_id)
                },
                Err(e) => {
                    &&& e == ProtocolError::UnknownRequest(request_id)
                    &&& !old(self)@.contains_key(request_id)
                    &&& final(self)@ == old(self)@
                },
            },
    {
        match self.waiting.remove(&request_id) {
            Some(waiter) => {
                assert(self.waiting@ =~= old(self).waiting@.remove(request_id));
                Ok(waiter)
            },
            None => {
                assert(self.waiting@ =~= old(self).waiting@);
                Err(ProtocolError::UnknownRequest(request_id))
            },
        }
    }

    /// Gives up the request `request_id`: a response that still arrives for
    /// it finds nothing that waits. Returns what waited, if anything did.
    pub fn cancel(&mut self, request_id: u64) -> (r: Option<W>)
        requires
            old(self).wf(),
        ensures
            final(self).wf(),
            final(self).next() == old(self).next(),
            final(self)@ == old(self)@.remove(request_id),
            match r {
                Some(waiter) => {
                    &&& old(self)@.contains_key(request_id)
                    &&& waiter == old(self)@[request_id]
                },
                None => !old(self)@.contains_key(request_id),
            },
    {
        let found = self.waiting.remove(&request_id);
        assert(self.waiting@ =~= old(self).waiting@.remove(request_id));
        found
    }

    /// Hands a response to what waits for it: the frame that the codec
    /// decoded under `request_id` goes to the waiter of that request.
    pub fn dispatch<M>(&mut self, response: (u64, M)) -> (r: Result<(W, M), ProtocolError>)
        requires
            old(self).wf(),
        ensures
            final(self).wf(),
            final(self).next() == old(self).next(),
            match deliver(old(self)@, seq![response]) {
                Ok((delivered, left)) => {
                    &&& r matches Ok(pair) && pair == delivered[0]
                    &&& final(self)@ == left
                },
                Err(e) => r matches Err(x) && x == e && final(self)@ == old(self)@,
            },
    {
        let (request_id, message) = response;
        assert(seq![response].skip(1) =~= Seq::<(u64, M)>::empty());
        assert(deliver(old(self)@.remove(request_id), Seq::<(u64, M)>::empty()) == Ok::<
            (Seq<(W, M)>, Map<u64, W>),
            ProtocolError,
        >((Seq::empty(), old(self)@.remove(request_id))));
        match self.complete(request_id) {
            Ok(waiter) => Ok((waiter, message)),
            Err(e) => Err(e),
        }
    }
}

/// What becomes of the responses that arrive one after the other while the
/// requests `waiting` wait: each response goes, with what waited for it, out
/// of the table. The first response to a request that does not wait ends it.
pub open spec fn deliver<W, M>(waiting: Map<u64, W>, responses: Seq<(u64, M)>) -> Result<
    (Seq<(W, M)>, Map<u64, W>),
    ProtocolError,
>
    decreases responses.len(),
{
    if responses.len() == 0 {
        Ok((Seq::empty(), waiting))
    } else {
        let (id, message) = responses[0];
        if !waiting.contains_key(id) {
            Err(ProtocolError::UnknownRequest(id))
        } else {
            match deliver(waiting.remove(id), responses.skip(1)) {
                Err(e) => Err(e),
                Ok((rest, left)) => Ok((seq![(waiting[id], message)] + rest, left)),
            }
        }
    }
}

/// Whether no two of the responses answer the same request.
pub open spec fn distinct_ids<M>(responses: Seq<(u64, M)>) -> bool {
    forall|i: int, j: int|
        0 <= i < j < responses.len() ==> (#[trigger] responses[i]).0 != (
        #[trigger] responses[j]).0
}

/// Whether each of the responses answers a request that waits.
pub open spec fn all_waiting<W, M>(waiting: Map<u64, W>, responses: Seq<(u64, M)>) -> bool {
    forall|i: int| 0 <= i < responses.len() ==> waiting.contains_key((#[trigger] responses[i]).0)
}

/// Each caller receives the response to its own request: when the responses
/// to requests that wait arrive, one for each request at most and in
/// whatever order, every one of them is delivered, each to what waited for
/// the request of its id, and the requests that got no response still wait.
pub proof fn lemma_each_response_reaches_its_caller<W, M>(
    waiting: Map<u64, W>,
    responses: Seq<(u64, M)>,
)
    requires
        distinct_ids(responses),
        all_waiting(waiting, responses),
    ensures
        deliver(waiting, responses) matches Ok((delivered, left)) && {
            &&& delivered.len() == responses.len()
            &&& forall|i: int|
                0 <= i < responses.len() ==> #[trigger] delivered[i] == (
                    waiting[responses[i].0],
                    responses[i].1,
                )
            &&& forall|id: u64|
                left.contains_key(id) <==> waiting.contains_key(id) && forall|i: int|
                    0 <= i < responses.len() ==> (#[trigger] responses[i]).0 != id
            &&& forall|id: u64| left.contains_key(id) ==> left[id] == waiting[id]
        },
    decreases responses.len(),
{
    if responses.len() > 0 {
        let (id, message) = responses[0];
        let later = responses.skip(1);
        let others = waiting.remove(id);
        assert(waiting.contains_key(responses[0].0));
        assert forall|i: int, j: int| 0 <= i < j < later.len() implies (#[trigger] later[i]).0 != (
        #[trigger] later[j]).0 by {
            assert(later[i] == responses[i + 1] && later[j] == responses[j + 1]);
        }
        assert forall|i: int| 0 <= i < later.len() implies others.contains_key(
            (#[trigger] later[i]).0,
        ) by {
            assert(later[i] == responses[i + 1]);
            assert(responses[0].0 != responses[i + 1].0);
        }
        lemma_each_response_reaches_its_caller(others, later);
        let (rest, left) = deliver(others, later)->Ok_0;
        let delivered = seq![(waiting[id], message)] + rest;
        assert forall|i: int| 0 <= i < responses.len() implies #[trigger] delivered[i] == (
            waiting[responses[i].0],
            responses[i].1,
        ) by {
            if i > 0 {
                assert(delivered[i] == rest[i - 1]);
                assert(later[i - 1] == responses[i]);
                assert(responses[0].0 != responses[i].0);
            }
        }
        assert forall|k: u64|
            left.contains_key(k) <==> waiting.contains_key(k) && forall|i: int|
                0 <= i < responses.len() ==> (#[trigger] responses[i]).0 != k by {
            if left.contains_key(k) {
                assert forall|i: int| 0 <= i < responses.len() implies (
                #[trigger] responses[i]).0 != k by {
                    if i > 0 {
                        assert(later[i - 1] == responses[i]);
                    }
                }
            }
            if waiting.contains_key(k) && forall|i: int|
                0 <= i < responses.len() ==> (#[trigger] responses[i]).0 != k {
                assert(responses[0].0 != k);
                assert forall|i: int| 0 <= i < later.len() implies (#[trigger] later[i]).0
                    != k by {
                    assert(later[i] == responses[i + 1]);
                }
            }
        }
    }
}

} // verus!
