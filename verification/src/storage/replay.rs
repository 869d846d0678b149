//! The queue of replay requests shared by the disk replay workers, and the
//! per-request replay state that a worker advances one tick at a time.
use vstd::prelude::*;

verus! {

/// What a [`ReplayQueue`] holds: how many requests it admits at once, how many
/// admitted requests are in flight (queued or held by a worker), and the
/// queued requests in the order they will be served.
pub struct ReplayQueueView<T> {
    pub capacity: nat,
    pub len: nat,
    pub requests: Seq<T>,
}

impl<T> ReplayQueueView<T> {
    /// Hands out the next request to serve. A worker gives back the request it
    /// served last (`prev`); it goes to the back of the queue while anything is
    /// in flight, and is discarded otherwise.
    pub open spec fn pop_next(self, prev: Option<T>) -> (Self, Option<T>) {
        let queued = if self.len > 0 && prev is Some {
            self.requests.push(prev->0)
        } else {
            self.requests
        };
        if queued.len() > 0 {
            (ReplayQueueView { requests: queued.drop_first(), ..self }, Some(queued[0]))
        } else {
            (ReplayQueueView { requests: queued, ..self }, None)
        }
    }

    /// Admits `request` at the back of the queue if fewer than `capacity`
    /// requests are in flight; the flag says whether it was admitted.
    pub open spec fn push_new(self, request: T) -> (Self, bool) {
        if self.len < self.capacity {
            (
                ReplayQueueView { len: self.len + 1, requests: self.requests.push(request), ..self },
                true,
            )
        } else {
            (self, false)
        }
    }

    /// A worker is done with one request.
    pub open spec fn drop_req(self) -> Self {
        ReplayQueueView { len: (self.len - 1) as nat, ..self }
    }

    /// Closes the queue: nothing in flight, nothing queued, nothing admitted.
    pub open spec fn shutdown(self) -> Self {
        ReplayQueueView { capacity: 0, len: 0, requests: Seq::empty() }
    }
}

/// A bounded queue of replay requests served round-robin.
pub struct ReplayQueue<T> {
    capacity: usize,
    len: usize,
    requests: std::collections::VecDeque<T>,
}

impl<T> View for ReplayQueue<T> {
    type V = ReplayQueueView<T>;

    closed spec fn view(&self) -> ReplayQueueView<T> {
        ReplayQueueView {
            capacity: self.capacity as nat,
            len: self.len as nat,
            requests: self.requests@,
        }
    }
}

impl<T> ReplayQueue<T> {
    #[verifier::type_invariant]
    spec fn inv(&self) -> bool {
        self.len <= self.capacity
    }

    /// An empty queue that admits up to `capacity` requests at once.
    pub fn new(capacity: usize) -> (q: Self)
        ensures
            q@ == (ReplayQueueView::<T> { capacity: capacity as nat, len: 0, requests: Seq::empty() }),
    {
        ReplayQueue { capacity, len: 0, requests: std::collections::VecDeque::new() }
    }

    /// How many admitted requests are in flight.
    pub fn len(&self) -> (n: usize)
        ensures
            n == self@.len,
            self@.len <= self@.capacity,
    {
        proof {
            use_type_invariant(self);
        }
        self.len
    }

    /// Hands out the next request to serve, taking back `prev`, the request
    /// the caller served last (see [`ReplayQueueView::pop_next`]).
    pub fn pop_next(&mut self, prev: Option<T>) -> (r: Option<T>)
        ensures
            final(self)@ == old(self)@.pop_next(prev).0,
            r == old(self)@.pop_next(prev).1,
            final(self)@.len == old(self)@.len,
            final(self)@.capacity == old(self)@.capacity,
            final(self)@.len <= final(self)@.capacity,
    {
        proof {
            use_type_invariant(&*self);
        }
        let mut requests = std::collections::VecDeque::new();
        std::mem::swap(&mut requests, &mut self.requests);
        if self.len > 0 {
            if let Some(request) = prev {
                requests.push_back(request);
            }
        }
        let r = requests.pop_front();
        self.requests = requests;
        proof {
            let queued = if old(self)@.len > 0 && prev is Some {
                old(self)@.requests.push(prev->0)
            } else {
                old(self)@.requests
            };
            if queued.len() > 0 {
                assert(self.requests@ =~= queued.drop_first());
            }
        }
        r
    }

    /// Admits `request` if fewer than `capacity` requests are in flight, and
    /// refuses it otherwise (see [`ReplayQueueView::push_new`]).
    pub fn push_new(&mut self, request: T) -> (r: Result<(), ()>)
        ensures
            final(self)@ == old(self)@.push_new(request).0,
            r is Ok <==> old(self)@.push_new(request).1,
            r is Ok <==> old(self)@.len < old(self)@.capacity,
            r is Ok ==> final(self)@.len == old(self)@.len + 1 && final(self)@.requests
                == old(self)@.requests.push(request),
            r is Err ==> final(self)@ == old(self)@,
            final(self)@.capacity == old(self)@.capacity,
            final(self)@.len <= final(self)@.capacity,
    {
        proof {
            use_type_invariant(&*self);
        }
        if self.len < self.capacity {
            let mut requests = std::collections::VecDeque::new();
            std::mem::swap(&mut requests, &mut self.requests);
            requests.push_back(request);
            self.requests = requests;
            self.len = self.len + 1;
            Ok(())
        } else {
            Err(())
        }
    }

    /// Records that a worker is done with one request.
    pub fn drop_req(&mut self)
        requires
            old(self)@.len > 0,
        ensures
            final(self)@ == old(self)@.drop_req(),
            final(self)@.len + 1 == old(self)@.len,
            final(self)@.capacity == old(self)@.capacity,
            final(self)@.requests == old(self)@.requests,
            final(self)@.len <= final(self)@.capacity,
    {
        proof {
            use_type_invariant(&*self);
        }
        self.len = self.len - 1;
    }

    /// Closes the queue; queued requests are dropped.
    pub fn shutdown(&mut self)
        ensures
            final(self)@ == old(self)@.shutdown(),
    {
        self.len = 0;
        self.capacity = 0;
        self.requests = std::collections::VecDeque::new();
    }
}

/// Finishing one request lowers the in-flight count by exactly one and
/// changes nothing else.
pub proof fn lemma_drop_req_releases_one<T>(q: ReplayQueueView<T>)
    requires
        q.len > 0,
    ensures
        q.drop_req() == (ReplayQueueView { len: (q.len - 1) as nat, ..q }),
        q.drop_req().len + 1 == q.len,
        q.drop_req().capacity == q.capacity,
        q.drop_req().requests == q.requests,
{
}

/// A request is admitted exactly when fewer than `capacity` requests are in
/// flight; an admitted request is counted in flight and queued behind every
/// queued request, and a refused request leaves the queue unchanged.
pub proof fn lemma_push_new_admits_or_leaves<T>(q: ReplayQueueView<T>, request: T)
    ensures
        q.push_new(request).1 <==> q.len < q.capacity,
        q.push_new(request).1 ==> {
            let t = q.push_new(request).0;
            &&& t.len == q.len + 1
            &&& t.capacity == q.capacity
            &&& t.requests.len() == q.requests.len() + 1
            &&& t.requests.last() == request
            &&& t.requests.drop_last() == q.requests
        },
        !q.push_new(request).1 ==> q.push_new(request).0 == q,
{
    if q.len < q.capacity {
        assert(q.requests.push(request).drop_last() =~= q.requests);
    }
}

/// Handing out and taking back requests keeps the in-flight count and the
/// capacity. A request is handed out exactly when one is queued or one is
/// given back while something is in flight; it is the oldest of those, and
/// the others stay queued in order. A request given back while nothing is in
/// flight is discarded.
pub proof fn lemma_pop_next_moves_requests_only<T>(q: ReplayQueueView<T>, prev: Option<T>)
    ensures
        ({
            let (t, served) = q.pop_next(prev);
            let waiting = if q.len > 0 && prev is Some {
                q.requests.push(prev->0)
            } else {
                q.requests
            };
            &&& t.len == q.len
            &&& t.capacity == q.capacity
            &&& (served is Some <==> waiting.len() > 0)
            &&& served matches Some(x) ==> seq![x] + t.requests == waiting
            &&& served is None ==> t.requests.len() == 0 && q.requests.len() == 0
            &&& q.len == 0 ==> t.requests.len() + (if served is Some {
                1int
            } else {
                0
            }) == q.requests.len()
        }),
{
    let waiting = if q.len > 0 && prev is Some {
        q.requests.push(prev->0)
    } else {
        q.requests
    };
    if waiting.len() > 0 {
        assert(seq![waiting[0]] + waiting.drop_first() =~= waiting);
    }
}

/// Closing the queue empties it and leaves nothing in flight and no room.
pub proof fn lemma_shutdown_empties<T>(q: ReplayQueueView<T>)
    ensures
        q.shutdown().capacity == 0,
        q.shutdown().len == 0,
        q.shutdown().requests.len() == 0,
{
}

/// No operation lets more requests be in flight than the queue admits.
pub proof fn lemma_in_flight_within_capacity<T>(q: ReplayQueueView<T>, prev: Option<T>, request: T)
    requires
        q.len <= q.capacity,
    ensures
        q.pop_next(prev).0.len <= q.pop_next(prev).0.capacity,
        q.push_new(request).0.len <= q.push_new(request).0.capacity,
        q.len > 0 ==> q.drop_req().len <= q.drop_req().capacity,
        q.shutdown().len <= q.shutdown().capacity,
{
}

/// A request is refused exactly when the queue is full, and a full queue
/// admits a request again once a worker is done with one.
pub proof fn lemma_full_until_dropped<T>(q: ReplayQueueView<T>, request: T)
    requires
        q.len <= q.capacity,
    ensures
        !q.push_new(request).1 <==> q.len == q.capacity,
        q.len == q.capacity && q.len > 0 ==> q.drop_req().push_new(request).1,
{
}

/// Requests admitted into an idle queue are served in the order they were
/// admitted.
pub proof fn lemma_served_in_admission_order<T>(q: ReplayQueueView<T>, a: T, b: T)
    requires
        q.requests.len() == 0,
        q.len + 2 <= q.capacity,
    ensures
        ({
            let (q1, ok1) = q.push_new(a);
            let (q2, ok2) = q1.push_new(b);
            let (q3, first) = q2.pop_next(None);
            let (q4, second) = q3.pop_next(None);
            &&& ok1 && ok2
            &&& first == Some(a)
            &&& second == Some(b)
            &&& q4.requests.len() == 0
        }),
{
    let q1 = q.push_new(a).0;
    let q2 = q1.push_new(b).0;
    assert(q2.requests =~= seq![a, b]);
    assert(q2.pop_next(None).0.requests =~= seq![b]);
}

/// Requests are served round-robin: a worker that gives back the request it
/// served gets the one at the front of the queue, and the request it gave back
/// waits behind every other queued request; alone in the queue, it comes
/// straight back.
pub proof fn lemma_round_robin<T>(q: ReplayQueueView<T>, prev: T)
    requires
        q.len > 0,
    ensures
        q.requests.len() > 0 ==> {
            &&& q.pop_next(Some(prev)).1 == Some(q.requests[0])
            &&& q.pop_next(Some(prev)).0.requests == q.requests.drop_first().push(prev)
        },
        q.requests.len() == 0 ==> q.pop_next(Some(prev)) == (q, Some(prev)),
{
    if q.requests.len() > 0 {
        assert(q.requests.push(prev).drop_first() =~= q.requests.drop_first().push(prev));
    } else {
        assert(q.requests.push(prev).drop_first() =~= q.requests);
    }
}

/// A closed queue stays closed: it refuses every request, hands out none, and
/// discards what workers give back.
pub proof fn lemma_closed_queue<T>(q: ReplayQueueView<T>, prev: Option<T>, request: T)
    ensures
        ({
            let c = q.shutdown();
            &&& c.push_new(request) == (c, false)
            &&& c.pop_next(prev) == (c, None::<T>)
        }),
{
    let c = q.shutdown();
    assert(c.pop_next(prev).0.requests =~= c.requests);
}

/// What a client is told when its replay is not admitted.
pub open spec fn queue_full_message() -> Seq<char> {
    "replay queue is full; try again later"@
}

/// Admits a replay `request`, or refuses it with a message for the client when
/// the queue is full.
pub fn admit_replay<T>(queue: &mut ReplayQueue<T>, request: T) -> (r: Result<(), &'static str>)
    ensures
        final(queue)@ == old(queue)@.push_new(request).0,
        r is Ok <==> old(queue)@.push_new(request).1,
        r matches Err(message) ==> message@ == queue_full_message(),
{
    match queue.push_new(request) {
        Ok(()) => Ok(()),
        Err(()) => Err("replay queue is full; try again later"),
    }
}

} // verus!
