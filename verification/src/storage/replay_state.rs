//! The decisions a disk replay worker makes for one request on each tick:
//! whether to serve it at all, which decoded messages to hand to the filter,
//! where the client stands afterwards, when to decode more from disk and when
//! the replay has caught up with the in-memory channel.
//!
//! The worker itself (locking the client, filtering, pushing to the client,
//! reading segments) performs the actions and reports what happened.
use vstd::prelude::*;

verus! {

/// What a [`ReplayState`] holds: the storage index the replay has delivered up
/// to, the decoded messages not yet delivered (with their storage index), an
/// error met while reading that the client has not been told of, and whether
/// the reader has reached the end of what storage holds.
pub struct ReplayStateView<M, E> {
    pub head: Option<u64>,
    pub messages: Seq<(u64, M)>,
    pub read_error: Option<E>,
    pub read_finished: bool,
}

/// How a tick on a request starts.
#[derive(Debug)]
pub enum ReplayStart<E> {
    /// The client is gone, or no longer reads from storage: drop the request.
    Abandon,
    /// Reading failed earlier: hand this error to the client and drop the
    /// request.
    Fail(E),
    /// Deliver from this storage index on.
    Resume(u64),
}

/// How a tick on a request ends, once delivery is done.
#[derive(Debug, Clone, Copy, PartialEq, Eq)]
pub enum ReplaySettle {
    /// Everything in storage was delivered: move the client to the in-memory
    /// channel at this replay index, and drop the request.
    Connect(u64),
    /// Decode more messages from storage, from this index on, then requeue.
    Read(u64),
    /// Requeue the request as it is.
    Requeue,
}

/// One step of decoding from storage, as the reader reports it.
#[derive(Debug)]
pub enum ReadEvent<M, E> {
    /// A message was decoded, with its storage index.
    Record(u64, M),
    /// Reading or decoding failed.
    Failed(E),
    /// A chunk of storage was read to its end.
    ChunkEnd,
}

impl<M, E> ReplayStateView<M, E> {
    /// A replay that has delivered nothing yet.
    pub open spec fn initial() -> Self {
        ReplayStateView { head: None, messages: Seq::empty(), read_error: None, read_finished: false }
    }

    /// Starts a tick. The client's state says whether it is finished and, when
    /// it reads from storage, at which index (`storage_head`). On the first
    /// tick the replay takes the client's index; if the client has moved away
    /// from the replay's index since, the decoded messages are discarded.
    pub open spec fn begin(self, client_finished: bool, storage_head: Option<u64>) -> (
        Self,
        ReplayStart<E>,
    ) {
        if client_finished {
            (self, ReplayStart::Abandon)
        } else if self.read_error is Some {
            (ReplayStateView { read_error: None, ..self }, ReplayStart::Fail(self.read_error->0))
        } else {
            match storage_head {
                None => (self, ReplayStart::Abandon),
                Some(h) => {
                    let cur = match self.head {
                        Some(x) => x,
                        None => h,
                    };
                    let messages = if cur != h {
                        Seq::empty()
                    } else {
                        self.messages
                    };
                    (
                        ReplayStateView { head: Some(cur), messages, ..self },
                        ReplayStart::Resume(cur),
                    )
                },
            }
        }
    }

    /// The next message to hand to the filter, while the client's queue
    /// (`queued_bytes`) is within `queued_bytes_max`; the replay's head moves
    /// to the index of the message handed out.
    pub open spec fn next_message(self, queued_bytes: usize, queued_bytes_max: usize) -> (
        Self,
        Option<(u64, M)>,
    ) {
        if queued_bytes <= queued_bytes_max && self.messages.len() > 0 {
            (
                ReplayStateView {
                    head: Some(self.messages[0].0),
                    messages: self.messages.drop_first(),
                    ..self
                },
                Some(self.messages[0]),
            )
        } else {
            (self, None)
        }
    }

    /// Hands out messages while the client's queue allows, one call of
    /// [`Self::next_message`] for each of `queued` (the size of the client's
    /// queue before that call, as the filter grows it); gives the state after
    /// the pass and the messages delivered, in order.
    pub open spec fn deliver(self, queued: Seq<usize>, queued_bytes_max: usize) -> (
        Self,
        Seq<(u64, M)>,
    )
        decreases queued.len(),
    {
        if queued.len() == 0 {
            (self, Seq::empty())
        } else {
            let (before, delivered) = self.deliver(queued.drop_last(), queued_bytes_max);
            let (after, out) = before.next_message(queued.last(), queued_bytes_max);
            match out {
                Some(message) => (after, delivered.push(message)),
                None => (after, delivered),
            }
        }
    }

    /// Whether settling moves on to the storage index after the head.
    pub open spec fn settle_advances(self, decode_per_tick: usize) -> bool {
        (self.read_finished && self.messages.len() == 0) || (!self.read_finished
            && self.messages.len() < decode_per_tick)
    }

    /// Decides, once delivery is done for this tick, what comes next; the
    /// client then stands at the replay's head, the index of the last message
    /// delivered (or where the tick resumed).
    pub open spec fn settle(self, decode_per_tick: usize) -> ReplaySettle {
        let next = (self.head->0 + 1) as u64;
        if self.read_finished && self.messages.len() == 0 {
            ReplaySettle::Connect(next)
        } else if !self.read_finished && self.messages.len() < decode_per_tick {
            ReplaySettle::Read(next)
        } else {
            ReplaySettle::Requeue
        }
    }

    /// Keeps `error` for the client.
    pub open spec fn record_error(self, error: E) -> Self {
        ReplayStateView { read_error: Some(error), ..self }
    }

    /// Takes in one step of decoding, `decoded` messages into this tick's
    /// budget of `decode_per_tick`; gives the new count and whether to keep
    /// reading. Reading stops at an error, and at the end of a chunk once the
    /// budget is spent.
    pub open spec fn absorb(self, decoded: usize, decode_per_tick: usize, event: ReadEvent<M, E>) -> (
        Self,
        usize,
        bool,
    ) {
        match event {
            ReadEvent::Record(index, message) => (
                ReplayStateView { messages: self.messages.push((index, message)), ..self },
                (decoded + 1) as usize,
                true,
            ),
            ReadEvent::Failed(error) => (self.record_error(error), decoded, false),
            ReadEvent::ChunkEnd => (self, decoded, decoded < decode_per_tick),
        }
    }

    /// Ends reading for this tick: when storage ran out before the budget was
    /// spent, and without error, the reader has reached the end.
    pub open spec fn finish_read(self, decoded: usize, decode_per_tick: usize) -> Self {
        if decoded < decode_per_tick && self.read_error is None {
            ReplayStateView { read_finished: true, ..self }
        } else {
            self
        }
    }
}

/// The progress of replaying storage to one client.
pub struct ReplayState<M, E> {
    head: Option<u64>,
    messages: std::collections::VecDeque<(u64, M)>,
    read_error: Option<E>,
    read_finished: bool,
}

impl<M, E> View for ReplayState<M, E> {
    type V = ReplayStateView<M, E>;

    closed spec fn view(&self) -> ReplayStateView<M, E> {
        ReplayStateView {
            head: self.head,
            messages: self.messages@,
            read_error: self.read_error,
            read_finished: self.read_finished,
        }
    }
}

impl<M, E> Default for ReplayState<M, E> {
    /// A replay that has delivered nothing yet.
    fn default() -> (s: Self)
        ensures
            s@ == ReplayStateView::<M, E>::initial(),
    {
        ReplayState::new()
    }
}

impl<M, E> ReplayState<M, E> {
    /// A replay that has delivered nothing yet.
    pub fn new() -> (s: Self)
        ensures
            s@ == ReplayStateView::<M, E>::initial(),
    {
        ReplayState {
            head: None,
            messages: std::collections::VecDeque::new(),
            read_error: None,
            read_finished: false,
        }
    }

    /// The storage index the replay has delivered up to.
    pub fn head(&self) -> (h: Option<u64>)
        ensures
            h == self@.head,
    {
        self.head
    }

    /// How many decoded messages wait for delivery.
    pub fn pending(&self) -> (n: usize)
        ensures
            n == self@.messages.len(),
    {
        self.messages.len()
    }

    /// Whether the reader has reached the end of what storage holds.
    pub fn read_finished(&self) -> (b: bool)
        ensures
            b == self@.read_finished,
    {
        self.read_finished
    }

    /// Starts a tick (see [`ReplayStateView::begin`]).
    pub fn begin(&mut self, client_finished: bool, storage_head: Option<u64>) -> (r: ReplayStart<E>)
        ensures
            final(self)@ == old(self)@.begin(client_finished, storage_head).0,
            r == old(self)@.begin(client_finished, storage_head).1,
    {
        if client_finished {
            return ReplayStart::Abandon;
        }
        if let Some(error) = self.read_error.take() {
            return ReplayStart::Fail(error);
        }
        let head = match storage_head {
            Some(h) => h,
            None => {
                return ReplayStart::Abandon;
            },
        };
        let current = match self.head {
            Some(x) => x,
            None => head,
        };
        self.head = Some(current);
        if current != head {
            self.messages.clear();
        }
        ReplayStart::Resume(current)
    }

    /// The next message to hand to the filter (see
    /// [`ReplayStateView::next_message`]).
    pub fn next_message(&mut self, queued_bytes: usize, queued_bytes_max: usize) -> (r: Option<
        (u64, M),
    >)
        ensures
            final(self)@ == old(self)@.next_message(queued_bytes, queued_bytes_max).0,
            r == old(self)@.next_message(queued_bytes, queued_bytes_max).1,
    {
        if queued_bytes <= queued_bytes_max {
            let r = self.messages.pop_front();
            if let Some((index, _)) = &r {
                self.head = Some(*index);
            }
            proof {
                if old(self)@.messages.len() > 0 {
                    assert(self.messages@ =~= old(self)@.messages.drop_first());
                }
            }
            r
        } else {
            None
        }
    }

    /// Decides what comes next once delivery is done for this tick (see
    /// [`ReplayStateView::settle`]). A tick that resumed has a head.
    pub fn settle(&self, decode_per_tick: usize) -> (r: ReplaySettle)
        requires
            self@.head is Some,
            self@.settle_advances(decode_per_tick) ==> self@.head->0 < u64::MAX,
        ensures
            r == self@.settle(decode_per_tick),
    {
        let current_head = match self.head {
            Some(h) => h,
            None => 0,
        };
        if self.read_finished && self.messages.len() == 0 {
            ReplaySettle::Connect(current_head + 1)
        } else if !self.read_finished && self.messages.len() < decode_per_tick {
            ReplaySettle::Read(current_head + 1)
        } else {
            ReplaySettle::Requeue
        }
    }

    /// Keeps `error` for the client.
    pub fn record_error(&mut self, error: E)
        ensures
            final(self)@ == old(self)@.record_error(error),
    {
        self.read_error = Some(error);
    }

    /// Takes in one step of decoding (see [`ReplayStateView::absorb`]).
    pub fn absorb(&mut self, decoded: usize, decode_per_tick: usize, event: ReadEvent<M, E>) -> (r: (
        usize,
        bool,
    ))
        requires
            event is Record ==> decoded < usize::MAX,
        ensures
            final(self)@ == old(self)@.absorb(decoded, decode_per_tick, event).0,
            r.0 == old(self)@.absorb(decoded, decode_per_tick, event).1,
            r.1 == old(self)@.absorb(decoded, decode_per_tick, event).2,
    {
        match event {
            ReadEvent::Record(index, message) => {
                self.messages.push_back((index, message));
                (decoded + 1, true)
            },
            ReadEvent::Failed(error) => {
                self.read_error = Some(error);
                (decoded, false)
            },
            ReadEvent::ChunkEnd => (decoded, decoded < decode_per_tick),
        }
    }

    /// Ends reading for this tick (see [`ReplayStateView::finish_read`]).
    pub fn finish_read(&mut self, decoded: usize, decode_per_tick: usize)
        ensures
            final(self)@ == old(self)@.finish_read(decoded, decode_per_tick),
    {
        if decoded < decode_per_tick && self.read_error.is_none() {
            self.read_finished = true;
        }
    }
}

/// How a tick starts. A finished client, or one that does not read from
/// storage, is abandoned with the replay untouched (an error pending for a
/// client that still reads is reported first, and only then forgotten).
/// Otherwise the tick resumes at the replay's own head, or at the client's
/// index on the first tick, and the decoded messages survive only when the
/// client stands where the replay does.
pub proof fn lemma_begin_decides<M, E>(
    s: ReplayStateView<M, E>,
    client_finished: bool,
    storage_head: Option<u64>,
)
    ensures
        client_finished ==> s.begin(client_finished, storage_head) == (s, ReplayStart::<E>::Abandon),
        !client_finished && s.read_error is Some ==> {
            let (t, start) = s.begin(client_finished, storage_head);
            &&& start == ReplayStart::<E>::Fail(s.read_error->0)
            &&& t.read_error is None
            &&& t.head == s.head
            &&& t.messages == s.messages
            &&& t.read_finished == s.read_finished
        },
        !client_finished && s.read_error is None && storage_head is None ==> s.begin(
            client_finished,
            storage_head,
        ) == (s, ReplayStart::<E>::Abandon),
        !client_finished && s.read_error is None && storage_head is Some ==> {
            let h = storage_head->0;
            let (t, start) = s.begin(client_finished, storage_head);
            let cur = if s.head is Some {
                s.head->0
            } else {
                h
            };
            &&& start == ReplayStart::<E>::Resume(cur)
            &&& t.head == Some(cur)
            &&& t.messages == (if cur == h {
                s.messages
            } else {
                Seq::<(u64, M)>::empty()
            })
            &&& t.read_error is None
            &&& t.read_finished == s.read_finished
        },
{
}

/// A message is handed out exactly when the client's queue is within budget
/// and a decoded message waits; it is the oldest one, it leaves the waiting
/// messages, and the head moves to its index. Otherwise nothing changes.
pub proof fn lemma_next_message_hands_out_oldest<M, E>(
    s: ReplayStateView<M, E>,
    queued_bytes: usize,
    queued_bytes_max: usize,
)
    ensures
        ({
            let (t, out) = s.next_message(queued_bytes, queued_bytes_max);
            &&& (out is Some <==> (queued_bytes <= queued_bytes_max && s.messages.len() > 0))
            &&& out matches Some(m) ==> {
                &&& seq![m] + t.messages == s.messages
                &&& t.head == Some(m.0)
                &&& t.read_error == s.read_error
                &&& t.read_finished == s.read_finished
            }
            &&& out is None ==> t == s
        }),
{
    if queued_bytes <= queued_bytes_max && s.messages.len() > 0 {
        assert(seq![s.messages[0]] + s.messages.drop_first() =~= s.messages);
    }
}

/// What comes after delivery: the client moves to memory when the reader is
/// done and nothing waits, more is decoded when the reader is not done and
/// fewer than a tick's budget wait, and otherwise the request waits its turn;
/// moving and decoding both go on right after the head.
pub proof fn lemma_settle_decides<M, E>(s: ReplayStateView<M, E>, decode_per_tick: usize)
    requires
        s.head is Some,
        s.head->0 < u64::MAX,
    ensures
        s.settle(decode_per_tick) == (if s.read_finished && s.messages.len() == 0 {
            ReplaySettle::Connect((s.head->0 + 1) as u64)
        } else if !s.read_finished && s.messages.len() < decode_per_tick {
            ReplaySettle::Read((s.head->0 + 1) as u64)
        } else {
            ReplaySettle::Requeue
        }),
        s.settle(decode_per_tick) matches ReplaySettle::Read(next) ==> next == s.head->0 + 1,
{
}

/// Decoding a record queues it behind the waiting messages and counts it;
/// a failure keeps the error for the client and stops reading; the end of a
/// chunk stops reading once the budget is spent. Nothing else changes.
pub proof fn lemma_absorb_steps<M, E>(
    s: ReplayStateView<M, E>,
    decoded: usize,
    decode_per_tick: usize,
    event: ReadEvent<M, E>,
)
    requires
        event is Record ==> decoded < usize::MAX,
    ensures
        ({
            let (t, count, more) = s.absorb(decoded, decode_per_tick, event);
            &&& t.head == s.head
            &&& t.read_finished == s.read_finished
            &&& match event {
                ReadEvent::Record(index, message) => {
                    &&& t.messages == s.messages.push((index, message))
                    &&& t.read_error == s.read_error
                    &&& count == decoded + 1
                    &&& more
                },
                ReadEvent::Failed(error) => {
                    &&& t.messages == s.messages
                    &&& t.read_error == Some(error)
                    &&& count == decoded
                    &&& !more
                },
                ReadEvent::ChunkEnd => {
                    &&& t == s
                    &&& count == decoded
                    &&& more == (decoded < decode_per_tick)
                },
            }
        }),
{
}

/// Keeping an error touches nothing else.
pub proof fn lemma_record_error_keeps_rest<M, E>(s: ReplayStateView<M, E>, error: E)
    ensures
        s.record_error(error).read_error == Some(error),
        s.record_error(error).head == s.head,
        s.record_error(error).messages == s.messages,
        s.record_error(error).read_finished == s.read_finished,
{
}

/// Reading ends for good when storage ran out before the budget was spent
/// and nothing failed; nothing else changes.
pub proof fn lemma_finish_read_marks_end<M, E>(
    s: ReplayStateView<M, E>,
    decoded: usize,
    decode_per_tick: usize,
)
    ensures
        s.finish_read(decoded, decode_per_tick).read_finished == (s.read_finished || (decoded
            < decode_per_tick && s.read_error is None)),
        s.finish_read(decoded, decode_per_tick).head == s.head,
        s.finish_read(decoded, decode_per_tick).messages == s.messages,
        s.finish_read(decoded, decode_per_tick).read_error == s.read_error,
{
}

/// Once the reader has reached the end of storage it stays there: no step
/// of a tick makes a replay read again.
pub proof fn lemma_read_finished_is_kept<M, E>(
    s: ReplayStateView<M, E>,
    client_finished: bool,
    storage_head: Option<u64>,
    queued_bytes: usize,
    queued_bytes_max: usize,
    decoded: usize,
    decode_per_tick: usize,
    event: ReadEvent<M, E>,
    error: E,
)
    requires
        s.read_finished,
    ensures
        s.begin(client_finished, storage_head).0.read_finished,
        s.next_message(queued_bytes, queued_bytes_max).0.read_finished,
        !(s.settle(decode_per_tick) is Read),
        s.record_error(error).read_finished,
        s.absorb(decoded, decode_per_tick, event).0.read_finished,
        s.finish_read(decoded, decode_per_tick).read_finished,
{
}

/// A client is moved to the in-memory channel only when the reader has
/// reached the end of storage and every decoded message was delivered, and
/// it is moved to the index right after the replay's head.
pub proof fn lemma_connect_only_when_drained<M, E>(s: ReplayStateView<M, E>, decode_per_tick: usize)
    requires
        s.head is Some,
        s.head->0 < u64::MAX,
    ensures
        s.settle(decode_per_tick) is Connect <==> (s.read_finished && s.messages.len() == 0),
        s.settle(decode_per_tick) matches ReplaySettle::Connect(next) ==> next == s.head->0 + 1,
{
}

/// A pass of delivery hands out a prefix of the decoded messages, in the
/// order they were decoded, and leaves the replay's head at the index of the
/// last message delivered, or where it stood when nothing was delivered.
pub proof fn lemma_pass_leaves_head_at_last_delivered<M, E>(
    s: ReplayStateView<M, E>,
    queued: Seq<usize>,
    queued_bytes_max: usize,
)
    ensures
        ({
            let (t, delivered) = s.deliver(queued, queued_bytes_max);
            &&& delivered.len() <= s.messages.len()
            &&& delivered == s.messages.take(delivered.len() as int)
            &&& t.messages == s.messages.skip(delivered.len() as int)
            &&& t.head == (if delivered.len() > 0 {
                Some(delivered.last().0)
            } else {
                s.head
            })
            &&& t.read_error == s.read_error
            &&& t.read_finished == s.read_finished
        }),
    decreases queued.len(),
{
    if queued.len() > 0 {
        lemma_pass_leaves_head_at_last_delivered(s, queued.drop_last(), queued_bytes_max);
        let (before, delivered) = s.deliver(queued.drop_last(), queued_bytes_max);
        let n = delivered.len() as int;
        if queued.last() <= queued_bytes_max && before.messages.len() > 0 {
            assert(before.messages[0] == s.messages[n]);
            assert(delivered.push(s.messages[n]) =~= s.messages.take(n + 1));
            assert(before.messages.drop_first() =~= s.messages.skip(n + 1));
        }
    } else {
        assert(s.messages.take(0) =~= Seq::<(u64, M)>::empty());
        assert(s.messages.skip(0) =~= s.messages);
    }
}

/// Decoded messages reach the filter in the order they were decoded.
pub proof fn lemma_delivered_in_decoding_order<M, E>(
    s: ReplayStateView<M, E>,
    first: (u64, M),
    second: (u64, M),
    decoded: usize,
    decode_per_tick: usize,
    queued_bytes: usize,
    queued_bytes_max: usize,
)
    requires
        s.messages.len() == 0,
        decoded + 2 <= usize::MAX,
        queued_bytes <= queued_bytes_max,
    ensures
        ({
            let (s1, d1, _) = s.absorb(decoded, decode_per_tick, ReadEvent::Record(first.0, first.1));
            let (s2, d2, _) = s1.absorb(d1, decode_per_tick, ReadEvent::Record(second.0, second.1));
            let (s3, out1) = s2.next_message(queued_bytes, queued_bytes_max);
            let (s4, out2) = s3.next_message(queued_bytes, queued_bytes_max);
            &&& d2 == decoded + 2
            &&& out1 == Some(first)
            &&& out2 == Some(second)
            &&& s4.messages.len() == 0
            &&& s4.head == Some(second.0)
        }),
{
    let s1 = s.absorb(decoded, decode_per_tick, ReadEvent::Record(first.0, first.1)).0;
    let d1 = s.absorb(decoded, decode_per_tick, ReadEvent::Record(first.0, first.1)).1;
    let s2 = s1.absorb(d1, decode_per_tick, ReadEvent::Record(second.0, second.1)).0;
    assert(s2.messages =~= seq![first, second]);
    assert(s2.messages.drop_first() =~= seq![second]);
}

/// An error met while reading is handed to the client once: the tick that
/// reports it leaves no error behind, so the next tick does not report it
/// again.
pub proof fn lemma_error_reported_once<M, E>(
    s: ReplayStateView<M, E>,
    storage_head: Option<u64>,
)
    requires
        s.read_error is Some,
    ensures
        s.begin(false, storage_head).1 == ReplayStart::<E>::Fail(s.read_error->0),
        s.begin(false, storage_head).0.read_error is None,
        !(s.begin(false, storage_head).0.begin(false, storage_head).1 is Fail),
{
}

/// A replay resumes where it left off: when the client still reads from
/// storage at the replay's head, the next tick resumes there with every
/// decoded message kept.
pub proof fn lemma_resumes_where_it_left_off<M, E>(s: ReplayStateView<M, E>, head: u64)
    requires
        s.read_error is None,
        s.head == Some(head),
    ensures
        s.begin(false, Some(head)) == (s, ReplayStart::<E>::Resume(head)),
{
}

/// A replay whose client has moved elsewhere in storage resumes at its own
/// index, with its decoded messages discarded.
pub proof fn lemma_moved_client_discards<M, E>(
    s: ReplayStateView<M, E>,
    replay_head: u64,
    client_head: u64,
)
    requires
        s.read_error is None,
        s.head == Some(replay_head),
        replay_head != client_head,
    ensures
        s.begin(false, Some(client_head)).1 == ReplayStart::<E>::Resume(replay_head),
        s.begin(false, Some(client_head)).0.messages.len() == 0,
{
}

} // verus!
