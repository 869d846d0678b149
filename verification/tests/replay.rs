use richat_storage::storage::replay::{admit_replay, ReplayQueue};
use richat_storage::storage::replay_state::{ReadEvent, ReplaySettle, ReplayStart, ReplayState};

#[test]
fn queue_admits_up_to_capacity() {
    let mut q: ReplayQueue<u32> = ReplayQueue::new(2);
    assert_eq!(q.push_new(1), Ok(()));
    assert_eq!(q.push_new(2), Ok(()));
    assert_eq!(q.push_new(3), Err(()));
    assert_eq!(q.len(), 2);
}

#[test]
fn queue_of_zero_capacity_refuses() {
    let mut q: ReplayQueue<u32> = ReplayQueue::new(0);
    assert_eq!(q.push_new(1), Err(()));
    assert_eq!(q.pop_next(None), None);
}

#[test]
fn queue_serves_in_admission_order() {
    let mut q = ReplayQueue::new(8);
    q.push_new("a").unwrap();
    q.push_new("b").unwrap();
    q.push_new("c").unwrap();
    assert_eq!(q.pop_next(None), Some("a"));
    assert_eq!(q.pop_next(None), Some("b"));
    assert_eq!(q.pop_next(None), Some("c"));
    assert_eq!(q.pop_next(None), None);
    assert_eq!(q.len(), 3);
}

#[test]
fn queue_is_round_robin() {
    let mut q = ReplayQueue::new(4);
    q.push_new(1).unwrap();
    q.push_new(2).unwrap();
    let first = q.pop_next(None);
    assert_eq!(first, Some(1));
    let second = q.pop_next(first);
    assert_eq!(second, Some(2));
    let third = q.pop_next(second);
    assert_eq!(third, Some(1));
    let fourth = q.pop_next(third);
    assert_eq!(fourth, Some(2));
}

#[test]
fn queue_gives_back_a_lone_request() {
    let mut q = ReplayQueue::new(1);
    q.push_new(9).unwrap();
    let r = q.pop_next(None);
    assert_eq!(q.pop_next(r), Some(9));
}

#[test]
fn queue_discards_prev_when_nothing_in_flight() {
    let mut q = ReplayQueue::new(1);
    q.push_new(5).unwrap();
    let r = q.pop_next(None);
    q.drop_req();
    assert_eq!(q.len(), 0);
    assert_eq!(q.pop_next(r), None);
}

#[test]
fn dropping_a_request_frees_a_slot() {
    let mut q = ReplayQueue::new(1);
    q.push_new(1).unwrap();
    assert_eq!(q.push_new(2), Err(()));
    let _served = q.pop_next(None);
    assert_eq!(q.push_new(2), Err(()));
    q.drop_req();
    assert_eq!(q.push_new(2), Ok(()));
    assert_eq!(q.pop_next(None), Some(2));
}

#[test]
fn closed_queue_stays_closed() {
    let mut q = ReplayQueue::new(3);
    q.push_new(1).unwrap();
    q.push_new(2).unwrap();
    q.shutdown();
    assert_eq!(q.len(), 0);
    assert_eq!(q.pop_next(Some(7)), None);
    assert_eq!(q.push_new(3), Err(()));
    assert_eq!(q.pop_next(None), None);
}

#[test]
fn admit_replay_reports_full_queue() {
    let mut q = ReplayQueue::new(1);
    assert_eq!(admit_replay(&mut q, 1), Ok(()));
    assert_eq!(admit_replay(&mut q, 2), Err("replay queue is full; try again later"));
    assert_eq!(q.len(), 1);
}

#[test]
fn state_starts_empty() {
    let s: ReplayState<&str, String> = ReplayState::new();
    assert_eq!(s.head(), None);
    assert_eq!(s.pending(), 0);
    assert!(!s.read_finished());
    let d: ReplayState<&str, String> = ReplayState::default();
    assert_eq!(d.head(), None);
}

#[test]
fn begin_abandons_finished_client() {
    let mut s: ReplayState<&str, &str> = ReplayState::new();
    s.record_error("boom");
    assert!(matches!(s.begin(true, Some(3)), ReplayStart::Abandon));
    // the error is still there for a later tick
    assert!(matches!(s.begin(false, Some(3)), ReplayStart::Fail("boom")));
}

#[test]
fn begin_reports_error_once() {
    let mut s: ReplayState<&str, &str> = ReplayState::new();
    s.record_error("bad chunk");
    assert!(matches!(s.begin(false, Some(1)), ReplayStart::Fail("bad chunk")));
    assert!(matches!(s.begin(false, Some(1)), ReplayStart::Resume(1)));
}

#[test]
fn begin_abandons_client_in_memory() {
    let mut s: ReplayState<&str, &str> = ReplayState::new();
    assert!(matches!(s.begin(false, None), ReplayStart::Abandon));
    assert_eq!(s.head(), None);
}

#[test]
fn begin_takes_client_head_first() {
    let mut s: ReplayState<&str, &str> = ReplayState::new();
    assert!(matches!(s.begin(false, Some(40)), ReplayStart::Resume(40)));
    assert_eq!(s.head(), Some(40));
}

#[test]
fn begin_discards_messages_when_client_moved() {
    let mut s: ReplayState<&str, &str> = ReplayState::new();
    assert!(matches!(s.begin(false, Some(10)), ReplayStart::Resume(10)));
    s.absorb(0, 4, ReadEvent::Record(11, "m11"));
    assert_eq!(s.pending(), 1);
    assert!(matches!(s.begin(false, Some(20)), ReplayStart::Resume(10)));
    assert_eq!(s.pending(), 0);
    assert_eq!(s.head(), Some(10));
}

#[test]
fn begin_keeps_messages_when_client_in_place() {
    let mut s: ReplayState<&str, &str> = ReplayState::new();
    s.begin(false, Some(10));
    s.absorb(0, 4, ReadEvent::Record(11, "m11"));
    assert!(matches!(s.begin(false, Some(10)), ReplayStart::Resume(10)));
    assert_eq!(s.pending(), 1);
}

#[test]
fn next_message_respects_budget() {
    let mut s: ReplayState<&str, &str> = ReplayState::new();
    s.absorb(0, 4, ReadEvent::Record(1, "a"));
    s.absorb(1, 4, ReadEvent::Record(2, "b"));
    assert_eq!(s.next_message(101, 100), None);
    assert_eq!(s.pending(), 2);
    assert_eq!(s.next_message(100, 100), Some((1, "a")));
    assert_eq!(s.next_message(0, 100), Some((2, "b")));
    assert_eq!(s.next_message(0, 100), None);
}

#[test]
fn settle_connects_when_drained() {
    let mut s: ReplayState<&str, &str> = ReplayState::new();
    s.begin(false, Some(41));
    s.finish_read(0, 1);
    assert!(s.read_finished());
    assert_eq!(s.settle(8), ReplaySettle::Connect(42));
    assert_eq!(s.head(), Some(41));
}

#[test]
fn settle_reads_more_when_short() {
    let mut s: ReplayState<&str, &str> = ReplayState::new();
    s.begin(false, Some(5));
    s.absorb(0, 2, ReadEvent::Record(6, "x"));
    assert_eq!(s.settle(2), ReplaySettle::Read(6));
    assert_eq!(s.head(), Some(5));
}

#[test]
fn settle_requeues_when_enough_pending() {
    let mut s: ReplayState<&str, &str> = ReplayState::new();
    s.begin(false, Some(5));
    s.absorb(0, 2, ReadEvent::Record(6, "x"));
    s.absorb(1, 2, ReadEvent::Record(7, "y"));
    assert_eq!(s.settle(2), ReplaySettle::Requeue);
    // finished but not drained
    let mut f: ReplayState<&str, &str> = ReplayState::new();
    f.begin(false, Some(5));
    f.absorb(0, 2, ReadEvent::Record(6, "x"));
    f.finish_read(1, 2);
    assert_eq!(f.settle(2), ReplaySettle::Requeue);
}

#[test]
fn delivery_moves_head_to_last_delivered() {
    let mut s: ReplayState<&str, &str> = ReplayState::new();
    assert!(matches!(s.begin(false, Some(5)), ReplayStart::Resume(5)));
    s.absorb(0, 8, ReadEvent::Record(6, "m6"));
    s.absorb(1, 8, ReadEvent::Record(9, "m9"));
    s.absorb(2, 8, ReadEvent::Record(12, "m12"));
    assert_eq!(s.next_message(0, 10), Some((6, "m6")));
    assert_eq!(s.head(), Some(6));
    assert_eq!(s.next_message(5, 10), Some((9, "m9")));
    assert_eq!(s.head(), Some(9));
    // the client's queue is over budget: the pass ends, head stays
    assert_eq!(s.next_message(11, 10), None);
    assert_eq!(s.head(), Some(9));
    assert_eq!(s.settle(2), ReplaySettle::Read(10));
    // the next tick resumes at the last delivered index
    assert!(matches!(s.begin(false, Some(9)), ReplayStart::Resume(9)));
    assert_eq!(s.pending(), 1);
}

#[test]
fn pass_without_delivery_keeps_resumed_head() {
    let mut s: ReplayState<&str, &str> = ReplayState::new();
    s.begin(false, Some(3));
    assert_eq!(s.next_message(0, 10), None);
    assert_eq!(s.head(), Some(3));
    assert_eq!(s.settle(4), ReplaySettle::Read(4));
}

#[test]
fn absorb_steps() {
    let mut s: ReplayState<&str, &str> = ReplayState::new();
    assert_eq!(s.absorb(3, 4, ReadEvent::Record(1, "a")), (4, true));
    assert_eq!(s.absorb(4, 4, ReadEvent::ChunkEnd), (4, false));
    assert_eq!(s.absorb(3, 4, ReadEvent::ChunkEnd), (3, true));
    assert_eq!(s.absorb(3, 4, ReadEvent::Failed("io")), (3, false));
    s.finish_read(3, 4);
    assert!(!s.read_finished());
    assert!(matches!(s.begin(false, Some(0)), ReplayStart::Fail("io")));
}

#[test]
fn finish_read_only_when_budget_left() {
    let mut s: ReplayState<&str, &str> = ReplayState::new();
    s.finish_read(4, 4);
    assert!(!s.read_finished());
    s.finish_read(3, 4);
    assert!(s.read_finished());
    s.finish_read(9, 4);
    assert!(s.read_finished());
}

/// A client of the simulated worker below.
struct Client {
    finished: bool,
    storage_head: Option<u64>,
    memory_head: Option<u64>,
    received: Vec<&'static str>,
    errors: Vec<&'static str>,
}

/// One tick of a replay worker over `disk` (index, message), with the
/// in-memory channel starting at replay index `memory_from`. Returns whether
/// the request is requeued.
fn tick(
    state: &mut ReplayState<&'static str, &'static str>,
    client: &mut Client,
    disk: &[(u64, &'static str)],
    fail_at: Option<u64>,
    memory_from: u64,
    per_tick: usize,
) -> bool {
    match state.begin(client.finished, client.storage_head) {
        ReplayStart::Abandon => return false,
        ReplayStart::Fail(e) => {
            client.errors.push(e);
            return false;
        }
        ReplayStart::Resume(_) => {}
    }
    while let Some((_, message)) = state.next_message(client.received.len(), 100) {
        client.received.push(message);
    }
    client.storage_head = state.head();
    match state.settle(per_tick) {
        ReplaySettle::Connect(next) => {
            if next >= memory_from {
                client.storage_head = None;
                client.memory_head = Some(next);
            } else {
                state.record_error("failed to connect replay index to memory channel");
            }
            false
        }
        ReplaySettle::Read(from) => {
            let mut decoded = 0;
            'outer: for chunk in disk.chunks(2) {
                let chunk: Vec<&(u64, &str)> = chunk.iter().filter(|(i, _)| *i >= from).collect();
                for (i, m) in chunk {
                    let event = if Some(*i) == fail_at {
                        ReadEvent::Failed("decode error")
                    } else {
                        ReadEvent::Record(*i, *m)
                    };
                    let (d, more) = state.absorb(decoded, per_tick, event);
                    decoded = d;
                    if !more {
                        break 'outer;
                    }
                }
                let (d, more) = state.absorb(decoded, per_tick, ReadEvent::ChunkEnd);
                decoded = d;
                if !more {
                    break;
                }
            }
            state.finish_read(decoded, per_tick);
            true
        }
        ReplaySettle::Requeue => true,
    }
}

fn disk() -> Vec<(u64, &'static str)> {
    vec![(1, "m1"), (2, "m2"), (3, "m3"), (4, "m4"), (5, "m5")]
}

#[test]
fn worker_replays_storage_then_connects() {
    let disk = disk();
    let mut queue = ReplayQueue::new(4);
    let mut client = Client {
        finished: false,
        storage_head: Some(0),
        memory_head: None,
        received: vec![],
        errors: vec![],
    };
    queue.push_new(ReplayState::new()).unwrap();
    let mut prev = None;
    let mut ticks = 0;
    while let Some(mut state) = queue.pop_next(prev.take()) {
        ticks += 1;
        assert!(ticks < 20);
        if tick(&mut state, &mut client, &disk, None, 6, 2) {
            prev = Some(state);
        } else {
            queue.drop_req();
        }
    }
    assert_eq!(client.received, vec!["m1", "m2", "m3", "m4", "m5"]);
    assert_eq!(client.memory_head, Some(6));
    assert_eq!(client.storage_head, None);
    assert!(client.errors.is_empty());
    assert_eq!(queue.len(), 0);
}

#[test]
fn worker_hands_read_error_to_client() {
    let disk = disk();
    let mut client = Client {
        finished: false,
        storage_head: Some(0),
        memory_head: None,
        received: vec![],
        errors: vec![],
    };
    let mut state = ReplayState::new();
    let mut ticks = 0;
    while tick(&mut state, &mut client, &disk, Some(3), 6, 2) {
        ticks += 1;
        assert!(ticks < 20);
    }
    assert_eq!(client.received, vec!["m1", "m2"]);
    assert_eq!(client.errors, vec!["decode error"]);
    assert_eq!(client.memory_head, None);
}

#[test]
fn worker_drops_finished_client() {
    let disk = disk();
    let mut client = Client {
        finished: true,
        storage_head: Some(0),
        memory_head: None,
        received: vec![],
        errors: vec![],
    };
    let mut state = ReplayState::new();
    assert!(!tick(&mut state, &mut client, &disk, None, 6, 2));
    assert!(client.received.is_empty());
}
