//! Metric names, the label values under which gRPC messages and block
//! reconstruction failures are counted, and the text logged for such failures.
use vstd::prelude::*;
use crate::text::{decimal, push_decimal};
use solana_clock::Slot;

verus! {

/// Counter; label `reason`.
pub const BLOCK_MESSAGE_FAILED: &'static str = "block_message_failed";
/// Counter; labels `source`, `type`.
pub const CHANNEL_EVENTS_RECEIVED: &'static str = "channel_events_received";
/// Gauge; label `commitment`.
pub const CHANNEL_SLOT: &'static str = "channel_slot";
pub const CHANNEL_MESSAGES_TOTAL: &'static str = "channel_messages_total";
pub const CHANNEL_SLOTS_TOTAL: &'static str = "channel_slots_total";
pub const CHANNEL_BYTES_TOTAL: &'static str = "channel_bytes_total";
pub const CHANNEL_MEMORY_FIRST_SLOT: &'static str = "channel_memory_first_slot";
pub const CHANNEL_MEMORY_LAST_SLOT: &'static str = "channel_memory_last_slot";
pub const CHANNEL_STORAGE_WRITE_COLLECTOR_INDEX: &'static str = "channel_storage_write_collector_index";
/// Counter; label `thread_index`.
pub const CHANNEL_STORAGE_WRITE_COMPRESSOR_INDEX: &'static str = "channel_storage_write_compressor_index";
pub const CHANNEL_STORAGE_WRITE_INDEX: &'static str = "channel_storage_write_index";
pub const CHANNEL_STORAGE_SLOTS_TOTAL: &'static str = "channel_storage_slots_total";
pub const CHANNEL_STORAGE_FIRST_SLOT: &'static str = "channel_storage_first_slot";
pub const CHANNEL_STORAGE_LAST_SLOT: &'static str = "channel_storage_last_slot";
pub const STORAGE_SEGMENT_CHUNKS_WRITTEN_TOTAL: &'static str = "storage_segment_chunks_written_total";
pub const STORAGE_WRITE_CHUNK_UNCOMPRESSED_BYTES_TOTAL: &'static str =
    "storage_write_chunk_uncompressed_bytes_total";
pub const STORAGE_WRITE_CHUNK_COMPRESSED_BYTES_TOTAL: &'static str =
    "storage_write_chunk_compressed_bytes_total";
pub const STORAGE_WRITE_SERIALIZE_SECONDS_TOTAL: &'static str = "storage_write_serialize_seconds_total";
pub const STORAGE_WRITE_COMPRESS_SECONDS_TOTAL: &'static str = "storage_write_compress_seconds_total";
pub const STORAGE_WRITE_APPEND_SECONDS_TOTAL: &'static str = "storage_write_append_seconds_total";
pub const STORAGE_WRITE_COMMIT_SECONDS_TOTAL: &'static str = "storage_write_commit_seconds_total";
pub const STORAGE_WRITE_TRIM_SECONDS_TOTAL: &'static str = "storage_write_trim_seconds_total";
pub const STORAGE_WRITE_ROTATE_SECONDS_TOTAL: &'static str = "storage_write_rotate_seconds_total";
pub const STORAGE_REPLAY_COMPRESSED_BYTES_TOTAL: &'static str = "storage_replay_compressed_bytes_total";
pub const STORAGE_REPLAY_DECOMPRESSED_BYTES_TOTAL: &'static str =
    "storage_replay_decompressed_bytes_total";
pub const STORAGE_DISK_SIZE_BYTES: &'static str = "storage_disk_size_bytes";
/// Gauge; label `commitment`.
pub const GRPC_BLOCK_META_SLOT: &'static str = "grpc_block_meta_slot";
pub const GRPC_BLOCK_META_QUEUE_SIZE: &'static str = "grpc_block_meta_queue_size";
/// Counter; labels `x_subscription_id`, `method`.
pub const GRPC_REQUESTS_TOTAL: &'static str = "grpc_requests_total";
/// Gauge; label `x_subscription_id`.
pub const GRPC_SUBSCRIBE_TOTAL: &'static str = "grpc_subscribe_total";
/// Counter; labels `x_subscription_id`, `message`.
pub const GRPC_SUBSCRIBE_MESSAGES_COUNT_TOTAL: &'static str = "grpc_subscribe_messages_count_total";
/// Counter; labels `x_subscription_id`, `message`.
pub const GRPC_SUBSCRIBE_MESSAGES_BYTES_TOTAL: &'static str = "grpc_subscribe_messages_bytes_total";
/// Gauge; label `x_subscription_id`.
pub const GRPC_SUBSCRIBE_CPU_SECONDS_TOTAL: &'static str = "grpc_subscribe_cpu_seconds_total";
/// Gauge; label `x_subscription_id`.
pub const GRPC_SUBSCRIBE_REPLAY_DISK_SECONDS_TOTAL: &'static str =
    "grpc_subscribe_replay_disk_cpu_seconds_total";
/// Histogram; label `x_subscription_id`.
pub const GRPC_SUBSCRIBE_FILTER_PARSE_SECONDS: &'static str = "grpc_subscribe_filter_parse_seconds";
/// Histogram; label `x_subscription_id`.
pub const GRPC_SUBSCRIBE_TIME_TO_FIRST_MESSAGE_SECONDS: &'static str =
    "grpc_subscribe_time_to_first_message_seconds";
/// Counter; labels `x_subscription_id`, `reason`.
pub const GRPC_SUBSCRIBE_HANDSHAKE_ABANDONED_TOTAL: &'static str =
    "grpc_subscribe_handshake_abandoned_total";
/// Gauge; label `commitment`.
pub const PUBSUB_SLOT: &'static str = "pubsub_slot";
pub const PUBSUB_CACHED_SIGNATURES_TOTAL: &'static str = "pubsub_cached_signatures_total";
pub const PUBSUB_STORED_MESSAGES_COUNT_TOTAL: &'static str = "pubsub_stored_messages_count_total";
pub const PUBSUB_STORED_MESSAGES_BYTES_TOTAL: &'static str = "pubsub_stored_messages_bytes_total";
/// Gauge; label `x_subscription_id`.
pub const PUBSUB_CONNECTIONS_TOTAL: &'static str = "pubsub_connections_total";
/// Gauge; labels `x_subscription_id`, `subscription`.
pub const PUBSUB_SUBSCRIPTIONS_TOTAL: &'static str = "pubsub_subscriptions_total";
/// Counter; labels `x_subscription_id`, `subscription`.
pub const PUBSUB_MESSAGES_SENT_COUNT_TOTAL: &'static str = "pubsub_messages_sent_count_total";
/// Counter; labels `x_subscription_id`, `subscription`.
pub const PUBSUB_MESSAGES_SENT_BYTES_TOTAL: &'static str = "pubsub_messages_sent_bytes_total";
/// Gauge; label `transport`.
pub const RICHAT_CONNECTIONS_TOTAL: &'static str = "richat_connections_total";

/// Why a block could not be reconstructed from its parts.
#[derive(Debug, Clone, Copy, PartialEq, Eq, Structural)]
pub enum BlockMessageFailedReason {
    MissedBlockMeta,
    MismatchTransactions { actual: usize, expected: usize },
    MismatchEntries { actual: usize, expected: usize },
    ExtraAccount,
    ExtraTransaction,
    ExtraEntry,
    ExtraBlockMeta,
}

impl BlockMessageFailedReason {
    /// The value of the `reason` label under which this failure is counted.
    pub open spec fn spec_label(self) -> Seq<char> {
        match self {
            BlockMessageFailedReason::MissedBlockMeta => "MissedBlockMeta"@,
            BlockMessageFailedReason::MismatchTransactions { .. } => "MismatchTransactions"@,
            BlockMessageFailedReason::MismatchEntries { .. } => "MismatchEntries"@,
            BlockMessageFailedReason::ExtraAccount => "ExtraAccount"@,
            BlockMessageFailedReason::ExtraTransaction => "ExtraTransaction"@,
            BlockMessageFailedReason::ExtraEntry => "ExtraEntry"@,
            BlockMessageFailedReason::ExtraBlockMeta => "ExtraBlockMeta"@,
        }
    }

    /// How this failure reads in the log: the label, followed for the two
    /// mismatches by `(actual/expected)`.
    pub open spec fn spec_describe(self) -> Seq<char> {
        match self {
            BlockMessageFailedReason::MismatchTransactions { actual, expected } => "MismatchTransactions("@
                + decimal(actual as nat) + "/"@ + decimal(expected as nat) + ")"@,
            BlockMessageFailedReason::MismatchEntries { actual, expected } => "MismatchEntries("@
                + decimal(actual as nat) + "/"@ + decimal(expected as nat) + ")"@,
            _ => self.spec_label(),
        }
    }

    /// The value of the `reason` label under which this failure is counted.
    pub fn label(&self) -> (s: &'static str)
        ensures
            s@ == self.spec_label(),
    {
        match self {
            BlockMessageFailedReason::MissedBlockMeta => "MissedBlockMeta",
            BlockMessageFailedReason::MismatchTransactions { .. } => "MismatchTransactions",
            BlockMessageFailedReason::MismatchEntries { .. } => "MismatchEntries",
            BlockMessageFailedReason::ExtraAccount => "ExtraAccount",
            BlockMessageFailedReason::ExtraTransaction => "ExtraTransaction",
            BlockMessageFailedReason::ExtraEntry => "ExtraEntry",
            BlockMessageFailedReason::ExtraBlockMeta => "ExtraBlockMeta",
        }
    }

    /// Appends how this failure reads in the log to `out`.
    pub fn push_describe(&self, out: &mut String)
        ensures
            final(out)@ == old(out)@ + self.spec_describe(),
    {
        match self {
            BlockMessageFailedReason::MismatchTransactions { actual, expected } => {
                out.append("MismatchTransactions(");
                push_decimal(out, *actual as u64);
                out.append("/");
                push_decimal(out, *expected as u64);
                out.append(")");
                assert(final(out)@ =~= old(out)@ + self.spec_describe());
            },
            BlockMessageFailedReason::MismatchEntries { actual, expected } => {
                out.append("MismatchEntries(");
                push_decimal(out, *actual as u64);
                out.append("/");
                push_decimal(out, *expected as u64);
                out.append(")");
                assert(final(out)@ =~= old(out)@ + self.spec_describe());
            },
            _ => {
                out.append(self.label());
            },
        }
    }
}

/// The reasons, each as it reads in the log, separated by commas.
pub open spec fn join_reasons(reasons: Seq<BlockMessageFailedReason>) -> Seq<char>
    decreases reasons.len(),
{
    if reasons.len() == 0 {
        Seq::empty()
    } else if reasons.len() == 1 {
        reasons[0].spec_describe()
    } else {
        join_reasons(reasons.drop_last()) + ","@ + reasons.last().spec_describe()
    }
}

/// Joining lists every reason once, in order: nothing for no reason, one
/// reason reads as itself, and two lists join with a comma between them.
pub proof fn lemma_join_reasons_lists_each(
    a: Seq<BlockMessageFailedReason>,
    b: Seq<BlockMessageFailedReason>,
    r: BlockMessageFailedReason,
)
    ensures
        join_reasons(Seq::empty()) == Seq::<char>::empty(),
        join_reasons(seq![r]) == r.spec_describe(),
        a.len() > 0 && b.len() > 0 ==> join_reasons(a + b) == join_reasons(a) + ","@
            + join_reasons(b),
    decreases b.len(),
{
    assert(seq![r][0] == r);
    if a.len() > 0 && b.len() > 0 {
        let ab = a + b;
        assert(ab.drop_last() =~= a + b.drop_last());
        assert(ab.last() == b.last());
        if b.len() == 1 {
            assert(a + b.drop_last() =~= a);
            assert(b =~= seq![b[0]]);
        } else {
            lemma_join_reasons_lists_each(a, b.drop_last(), r);
            assert(join_reasons(b) == join_reasons(b.drop_last()) + ","@ + b.last().spec_describe());
        }
    }
}

/// The line logged when the block at `slot` failed for `reasons`.
pub open spec fn block_failure_line(slot: Slot, reasons: Seq<BlockMessageFailedReason>) -> Seq<
    char,
> {
    "failed to build block ("@ + decimal(slot as nat) + "): "@ + join_reasons(reasons)
}

/// The line to log when the block at `slot` could not be built for
/// `reasons`: nothing is logged when there is no reason.
pub fn block_message_failed_line(slot: Slot, reasons: &[BlockMessageFailedReason]) -> (r: Option<
    String,
>)
    ensures
        r is None <==> reasons@.len() == 0,
        r matches Some(line) ==> line@ == block_failure_line(slot, reasons@),
{
    if reasons.len() == 0 {
        return None;
    }
    let mut out = String::new();
    out.append("failed to build block (");
    push_decimal(&mut out, slot);
    out.append("): ");
    let ghost start = out@;
    let mut i: usize = 0;
    while i < reasons.len()
        invariant
            i <= reasons@.len(),
            reasons@.len() > 0,
            out@ == start + join_reasons(reasons@.take(i as int)),
        decreases reasons@.len() - i,
    {
        let ghost before = out@;
        if i > 0 {
            out.append(",");
        }
        reasons[i].push_describe(&mut out);
        proof {
            let next = reasons@.take(i + 1);
            assert(next.drop_last() =~= reasons@.take(i as int));
            assert(next.last() == reasons@[i as int]);
            if i == 0 {
                assert(join_reasons(reasons@.take(0)) =~= Seq::<char>::empty());
                assert(out@ =~= start + join_reasons(next));
            } else {
                assert(out@ =~= start + join_reasons(next));
            }
        }
        i = i + 1;
    }
    assert(reasons@.take(reasons@.len() as int) =~= reasons@);
    assert(out@ =~= block_failure_line(slot, reasons@));
    Some(out)
}

/// The `reason` label under which every failure is also counted.
pub open spec fn total_label() -> Seq<char> {
    "Total"@
}

/// The counter increments owed for a block that failed for `reasons`, as
/// (label, amount) pairs in the order they are made: one for each reason under
/// its label, then the number of reasons under `Total`; none without a reason.
pub open spec fn failure_increments(reasons: Seq<BlockMessageFailedReason>) -> Seq<
    (Seq<char>, nat),
> {
    if reasons.len() == 0 {
        Seq::empty()
    } else {
        Seq::new(reasons.len(), |i: int| (reasons[i].spec_label(), 1nat)).push(
            (total_label(), reasons.len()),
        )
    }
}

/// Increments as made, each label by its text and each amount as a number.
pub open spec fn increments_view(increments: Seq<(&'static str, u64)>) -> Seq<(Seq<char>, nat)> {
    increments.map_values(|p: (&'static str, u64)| (p.0@, p.1 as nat))
}

/// How much `increments` add to the counter with `label`.
pub open spec fn counted(increments: Seq<(Seq<char>, nat)>, label: Seq<char>) -> nat
    decreases increments.len(),
{
    if increments.len() == 0 {
        0
    } else {
        counted(increments.drop_last(), label) + if increments.last().0 == label {
            increments.last().1
        } else {
            0
        }
    }
}

/// How many of `reasons` are counted under `label`.
pub open spec fn labelled(reasons: Seq<BlockMessageFailedReason>, label: Seq<char>) -> nat
    decreases reasons.len(),
{
    if reasons.len() == 0 {
        0
    } else {
        labelled(reasons.drop_last(), label) + if reasons.last().spec_label() == label {
            1nat
        } else {
            0
        }
    }
}

/// The counter increments owed for a block that failed for `reasons`, in the
/// order they are made: one for each reason under its label, then the number of
/// reasons under `Total`. Nothing is counted when there is no reason.
pub fn block_message_failed_increments(reasons: &[BlockMessageFailedReason]) -> (r: Vec<
    (&'static str, u64),
>)
    ensures
        reasons@.len() == 0 ==> r@.len() == 0,
        reasons@.len() > 0 ==> {
            &&& r@.len() == reasons@.len() + 1
            &&& forall|i: int|
                0 <= i < reasons@.len() ==> (#[trigger] r@[i]).0@ == reasons@[i].spec_label()
                    && r@[i].1 == 1
            &&& r@[reasons@.len() as int].0@ == total_label()
            &&& r@[reasons@.len() as int].1 == reasons@.len()
        },
        increments_view(r@) == failure_increments(reasons@),
{
    let mut out: Vec<(&'static str, u64)> = Vec::new();
    if reasons.len() == 0 {
        return out;
    }
    let mut i: usize = 0;
    while i < reasons.len()
        invariant
            i <= reasons@.len(),
            out@.len() == i,
            forall|j: int|
                0 <= j < i ==> (#[trigger] out@[j]).0@ == reasons@[j].spec_label() && out@[j].1
                    == 1,
        decreases reasons@.len() - i,
    {
        out.push((reasons[i].label(), 1));
        i = i + 1;
    }
    out.push(("Total", reasons.len() as u64));
    assert(increments_view(out@) =~= failure_increments(reasons@));
    out
}

/// What a list of increments adds to a counter: one per reason under that
/// label, and the number of reasons under `Total`.
proof fn lemma_counted_increments(reasons: Seq<BlockMessageFailedReason>, label: Seq<char>)
    ensures
        counted(failure_increments(reasons), label) == labelled(reasons, label) + if reasons.len()
            > 0 && label == total_label() {
            reasons.len()
        } else {
            0
        },
{
    if reasons.len() > 0 {
        let per_reason = Seq::new(reasons.len(), |i: int| (reasons[i].spec_label(), 1nat));
        lemma_counted_per_reason(reasons, label, reasons.len() as int);
        assert(failure_increments(reasons).drop_last() =~= per_reason);
        assert(reasons.take(reasons.len() as int) =~= reasons);
        if label == total_label() {
            lemma_no_reason_labelled_total(reasons);
        }
    }
}

proof fn lemma_counted_per_reason(reasons: Seq<BlockMessageFailedReason>, label: Seq<char>, k: int)
    requires
        0 <= k <= reasons.len(),
    ensures
        counted(Seq::new(k as nat, |i: int| (reasons[i].spec_label(), 1nat)), label) == labelled(
            reasons.take(k),
            label,
        ),
    decreases k,
{
    if k > 0 {
        lemma_counted_per_reason(reasons, label, k - 1);
        assert(Seq::new(k as nat, |i: int| (reasons[i].spec_label(), 1nat)).drop_last() =~= Seq::new(
            (k - 1) as nat,
            |i: int| (reasons[i].spec_label(), 1nat),
        ));
        assert(reasons.take(k).drop_last() =~= reasons.take(k - 1));
    }
}

proof fn lemma_no_reason_labelled_total(reasons: Seq<BlockMessageFailedReason>)
    ensures
        labelled(reasons, total_label()) == 0,
    decreases reasons.len(),
{
    if reasons.len() > 0 {
        lemma_no_reason_labelled_total(reasons.drop_last());
        lemma_reason_labels_distinct(reasons.last(), reasons.last());
    }
}

proof fn lemma_labelled_concat(a: Seq<BlockMessageFailedReason>, b: Seq<BlockMessageFailedReason>, label: Seq<char>)
    ensures
        labelled(a + b, label) == labelled(a, label) + labelled(b, label),
    decreases b.len(),
{
    if b.len() == 0 {
        assert(a + b =~= a);
    } else {
        lemma_labelled_concat(a, b.drop_last(), label);
        assert((a + b).drop_last() =~= a + b.drop_last());
    }
}

proof fn lemma_labelled_permutation(a: Seq<BlockMessageFailedReason>, b: Seq<BlockMessageFailedReason>, label: Seq<char>)
    requires
        a.to_multiset() == b.to_multiset(),
    ensures
        labelled(a, label) == labelled(b, label),
    decreases a.len(),
{
    vstd::seq_lib::to_multiset_len(a);
    vstd::seq_lib::to_multiset_len(b);
    if a.len() > 0 {
        let x = a.last();
        let rest = a.drop_last();
        assert(rest.push(x) =~= a);
        vstd::seq_lib::to_multiset_build(rest, x);
        vstd::seq_lib::to_multiset_contains(b, x);
        assert(a.to_multiset().count(x) > 0);
        assert(b.contains(x));
        let j = choose|j: int| 0 <= j < b.len() && b[j] == x;
        vstd::seq_lib::to_multiset_remove(b, j);
        assert(rest.to_multiset() =~= b.remove(j).to_multiset());
        lemma_labelled_permutation(rest, b.remove(j), label);
        let front = b.take(j);
        let back = b.skip(j + 1);
        assert(b.remove(j) =~= front + back);
        assert(b =~= front + seq![x] + back);
        lemma_labelled_concat(front, back, label);
        lemma_labelled_concat(front, seq![x], label);
        lemma_labelled_concat(front + seq![x], back, label);
        assert(seq![x].drop_last() =~= Seq::<BlockMessageFailedReason>::empty());
        let one: nat = if x.spec_label() == label {
            1
        } else {
            0
        };
        assert(labelled(Seq::<BlockMessageFailedReason>::empty(), label) == 0);
        assert(seq![x].last() == x);
        assert(labelled(seq![x], label) == one);
        assert(labelled(a, label) == labelled(rest, label) + one);
        assert(labelled(b, label) == labelled(front, label) + one + labelled(back, label));
    }
}

/// The failure counters add up: a block that failed for the reasons of `a`
/// and then those of `b` counts, under every label, what a failure for `a`
/// and a failure for `b` count together.
pub proof fn lemma_increments_add_up(
    a: Seq<BlockMessageFailedReason>,
    b: Seq<BlockMessageFailedReason>,
    label: Seq<char>,
)
    ensures
        counted(failure_increments(a + b), label) == counted(failure_increments(a), label)
            + counted(failure_increments(b), label),
{
    lemma_counted_increments(a + b, label);
    lemma_counted_increments(a, label);
    lemma_counted_increments(b, label);
    lemma_labelled_concat(a, b, label);
}

/// The failure counters do not depend on the order of the reasons: the same
/// reasons in any order count the same under every label.
pub proof fn lemma_increments_order_free(
    a: Seq<BlockMessageFailedReason>,
    b: Seq<BlockMessageFailedReason>,
    label: Seq<char>,
)
    requires
        a.to_multiset() == b.to_multiset(),
    ensures
        counted(failure_increments(a), label) == counted(failure_increments(b), label),
{
    lemma_counted_increments(a, label);
    lemma_counted_increments(b, label);
    lemma_labelled_permutation(a, b, label);
    vstd::seq_lib::to_multiset_len(a);
    vstd::seq_lib::to_multiset_len(b);
}

/// The kind of a message sent to a gRPC subscriber, as counted in metrics.
#[derive(Debug, Clone, Copy, PartialEq, Eq, Structural)]
pub enum GrpcSubscribeMessage {
    Slot,
    Account,
    Transaction,
    TransactionStatus,
    Entry,
    BlockMeta,
    Block,
    Ping,
    Pong,
}

impl GrpcSubscribeMessage {
    /// The value of the `message` label for this kind.
    pub open spec fn spec_as_str(self) -> Seq<char> {
        match self {
            GrpcSubscribeMessage::Slot => "slot"@,
            GrpcSubscribeMessage::Account => "account"@,
            GrpcSubscribeMessage::Transaction => "transaction"@,
            GrpcSubscribeMessage::TransactionStatus => "transactionstatus"@,
            GrpcSubscribeMessage::Entry => "entry"@,
            GrpcSubscribeMessage::BlockMeta => "blockmeta"@,
            GrpcSubscribeMessage::Block => "block"@,
            GrpcSubscribeMessage::Ping => "ping"@,
            GrpcSubscribeMessage::Pong => "pong"@,
        }
    }

    /// The value of the `message` label for this kind.
    pub fn as_str(self) -> (s: &'static str)
        ensures
            s@ == self.spec_as_str(),
    {
        match self {
            GrpcSubscribeMessage::Slot => "slot",
            GrpcSubscribeMessage::Account => "account",
            GrpcSubscribeMessage::Transaction => "transaction",
            GrpcSubscribeMessage::TransactionStatus => "transactionstatus",
            GrpcSubscribeMessage::Entry => "entry",
            GrpcSubscribeMessage::BlockMeta => "blockmeta",
            GrpcSubscribeMessage::Block => "block",
            GrpcSubscribeMessage::Ping => "ping",
            GrpcSubscribeMessage::Pong => "pong",
        }
    }
}

/// The kind of a filtered update, as the filter reports it for each update it
/// lets through to a subscriber.
#[derive(Debug, Clone, Copy, PartialEq, Eq, Structural)]
pub enum FilteredUpdateKind {
    Slot,
    Account,
    Transaction,
    TransactionStatus,
    Entry,
    BlockMeta,
    Block,
}

impl GrpcSubscribeMessage {
    /// The message kind under which an update of kind `kind` is counted.
    pub open spec fn of_update(kind: FilteredUpdateKind) -> GrpcSubscribeMessage {
        match kind {
            FilteredUpdateKind::Slot => GrpcSubscribeMessage::Slot,
            FilteredUpdateKind::Account => GrpcSubscribeMessage::Account,
            FilteredUpdateKind::Transaction => GrpcSubscribeMessage::Transaction,
            FilteredUpdateKind::TransactionStatus => GrpcSubscribeMessage::TransactionStatus,
            FilteredUpdateKind::Entry => GrpcSubscribeMessage::Entry,
            FilteredUpdateKind::BlockMeta => GrpcSubscribeMessage::BlockMeta,
            FilteredUpdateKind::Block => GrpcSubscribeMessage::Block,
        }
    }
}

impl From<FilteredUpdateKind> for GrpcSubscribeMessage {
    fn from(value: FilteredUpdateKind) -> (r: Self) {
        match value {
            FilteredUpdateKind::Slot => GrpcSubscribeMessage::Slot,
            FilteredUpdateKind::Account => GrpcSubscribeMessage::Account,
            FilteredUpdateKind::Transaction => GrpcSubscribeMessage::Transaction,
            FilteredUpdateKind::TransactionStatus => GrpcSubscribeMessage::TransactionStatus,
            FilteredUpdateKind::Entry => GrpcSubscribeMessage::Entry,
            FilteredUpdateKind::BlockMeta => GrpcSubscribeMessage::BlockMeta,
            FilteredUpdateKind::Block => GrpcSubscribeMessage::Block,
        }
    }
}

impl vstd::std_specs::convert::FromSpecImpl<FilteredUpdateKind> for GrpcSubscribeMessage {
    open spec fn obeys_from_spec() -> bool {
        true
    }

    open spec fn from_spec(v: FilteredUpdateKind) -> GrpcSubscribeMessage {
        GrpcSubscribeMessage::of_update(v)
    }
}

/// An update is never counted as a ping or a pong, and updates of different
/// kinds are counted under different message kinds.
pub proof fn lemma_update_kinds_distinct(a: FilteredUpdateKind, b: FilteredUpdateKind)
    ensures
        GrpcSubscribeMessage::of_update(a) != GrpcSubscribeMessage::Ping,
        GrpcSubscribeMessage::of_update(a) != GrpcSubscribeMessage::Pong,
        GrpcSubscribeMessage::of_update(a) == GrpcSubscribeMessage::of_update(b) ==> a == b,
{
}

/// Two kinds of gRPC message are counted under the same `message` label only
/// if they are the same kind.
pub proof fn lemma_message_labels_distinct(a: GrpcSubscribeMessage, b: GrpcSubscribeMessage)
    ensures
        a.spec_as_str() == b.spec_as_str() ==> a == b,
{
    reveal_strlit("slot");
    reveal_strlit("account");
    reveal_strlit("transaction");
    reveal_strlit("transactionstatus");
    reveal_strlit("entry");
    reveal_strlit("blockmeta");
    reveal_strlit("block");
    reveal_strlit("ping");
    reveal_strlit("pong");
    if a.spec_as_str() == b.spec_as_str() {
        let (x, y) = (a.spec_as_str(), b.spec_as_str());
        assert(x.len() == y.len());
        assert(x[0] == y[0]);
        assert(x.len() > 1 ==> x[1] == y[1]);
        assert(x.len() > 4 ==> x[4] == y[4]);
    }
}

/// No reason is counted under the `Total` label, and two failures are counted
/// under the same label only if they are the same kind of failure (a mismatch
/// of transactions, whatever its counts, is one kind).
pub proof fn lemma_reason_labels_distinct(a: BlockMessageFailedReason, b: BlockMessageFailedReason)
    ensures
        a.spec_label() != total_label(),
        a.spec_label() == b.spec_label() ==> match (a, b) {
            (
                BlockMessageFailedReason::MismatchTransactions { .. },
                BlockMessageFailedReason::MismatchTransactions { .. },
            ) => true,
            (
                BlockMessageFailedReason::MismatchEntries { .. },
                BlockMessageFailedReason::MismatchEntries { .. },
            ) => true,
            _ => a == b,
        },
{
    reveal_strlit("Total");
    reveal_strlit("MissedBlockMeta");
    reveal_strlit("MismatchTransactions");
    reveal_strlit("MismatchEntries");
    reveal_strlit("ExtraAccount");
    reveal_strlit("ExtraTransaction");
    reveal_strlit("ExtraEntry");
    reveal_strlit("ExtraBlockMeta");
    let x = a.spec_label();
    assert(x.len() != 5 || x[0] != 'T');
    if a.spec_label() == b.spec_label() {
        let y = b.spec_label();
        assert(x.len() == y.len());
        assert(x[0] == y[0]);
        assert(x.len() > 5 ==> x[5] == y[5]);
    }
}

} // verus!
