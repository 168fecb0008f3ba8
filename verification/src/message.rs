//! What shard consumers report to a source, and what a source asks for in turn.

use vstd::prelude::*;
use vstd::utf8::{decode_utf8, valid_utf8};

use crate::checkpoint::{PartitionDelta, PartitionDeltaView};
use crate::strings::{join, joined, opt_view, texts};

verus! {

/// A record read from a shard.
#[derive(Debug, PartialEq, Eq)]
pub struct Record {
    pub data: Vec<u8>,
    pub sequence_number: String,
}

/// Mathematical value of a [`Record`].
pub struct RecordView {
    pub data: Seq<u8>,
    pub sequence_number: Seq<char>,
}

impl View for Record {
    type V = RecordView;

    open spec fn view(&self) -> RecordView {
        RecordView { data: self.data@, sequence_number: self.sequence_number@ }
    }
}

impl RecordView {
    /// Whether the record holds a document: it is not empty, and it is UTF-8.
    pub open spec fn is_valid(self) -> bool {
        self.data.len() > 0 && valid_utf8(self.data)
    }
}

/// The views of a sequence of records.
pub open spec fn record_views(records: Seq<Record>) -> Seq<RecordView> {
    records.map_values(|record: Record| record@)
}

/// The documents that `records` hold, in order.
pub open spec fn docs_of(records: Seq<RecordView>) -> Seq<Seq<char>> {
    records.filter(|record: RecordView| record.is_valid()).map_values(
        |record: RecordView| decode_utf8(record.data),
    )
}

/// The number of `records` that hold no document.
pub open spec fn num_invalid_of(records: Seq<RecordView>) -> nat {
    records.filter(|record: RecordView| !record.is_valid()).len()
}

/// The number of bytes that `records` hold, valid or not.
pub open spec fn num_bytes_of(records: Seq<RecordView>) -> nat
    decreases records.len(),
{
    if records.len() == 0 {
        0
    } else {
        num_bytes_of(records.drop_last()) + records.last().data.len()
    }
}

/// What a shard consumer reports.
#[derive(Debug, PartialEq, Eq)]
pub enum ShardConsumerMessage {
    /// The shard was split or merged into these shards.
    ChildShards(Vec<String>),
    /// Records were read from the shard.
    Records { shard_id: String, records: Vec<Record> },
    /// The shard is closed, and was read to its end.
    ShardClosed(String),
    /// The shard was read to its end.
    ShardEOF(String),
}

/// Mathematical value of a [`ShardConsumerMessage`].
pub enum MessageView {
    ChildShards(Seq<Seq<char>>),
    Records { shard_id: Seq<char>, records: Seq<RecordView> },
    ShardClosed(Seq<char>),
    ShardEOF(Seq<char>),
}

impl View for ShardConsumerMessage {
    type V = MessageView;

    open spec fn view(&self) -> MessageView {
        match self {
            ShardConsumerMessage::ChildShards(shard_ids) => MessageView::ChildShards(
                texts(shard_ids@),
            ),
            ShardConsumerMessage::Records { shard_id, records } => MessageView::Records {
                shard_id: shard_id@,
                records: record_views(records@),
            },
            ShardConsumerMessage::ShardClosed(shard_id) => MessageView::ShardClosed(shard_id@),
            ShardConsumerMessage::ShardEOF(shard_id) => MessageView::ShardEOF(shard_id@),
        }
    }
}

/// The view of what a receive gave: no message where the channel is closed.
pub open spec fn received(message: Option<ShardConsumerMessage>) -> Option<MessageView> {
    match message {
        Some(message) => Some(message@),
        None => None,
    }
}

/// How a shard consumer is to be started.
#[derive(Debug, PartialEq, Eq)]
pub struct ShardConsumerParams {
    pub stream_name: String,
    pub shard_id: String,
    /// Reading starts after the record with this number, or at the first record.
    pub from_sequence_number_exclusive: Option<String>,
    /// Whether the consumer stops where the shard has no more records for now.
    pub shutdown_at_shard_eof: bool,
}

/// Mathematical value of a [`ShardConsumerParams`].
pub struct ConsumerParamsView {
    pub stream_name: Seq<char>,
    pub shard_id: Seq<char>,
    pub from_sequence_number_exclusive: Option<Seq<char>>,
    pub shutdown_at_shard_eof: bool,
}

impl View for ShardConsumerParams {
    type V = ConsumerParamsView;

    open spec fn view(&self) -> ConsumerParamsView {
        ConsumerParamsView {
            stream_name: self.stream_name@,
            shard_id: self.shard_id@,
            from_sequence_number_exclusive: opt_view(self.from_sequence_number_exclusive),
            shutdown_at_shard_eof: self.shutdown_at_shard_eof,
        }
    }
}

/// The views of a sequence of consumer parameters.
pub open spec fn params_views(params: Seq<ShardConsumerParams>) -> Seq<ConsumerParamsView> {
    params.map_values(|p: ShardConsumerParams| p@)
}

/// What is to be done about a message before the next one is received.
#[derive(Debug, PartialEq, Eq)]
pub enum MessageAction {
    /// Nothing.
    Proceed,
    /// Start these shard consumers, in this order.
    Spawn(Vec<ShardConsumerParams>),
    /// Record this step in the checkpoint delta of the batch.
    Record(PartitionDelta),
    /// Let go of the consumer of this shard.
    Release(String),
}

/// Mathematical value of a [`MessageAction`].
pub enum ActionView {
    Proceed,
    Spawn(Seq<ConsumerParamsView>),
    Record(PartitionDeltaView),
    Release(Seq<char>),
}

impl View for MessageAction {
    type V = ActionView;

    open spec fn view(&self) -> ActionView {
        match self {
            MessageAction::Proceed => ActionView::Proceed,
            MessageAction::Spawn(params) => ActionView::Spawn(params_views(params@)),
            MessageAction::Record(delta) => ActionView::Record(delta@),
            MessageAction::Release(shard_id) => ActionView::Release(shard_id@),
        }
    }
}

/// Why a source gives up on a batch.
#[derive(Debug, PartialEq, Eq)]
pub enum EmitError {
    /// Records came from a shard that is not assigned to the source.
    UnassignedShard { shard_id: String, assigned_shard_ids: Vec<String> },
    /// The checkpoint delta did not take a step.
    DeltaNotRecorded,
}

impl EmitError {
    /// The text of the error.
    pub open spec fn spec_message(self) -> Seq<char> {
        match self {
            EmitError::UnassignedShard { shard_id, assigned_shard_ids } => {
                "Received record from unassigned shard `"@ + shard_id@ + "`. Assigned shards: `{"@
                    + joined(texts(assigned_shard_ids@), ", "@) + "}`."@
            },
            EmitError::DeltaNotRecorded => "Failed to record partition delta."@,
        }
    }

    /// The text of the error.
    pub fn message(&self) -> (res: String)
        ensures
            res@ == self.spec_message(),
    {
        match self {
            EmitError::UnassignedShard { shard_id, assigned_shard_ids } => {
                let mut text = "Received record from unassigned shard `".to_string();
                text.append(shard_id.as_str());
                text.append("`. Assigned shards: `{");
                text.append(join(assigned_shard_ids, ", ").as_str());
                text.append("}`.");
                text
            },
            EmitError::DeltaNotRecorded => "Failed to record partition delta.".to_string(),
        }
    }
}

/// Every record either holds a document or counts as invalid.
pub(crate) proof fn lemma_docs_and_invalid(records: Seq<RecordView>)
    ensures
        docs_of(records).len() + num_invalid_of(records) == records.len(),
    decreases records.len(),
{
    reveal(Seq::filter);
    if records.len() > 0 {
        lemma_docs_and_invalid(records.drop_last());
    }
}

/// What one more record adds.
pub(crate) proof fn lemma_records_push(records: Seq<RecordView>, record: RecordView)
    ensures
        docs_of(records.push(record)) == if record.is_valid() {
            docs_of(records).push(decode_utf8(record.data))
        } else {
            docs_of(records)
        },
        num_invalid_of(records.push(record)) == num_invalid_of(records) + if record.is_valid() {
            0nat
        } else {
            1nat
        },
        num_bytes_of(records.push(record)) == num_bytes_of(records) + record.data.len(),
{
    reveal(Seq::filter);
    assert(records.push(record).drop_last() == records);
    if record.is_valid() {
        assert(docs_of(records.push(record)) =~= docs_of(records).push(decode_utf8(record.data)));
    }
}

/// What two runs of records hold, one after the other.
pub(crate) proof fn lemma_records_add(a: Seq<RecordView>, b: Seq<RecordView>)
    ensures
        docs_of(a + b) == docs_of(a) + docs_of(b),
        num_bytes_of(a + b) == num_bytes_of(a) + num_bytes_of(b),
    decreases b.len(),
{
    if b.len() == 0 {
        reveal(Seq::filter);
        assert(a + b == a);
        assert(docs_of(b) =~= Seq::<Seq<char>>::empty());
    } else {
        let rest = b.drop_last();
        lemma_records_add(a, rest);
        lemma_records_push(a + rest, b.last());
        lemma_records_push(rest, b.last());
        assert(rest.push(b.last()) == b);
        assert((a + rest).push(b.last()) == a + b);
    }
}

/// The first records hold no more than all of them.
pub(crate) proof fn lemma_records_prefix(records: Seq<RecordView>, i: int)
    requires
        0 <= i <= records.len(),
    ensures
        num_bytes_of(records.take(i)) <= num_bytes_of(records),
        num_invalid_of(records.take(i)) <= num_invalid_of(records),
    decreases records.len() - i,
{
    if i < records.len() {
        lemma_records_prefix(records, i + 1);
        assert(records.take(i + 1) == records.take(i).push(records[i]));
        lemma_records_push(records.take(i), records[i]);
    } else {
        assert(records.take(i) == records);
    }
}

} // verus!
