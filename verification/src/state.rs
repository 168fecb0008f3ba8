//! The model of a source: what it knows of the shards it reads, and how messages
//! change that.

use vstd::prelude::*;

use crate::batch::BatchView;
use crate::checkpoint::{PartitionDeltaView, PositionView};
use crate::message::{docs_of, num_bytes_of, num_invalid_of, MessageView, RecordView};

verus! {

/// Mathematical value of a [`KinesisSourceState`](crate::source::KinesisSourceState).
#[verifier::ext_equal]
pub struct SourceStateView {
    pub assigned_shard_ids: Map<Seq<char>, Seq<char>>,
    pub current_positions: Map<Seq<char>, PositionView>,
    pub shard_consumers: Set<Seq<char>>,
    pub num_active_shards: nat,
    pub num_bytes_processed: nat,
    pub num_records_processed: nat,
    pub num_invalid_records: nat,
}

impl SourceStateView {
    /// The state that knows of no shard and has processed nothing.
    pub open spec fn empty() -> SourceStateView {
        SourceStateView {
            assigned_shard_ids: Map::empty(),
            current_positions: Map::empty(),
            shard_consumers: Set::empty(),
            num_active_shards: 0,
            num_bytes_processed: 0,
            num_records_processed: 0,
            num_invalid_records: 0,
        }
    }

    /// How far a shard has been read.
    pub open spec fn position_of(self, shard_id: Seq<char>) -> PositionView {
        if self.current_positions.contains_key(shard_id) {
            self.current_positions[shard_id]
        } else {
            PositionView::Beginning
        }
    }

    /// Whether a consumer can be started for a shard: it has none.
    pub open spec fn can_spawn(self, shard_id: Seq<char>) -> bool {
        !self.shard_consumers.contains(shard_id)
    }

    /// The state once the consumer of `shard_id` is running.
    pub open spec fn with_consumer(self, shard_id: Seq<char>) -> SourceStateView {
        SourceStateView { shard_consumers: self.shard_consumers.insert(shard_id), ..self }
    }

    /// The state once the consumers of `shard_ids` are running and counted.
    pub open spec fn with_child_shards(self, shard_ids: Seq<Seq<char>>) -> SourceStateView {
        SourceStateView {
            shard_consumers: self.shard_consumers.union(shard_ids.to_set()),
            num_active_shards: self.num_active_shards + shard_ids.len(),
            ..self
        }
    }

    /// The state once the consumer of `shard_id` came to its end.
    pub open spec fn with_shard_ended(self, shard_id: Seq<char>) -> SourceStateView {
        SourceStateView {
            shard_consumers: self.shard_consumers.remove(shard_id),
            num_active_shards: (self.num_active_shards - 1) as nat,
            ..self
        }
    }

    /// The state once `records` of the shard were processed. The shard's
    /// position moves to the last record, if the shard is assigned.
    pub open spec fn with_records(
        self,
        shard_id: Seq<char>,
        records: Seq<RecordView>,
    ) -> SourceStateView {
        SourceStateView {
            current_positions: if records.len() > 0 && self.assigned_shard_ids.contains_key(
                shard_id,
            ) {
                self.current_positions.insert(
                    shard_id,
                    PositionView::parse(records.last().sequence_number),
                )
            } else {
                self.current_positions
            },
            num_bytes_processed: self.num_bytes_processed + num_bytes_of(records),
            num_records_processed: self.num_records_processed + records.len(),
            num_invalid_records: self.num_invalid_records + num_invalid_of(records),
            ..self
        }
    }

    /// The state once what was received is dealt with.
    pub open spec fn after(self, message: Option<MessageView>) -> SourceStateView {
        match message {
            None => self,
            Some(MessageView::ChildShards(shard_ids)) => self.with_child_shards(shard_ids),
            Some(MessageView::Records { shard_id, records }) => self.with_records(
                shard_id,
                records,
            ),
            Some(MessageView::ShardClosed(shard_id)) => self.with_shard_ended(shard_id),
            Some(MessageView::ShardEOF(shard_id)) => self.with_shard_ended(shard_id),
        }
    }

    /// The step to record for a message: there is one exactly if the message
    /// brings records of an assigned shard.
    pub open spec fn delta_for(self, message: Option<MessageView>) -> Option<PartitionDeltaView> {
        match message {
            Some(MessageView::Records { shard_id, records }) => {
                if records.len() > 0 && self.assigned_shard_ids.contains_key(shard_id) {
                    Some(
                        PartitionDeltaView {
                            partition_id: self.assigned_shard_ids[shard_id],
                            from: self.position_of(shard_id),
                            to: PositionView::parse(records.last().sequence_number),
                        },
                    )
                } else {
                    None
                }
            },
            _ => None,
        }
    }

    /// Whether a message brings records of a shard that is not assigned.
    pub open spec fn refuses(self, message: Option<MessageView>) -> bool {
        match message {
            Some(MessageView::Records { shard_id, records }) => {
                records.len() > 0 && !self.assigned_shard_ids.contains_key(shard_id)
            },
            _ => false,
        }
    }

    /// Whether what was received can be dealt with: no consumer is started for
    /// a shard that has one, no more shards end than are active, and every
    /// counter has room.
    pub open spec fn accepts(self, batch: BatchView, message: Option<MessageView>) -> bool {
        match message {
            None => true,
            Some(MessageView::ChildShards(shard_ids)) => {
                &&& shard_ids.no_duplicates()
                &&& shard_ids.to_set().disjoint(self.shard_consumers)
                &&& self.num_active_shards + shard_ids.len() <= usize::MAX
            },
            Some(MessageView::Records { shard_id, records }) => {
                &&& batch.num_bytes + num_bytes_of(records) <= u64::MAX
                &&& self.num_bytes_processed + num_bytes_of(records) <= u64::MAX
                &&& self.num_records_processed + records.len() <= u64::MAX
                &&& self.num_invalid_records + num_invalid_of(records) <= u64::MAX
            },
            Some(MessageView::ShardClosed(shard_id)) => self.num_active_shards > 0,
            Some(MessageView::ShardEOF(shard_id)) => self.num_active_shards > 0,
        }
    }
}

impl BatchView {
    /// The batch once what was received is dealt with.
    pub open spec fn after(self, message: Option<MessageView>) -> BatchView {
        match message {
            Some(MessageView::Records { shard_id, records }) => BatchView {
                docs: self.docs + docs_of(records),
                num_bytes: self.num_bytes + num_bytes_of(records),
            },
            _ => self,
        }
    }
}

} // verus!
