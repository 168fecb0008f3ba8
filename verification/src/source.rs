//! A source that reads the shards of a Kinesis stream.

use vstd::hash_set::StringHashSet;
use vstd::prelude::*;
use vstd::utf8::decode_utf8;

use crate::batch::{BatchBuilder, EmitPlan};
use crate::checkpoint::{
    PartitionDelta, PartitionId, Position, PositionView, SourceCheckpoint,
};
use crate::message::{
    docs_of, lemma_records_prefix, lemma_records_push, num_bytes_of, num_invalid_of, params_views,
    received, record_views, ActionView, ConsumerParamsView, EmitError, MessageAction, MessageView,
    Record, ShardConsumerMessage, ShardConsumerParams,
};
use crate::shard_map::{enumerates, ShardMap};
use crate::state::SourceStateView;
use crate::strings::{ascending, decode, sorted, texts};

verus! {

/// Settings of a source.
#[derive(Debug, PartialEq, Eq)]
pub struct KinesisSourceParams {
    pub stream_name: String,
    pub region: Option<String>,
    pub endpoint: Option<String>,
}

/// State of a source.
pub struct KinesisSourceState {
    assigned_shard_ids: ShardMap<PartitionId>,
    current_positions: ShardMap<Position>,
    /// The shards whose consumers are running.
    shard_consumers: StringHashSet,
    /// Number of active shards, i.e., that have not reached EOF.
    pub num_active_shards: usize,
    /// Number of bytes processed by the source.
    pub num_bytes_processed: u64,
    /// Number of records processed by the source (including invalid messages).
    pub num_records_processed: u64,
    /// Number of invalid records, i.e., that were empty or could not be parsed.
    pub num_invalid_records: u64,
}

impl View for KinesisSourceState {
    type V = SourceStateView;

    closed spec fn view(&self) -> SourceStateView {
        SourceStateView {
            assigned_shard_ids: self.assigned_shard_ids@,
            current_positions: self.current_positions@,
            shard_consumers: self.shard_consumers@,
            num_active_shards: self.num_active_shards as nat,
            num_bytes_processed: self.num_bytes_processed as nat,
            num_records_processed: self.num_records_processed as nat,
            num_invalid_records: self.num_invalid_records as nat,
        }
    }
}

impl KinesisSourceState {
    /// The maps of the state are well formed.
    pub closed spec fn wf(&self) -> bool {
        self.assigned_shard_ids.wf() && self.current_positions.wf()
    }
}

impl Default for KinesisSourceState {
    /// The state that knows of no shard and has processed nothing.
    fn default() -> (res: Self)
        ensures
            res.wf(),
            res@ == SourceStateView::empty(),
    {
        KinesisSourceState {
            assigned_shard_ids: ShardMap::new(),
            current_positions: ShardMap::new(),
            shard_consumers: StringHashSet::new(),
            num_active_shards: 0,
            num_bytes_processed: 0,
            num_records_processed: 0,
            num_invalid_records: 0,
        }
    }
}

/// Reads the shards of a stream.
pub struct KinesisSource {
    stream_name: String,
    state: KinesisSourceState,
}

/// Mathematical value of a [`KinesisSource`].
#[verifier::ext_equal]
pub struct KinesisSourceView {
    pub stream_name: Seq<char>,
    pub state: SourceStateView,
}

impl View for KinesisSource {
    type V = KinesisSourceView;

    closed spec fn view(&self) -> KinesisSourceView {
        KinesisSourceView { stream_name: self.stream_name@, state: self.state@ }
    }
}

impl KinesisSourceView {
    /// How the consumer of a shard is started: it reads on where the shard was
    /// left, and stops where the shard has no more records.
    pub open spec fn consumer_params(self, shard_id: Seq<char>) -> ConsumerParamsView {
        ConsumerParamsView {
            stream_name: self.stream_name,
            shard_id,
            from_sequence_number_exclusive: if self.state.current_positions.contains_key(
                shard_id,
            ) {
                Some(self.state.current_positions[shard_id].text())
            } else {
                None
            },
            shutdown_at_shard_eof: true,
        }
    }

    /// What is to be done about what was received, where it is not refused.
    pub open spec fn action(self, message: Option<MessageView>) -> ActionView {
        match message {
            None => ActionView::Proceed,
            Some(MessageView::ChildShards(shard_ids)) => ActionView::Spawn(
                shard_ids.map_values(|shard_id: Seq<char>| self.consumer_params(shard_id)),
            ),
            Some(MessageView::Records { shard_id, records }) => match self.state.delta_for(
                message,
            ) {
                Some(delta) => ActionView::Record(delta),
                None => ActionView::Proceed,
            },
            Some(MessageView::ShardClosed(shard_id)) => ActionView::Release(shard_id),
            Some(MessageView::ShardEOF(shard_id)) => ActionView::Release(shard_id),
        }
    }
}

/// The state of a source that was given these shards and has not started yet:
/// each shard is a partition of its own, and reading resumes from `checkpoint`.
pub open spec fn initial_state(
    shard_ids: Set<Seq<char>>,
    checkpoint: Map<Seq<char>, PositionView>,
) -> SourceStateView {
    SourceStateView {
        assigned_shard_ids: Map::new(
            |shard_id: Seq<char>| shard_ids.contains(shard_id),
            |shard_id: Seq<char>| shard_id,
        ),
        current_positions: checkpoint.restrict(shard_ids),
        num_active_shards: shard_ids.len(),
        ..SourceStateView::empty()
    }
}

/// What a source lets be seen of its state.
#[derive(Debug, PartialEq, Eq)]
pub struct ObservableState {
    pub stream_name: String,
    pub assigned_shard_ids: Vec<String>,
    pub current_positions: Vec<(String, String)>,
    pub num_active_shards: usize,
    pub num_bytes_processed: u64,
    pub num_records_processed: u64,
    pub num_invalid_records: u64,
}

/// `ids` lists the elements of `set` in ascending order, each once.
pub open spec fn lists_ascending(ids: Seq<Seq<char>>, set: Set<Seq<char>>) -> bool {
    ascending(ids) && enumerates(ids, set)
}

/// `entries` lists the shards with a position in ascending order, each with the
/// text of its position.
pub open spec fn lists_positions(
    entries: Seq<(String, String)>,
    positions: Map<Seq<char>, PositionView>,
) -> bool {
    &&& lists_ascending(entries.map_values(|entry: (String, String)| entry.0@), positions.dom())
    &&& forall|i: int|
        0 <= i < entries.len() ==> (#[trigger] entries[i]).1@ == positions[entries[i].0@].text()
}

impl KinesisSource {
    /// The state of the source is well formed.
    pub closed spec fn wf(&self) -> bool {
        self.state.wf()
    }

    /// Instantiates a new `KinesisSource` from the outcome of listing the shards
    /// of the stream. Where listing failed, so does this, with the same error.
    pub fn try_new<E>(
        params: KinesisSourceParams,
        listed_shard_ids: Result<Vec<String>, E>,
        checkpoint: &SourceCheckpoint,
    ) -> (res: Result<Self, E>)
        ensures
            (match listed_shard_ids {
                Ok(shard_ids) => {
                    &&& res matches Ok(source)
                    &&& source.wf()
                    &&& source@ == KinesisSourceView {
                        stream_name: params.stream_name@,
                        state: initial_state(texts(shard_ids@).to_set(), checkpoint@),
                    }
                },
                Err(error) => res == Err::<Self, E>(error),
            }),
    {
        let shard_ids = match listed_shard_ids {
            Ok(shard_ids) => shard_ids,
            Err(error) => return Err(error),
        };
        let mut assigned_shard_ids: ShardMap<PartitionId> = ShardMap::new();
        let mut current_positions: ShardMap<Position> = ShardMap::new();
        for i in 0..shard_ids.len()
            invariant
                assigned_shard_ids.wf(),
                current_positions.wf(),
                assigned_shard_ids@ == initial_state(
                    texts(shard_ids@).take(i as int).to_set(),
                    checkpoint@,
                ).assigned_shard_ids,
                current_positions@ == initial_state(
                    texts(shard_ids@).take(i as int).to_set(),
                    checkpoint@,
                ).current_positions,
        {
            let ghost before = texts(shard_ids@).take(i as int);
            let ghost id = texts(shard_ids@)[i as int];
            let partition_id = PartitionId::from(shard_ids[i].clone());
            if let Some(position) = checkpoint.position_for_partition(&partition_id) {
                current_positions.insert(shard_ids[i].clone(), position.clone());
            }
            assigned_shard_ids.insert(shard_ids[i].clone(), partition_id);
            proof {
                let now = texts(shard_ids@).take(i + 1);
                assert(now == before.push(id));
                lemma_push_to_set(before, id);
                let next = initial_state(now.to_set(), checkpoint@);
                assert(assigned_shard_ids@ =~= next.assigned_shard_ids);
                assert(current_positions@ =~= next.current_positions);
            }
        }
        proof {
            assert(texts(shard_ids@).take(shard_ids@.len() as int) == texts(shard_ids@));
            assert(assigned_shard_ids@.dom() =~= texts(shard_ids@).to_set());
        }
        let num_active_shards = assigned_shard_ids.len();
        let state = KinesisSourceState {
            assigned_shard_ids,
            current_positions,
            num_active_shards,
            ..KinesisSourceState::default()
        };
        Ok(KinesisSource { stream_name: params.stream_name, state })
    }

    /// The state of the source.
    pub fn state(&self) -> (res: &KinesisSourceState)
        ensures
            res@ == self@.state,
    {
        &self.state
    }

    /// Whether [`spawn_shard_consumer`](Self::spawn_shard_consumer) can be called:
    /// the shard has no running consumer.
    pub fn can_spawn_shard_consumer(&self, shard_id: &str) -> (res: bool)
        ensures
            res == self@.state.can_spawn(shard_id@),
    {
        !self.state.shard_consumers.contains(shard_id)
    }

    /// Readies the consumer of a shard to be started: from here on it counts as
    /// running. No shard has two consumers.
    pub fn spawn_shard_consumer(&mut self, shard_id: String) -> (res: ShardConsumerParams)
        requires
            old(self).wf(),
            old(self)@.state.can_spawn(shard_id@),
        ensures
            final(self).wf(),
            final(self)@ == (KinesisSourceView {
                state: old(self)@.state.with_consumer(shard_id@),
                ..old(self)@
            }),
            res@ == old(self)@.consumer_params(shard_id@),
    {
        let from_sequence_number_exclusive = match self.state.current_positions.get(
            shard_id.as_str(),
        ) {
            Some(position) => Some(position.as_str().to_string()),
            None => None,
        };
        let res = ShardConsumerParams {
            stream_name: self.stream_name.clone(),
            shard_id: shard_id.clone(),
            from_sequence_number_exclusive,
            shutdown_at_shard_eof: true,
        };
        self.state.shard_consumers.insert(shard_id);
        res
    }

    /// Readies the consumers of `shard_ids`, in this order.
    fn spawn_shard_consumers(&mut self, shard_ids: Vec<String>) -> (res: Vec<ShardConsumerParams>)
        requires
            old(self).wf(),
            texts(shard_ids@).no_duplicates(),
            texts(shard_ids@).to_set().disjoint(old(self)@.state.shard_consumers),
        ensures
            final(self).wf(),
            final(self)@ == (KinesisSourceView {
                state: SourceStateView {
                    shard_consumers: old(self)@.state.shard_consumers.union(
                        texts(shard_ids@).to_set(),
                    ),
                    ..old(self)@.state
                },
                ..old(self)@
            }),
            params_views(res@) == texts(shard_ids@).map_values(
                |shard_id: Seq<char>| old(self)@.consumer_params(shard_id),
            ),
    {
        let mut res: Vec<ShardConsumerParams> = Vec::new();
        let ghost ids = texts(shard_ids@);
        let ghost source = self@;
        for i in 0..shard_ids.len()
            invariant
                self.wf(),
                ids == texts(shard_ids@),
                ids.no_duplicates(),
                ids.to_set().disjoint(source.state.shard_consumers),
                self@ == (KinesisSourceView {
                    state: SourceStateView {
                        shard_consumers: source.state.shard_consumers.union(
                            ids.take(i as int).to_set(),
                        ),
                        ..source.state
                    },
                    ..source
                }),
                res@.len() == i,
                forall|k: int| 0 <= k < i ==> #[trigger] res@[k]@ == source.consumer_params(ids[k]),
        {
            let ghost before = ids.take(i as int);
            proof {
                assert(ids.to_set().contains(ids[i as int])) by {
                    assert(ids.contains(ids[i as int]));
                }
                assert(!before.to_set().contains(ids[i as int]));
            }
            let params = self.spawn_shard_consumer(shard_ids[i].clone());
            proof {
                assert(params@ == source.consumer_params(ids[i as int]));
                assert(ids.take(i + 1) == before.push(ids[i as int]));
                lemma_push_to_set(before, ids[i as int]);
                assert(self@.state.shard_consumers =~= source.state.shard_consumers.union(
                    ids.take(i + 1).to_set(),
                ));
            }
            res.push(params);
        }
        proof {
            assert(ids.take(ids.len() as int) == ids);
            assert(params_views(res@) =~= ids.map_values(
                |shard_id: Seq<char>| source.consumer_params(shard_id),
            ));
        }
        res
    }

    /// Whether no shard in `shard_ids` has a running consumer or occurs twice.
    fn can_spawn(&self, shard_ids: &Vec<String>) -> (res: bool)
        ensures
            res == (texts(shard_ids@).no_duplicates() && texts(shard_ids@).to_set().disjoint(
                self@.state.shard_consumers,
            )),
    {
        let mut seen: StringHashSet = StringHashSet::new();
        let ghost ids = texts(shard_ids@);
        for i in 0..shard_ids.len()
            invariant
                ids == texts(shard_ids@),
                ids.take(i as int).no_duplicates(),
                ids.take(i as int).to_set().disjoint(self@.state.shard_consumers),
                seen@ == ids.take(i as int).to_set(),
        {
            let ghost before = ids.take(i as int);
            let ghost id = ids[i as int];
            let ghost now = ids.take(i + 1);
            proof {
                assert(now == before.push(id));
                lemma_push_to_set(before, id);
                assert(ids.contains(id));
            }
            if !self.can_spawn_shard_consumer(shard_ids[i].as_str()) {
                assert(ids.to_set().contains(id));
                return false;
            }
            if !seen.insert(shard_ids[i].clone()) {
                proof {
                    assert(before.contains(id));
                    let k = choose|k: int| 0 <= k < i && before[k] == id;
                    assert(ids[k] == ids[i as int]);
                }
                return false;
            }
            assert(!before.contains(id));
        }
        assert(ids.take(ids.len() as int) == ids);
        true
    }

    /// Whether [`initialize`](Self::initialize) can be called: no assigned shard
    /// has a running consumer.
    pub fn can_initialize(&self) -> (res: bool)
        requires
            self.wf(),
        ensures
            res == self@.state.assigned_shard_ids.dom().disjoint(self@.state.shard_consumers),
    {
        let shard_ids = self.state.assigned_shard_ids.ids();
        self.can_spawn(&shard_ids)
    }

    /// Readies one consumer for each assigned shard.
    pub fn initialize(&mut self) -> (res: Vec<ShardConsumerParams>)
        requires
            old(self).wf(),
            old(self)@.state.assigned_shard_ids.dom().disjoint(old(self)@.state.shard_consumers),
        ensures
            final(self).wf(),
            final(self)@ == (KinesisSourceView {
                state: SourceStateView {
                    shard_consumers: old(self)@.state.shard_consumers.union(
                        old(self)@.state.assigned_shard_ids.dom(),
                    ),
                    ..old(self)@.state
                },
                ..old(self)@
            }),
            enumerates(
                params_views(res@).map_values(|params: ConsumerParamsView| params.shard_id),
                old(self)@.state.assigned_shard_ids.dom(),
            ),
            forall|i: int|
                0 <= i < res@.len() ==> (#[trigger] res@[i])@ == old(self)@.consumer_params(
                    res@[i]@.shard_id,
                ),
    {
        let shard_ids = self.state.assigned_shard_ids.ids();
        let ghost ids = texts(shard_ids@);
        let ghost source = self@;
        let res = self.spawn_shard_consumers(shard_ids);
        proof {
            let views = params_views(res@);
            let expected = ids.map_values(|shard_id: Seq<char>| source.consumer_params(shard_id));
            assert(views == expected);
            assert(expected.len() == ids.len() && views.len() == res@.len());
            assert forall|i: int| 0 <= i < res@.len() implies (#[trigger] res@[i])@
                == source.consumer_params(ids[i]) by {
                assert(views[i] == res@[i]@ && expected[i] == source.consumer_params(ids[i]));
            }
            assert(views.map_values(|params: ConsumerParamsView| params.shard_id) =~= ids);
        }
        res
    }

    /// Whether [`on_message`](Self::on_message) can be called with what was received.
    pub fn accepts(&self, batch: &BatchBuilder, message: &Option<ShardConsumerMessage>) -> (res:
        bool)
        ensures
            res == self@.state.accepts(batch@, received(*message)),
    {
        match message {
            None => true,
            Some(ShardConsumerMessage::ChildShards(shard_ids)) => {
                self.state.num_active_shards <= usize::MAX - shard_ids.len() && self.can_spawn(
                    shard_ids,
                )
            },
            Some(ShardConsumerMessage::Records { shard_id, records }) => {
                match measure(records) {
                    Some((num_bytes, num_invalid)) => {
                        batch.num_bytes <= u64::MAX - num_bytes && self.state.num_bytes_processed
                            <= u64::MAX - num_bytes && self.state.num_records_processed <= u64::MAX
                            - records.len() as u64 && self.state.num_invalid_records <= u64::MAX
                            - num_invalid
                    },
                    None => false,
                }
            },
            Some(ShardConsumerMessage::ShardClosed(_)) => self.state.num_active_shards > 0,
            Some(ShardConsumerMessage::ShardEOF(_)) => self.state.num_active_shards > 0,
        }
    }

    /// Deals with what was received for a batch: updates the source and the
    /// batch, and says what is to be done before the next receive.
    ///
    /// Records of a shard that is not assigned are an error, once they have
    /// been counted and their documents taken.
    pub fn on_message(
        &mut self,
        batch: &mut BatchBuilder,
        message: Option<ShardConsumerMessage>,
    ) -> (res: Result<MessageAction, EmitError>)
        requires
            old(self).wf(),
            old(self)@.state.accepts(old(batch)@, received(message)),
        ensures
            final(self).wf(),
            final(self)@ == (KinesisSourceView {
                state: old(self)@.state.after(received(message)),
                ..old(self)@
            }),
            final(batch)@ == old(batch)@.after(received(message)),
            (match res {
                Ok(action) => {
                    &&& !old(self)@.state.refuses(received(message))
                    &&& action@ == old(self)@.action(received(message))
                },
                Err(error) => {
                    &&& old(self)@.state.refuses(received(message))
                    &&& error matches EmitError::UnassignedShard {
                        shard_id: unassigned,
                        assigned_shard_ids,
                    }
                    &&& received(message) matches Some(MessageView::Records { shard_id, records })
                    &&& unassigned@ == shard_id
                    &&& enumerates(
                        texts(assigned_shard_ids@),
                        old(self)@.state.assigned_shard_ids.dom(),
                    )
                },
            }),
    {
        match message {
            None => Ok(MessageAction::Proceed),
            Some(ShardConsumerMessage::ChildShards(shard_ids)) => {
                let num_shards = shard_ids.len();
                let params = self.spawn_shard_consumers(shard_ids);
                self.state.num_active_shards += num_shards;
                Ok(MessageAction::Spawn(params))
            },
            Some(ShardConsumerMessage::Records { shard_id, records }) => self.on_records(
                batch,
                shard_id,
                records,
            ),
            Some(ShardConsumerMessage::ShardClosed(shard_id)) => {
                self.on_shard_ended(&shard_id);
                Ok(MessageAction::Release(shard_id))
            },
            Some(ShardConsumerMessage::ShardEOF(shard_id)) => {
                self.on_shard_ended(&shard_id);
                Ok(MessageAction::Release(shard_id))
            },
        }
    }

    fn on_shard_ended(&mut self, shard_id: &String)
        requires
            old(self).wf(),
            old(self)@.state.num_active_shards > 0,
        ensures
            final(self).wf(),
            final(self)@ == (KinesisSourceView {
                state: old(self)@.state.with_shard_ended(shard_id@),
                ..old(self)@
            }),
    {
        self.state.num_active_shards -= 1;
        self.state.shard_consumers.remove(shard_id.as_str());
    }

    fn on_records(
        &mut self,
        batch: &mut BatchBuilder,
        shard_id: String,
        records: Vec<Record>,
    ) -> (res: Result<MessageAction, EmitError>)
        requires
            old(self).wf(),
            old(self)@.state.accepts(
                old(batch)@,
                Some(
                    MessageView::Records { shard_id: shard_id@, records: record_views(records@) },
                ),
            ),
        ensures
            final(self).wf(),
            final(self)@ == (KinesisSourceView {
                state: old(self)@.state.with_records(shard_id@, record_views(records@)),
                ..old(self)@
            }),
            final(batch)@.docs == old(batch)@.docs + docs_of(record_views(records@)),
            final(batch)@.num_bytes == old(batch)@.num_bytes + num_bytes_of(record_views(records@)),
            (match res {
                Ok(action) => {
                    &&& records@.len() == 0 || old(self)@.state.assigned_shard_ids.contains_key(
                        shard_id@,
                    )
                    &&& action@ == old(self)@.action(
                        Some(
                            MessageView::Records {
                                shard_id: shard_id@,
                                records: record_views(records@),
                            },
                        ),
                    )
                },
                Err(error) => {
                    &&& records@.len() > 0 && !old(self)@.state.assigned_shard_ids.contains_key(
                        shard_id@,
                    )
                    &&& error matches EmitError::UnassignedShard {
                        shard_id: unassigned,
                        assigned_shard_ids,
                    }
                    &&& unassigned@ == shard_id@
                    &&& enumerates(
                        texts(assigned_shard_ids@),
                        old(self)@.state.assigned_shard_ids.dom(),
                    )
                },
            }),
    {
        let ghost source = self@;
        let ghost initial_batch = batch@;
        let ghost all = record_views(records@);
        for i in 0..records.len()
            invariant
                all == record_views(records@),
                source.state.accepts(
                    initial_batch,
                    Some(MessageView::Records { shard_id: shard_id@, records: all }),
                ),
                self.wf(),
                self@ == (KinesisSourceView {
                    state: SourceStateView {
                        num_bytes_processed: source.state.num_bytes_processed + num_bytes_of(
                            all.take(i as int),
                        ),
                        num_records_processed: source.state.num_records_processed + i as nat,
                        num_invalid_records: source.state.num_invalid_records + num_invalid_of(
                            all.take(i as int),
                        ),
                        ..source.state
                    },
                    ..source
                }),
                batch@.docs == initial_batch.docs + docs_of(all.take(i as int)),
                batch@.num_bytes == initial_batch.num_bytes + num_bytes_of(all.take(i as int)),
        {
            let ghost before = all.take(i as int);
            let record: &Record = &records[i];
            proof {
                assert(all[i as int] == record@);
                assert(all.take(i + 1) == before.push(record@));
                lemma_records_push(before, record@);
                lemma_records_prefix(all, i + 1);
            }
            match document(record) {
                Some(doc) => {
                    let ghost docs_before = batch.docs@;
                    batch.docs.push(doc.to_string());
                    assert(texts(batch.docs@) =~= texts(docs_before).push(doc@));
                },
                None => {
                    self.state.num_invalid_records += 1;
                },
            }
            let num_bytes: u64 = record.data.len() as u64;
            batch.num_bytes += num_bytes;
            self.state.num_bytes_processed += num_bytes;
            self.state.num_records_processed += 1;
        }
        assert(all.take(all.len() as int) == all);
        if records.len() == 0 {
            return Ok(MessageAction::Proceed);
        }
        let partition_id = match self.state.assigned_shard_ids.get(shard_id.as_str()) {
            Some(partition_id) => partition_id.clone(),
            None => {
                let assigned_shard_ids = self.state.assigned_shard_ids.ids();
                return Err(EmitError::UnassignedShard { shard_id, assigned_shard_ids });
            },
        };
        let to = Position::from(records[records.len() - 1].sequence_number.clone());
        let from = match self.state.current_positions.get(shard_id.as_str()) {
            Some(position) => position.clone(),
            None => Position::Beginning,
        };
        assert(all.last() == records@.last()@);
        self.state.current_positions.insert(shard_id, to.clone());
        Ok(MessageAction::Record(PartitionDelta { partition_id, from, to }))
    }

    /// Ends a batch. Its documents are sent on if its checkpoint delta holds a
    /// step, and the source exits once no shard is active.
    pub fn finish_batch(&self, batch: BatchBuilder, checkpoint_delta_is_empty: bool) -> (res:
        EmitPlan)
        ensures
            (match res.docs {
                Some(docs) => !checkpoint_delta_is_empty && texts(docs@) == batch@.docs,
                None => checkpoint_delta_is_empty,
            }),
            res.end_of_stream <==> self@.state.num_active_shards == 0,
    {
        EmitPlan {
            docs: if checkpoint_delta_is_empty {
                None
            } else {
                Some(batch.docs)
            },
            end_of_stream: self.state.num_active_shards == 0,
        }
    }

    /// The name of the kind of source.
    pub fn name(&self) -> (res: String)
        ensures
            res@ == "KinesisSource"@,
    {
        "KinesisSource".to_string()
    }

    /// The source as it shows in diagnostics.
    pub fn fmt(&self) -> (res: String)
        ensures
            res@ == "KinesisSource { stream_name: "@ + self@.stream_name + " }"@,
    {
        let mut text = "KinesisSource { stream_name: ".to_string();
        text.append(self.stream_name.as_str());
        text.append(" }");
        text
    }

    /// What the source lets be seen of its state. The shards come in ascending
    /// order, whatever order they came in.
    pub fn observable_state(&self) -> (res: ObservableState)
        requires
            self.wf(),
        ensures
            res.stream_name@ == self@.stream_name,
            lists_ascending(
                texts(res.assigned_shard_ids@),
                self@.state.assigned_shard_ids.dom(),
            ),
            lists_positions(res.current_positions@, self@.state.current_positions),
            res.num_active_shards == self@.state.num_active_shards,
            res.num_bytes_processed == self@.state.num_bytes_processed,
            res.num_records_processed == self@.state.num_records_processed,
            res.num_invalid_records == self@.state.num_invalid_records,
    {
        let assigned_shard_ids = sorted_ids(&self.state.assigned_shard_ids);
        let shard_ids = sorted_ids(&self.state.current_positions);
        let ghost positions = self@.state.current_positions;
        let ghost ids = texts(shard_ids@);
        let mut current_positions: Vec<(String, String)> = Vec::new();
        for i in 0..shard_ids.len()
            invariant
                positions == self.state.current_positions@,
                ids == texts(shard_ids@),
                enumerates(ids, positions.dom()),
                current_positions@.len() == i,
                forall|k: int|
                    0 <= k < i ==> {
                        &&& (#[trigger] current_positions@[k]).0@ == ids[k]
                        &&& current_positions@[k].1@ == positions[ids[k]].text()
                    },
        {
            assert(positions.dom().contains(ids[i as int])) by {
                assert(ids.contains(ids[i as int]));
            }
            if let Some(position) = self.state.current_positions.get(shard_ids[i].as_str()) {
                current_positions.push((shard_ids[i].clone(), position.as_str().to_string()));
            }
        }
        assert(current_positions@.map_values(|entry: (String, String)| entry.0@) =~= ids);
        ObservableState {
            stream_name: self.stream_name.clone(),
            assigned_shard_ids,
            current_positions,
            num_active_shards: self.state.num_active_shards,
            num_bytes_processed: self.state.num_bytes_processed,
            num_records_processed: self.state.num_records_processed,
            num_invalid_records: self.state.num_invalid_records,
        }
    }
}

/// The document that a record holds, if it holds one.
fn document<'a>(record: &'a Record) -> (res: Option<&'a str>)
    ensures
        (match res {
            Some(doc) => record@.is_valid() && doc@ == decode_utf8(record@.data),
            None => !record@.is_valid(),
        }),
{
    if record.data.len() == 0 {
        return None;
    }
    decode(record.data.as_slice())
}

/// The numbers of bytes and of invalid records among `records`, where the
/// number of bytes can be told.
fn measure(records: &Vec<Record>) -> (res: Option<(u64, u64)>)
    ensures
        (match res {
            Some((num_bytes, num_invalid)) => {
                &&& num_bytes == num_bytes_of(record_views(records@))
                &&& num_invalid == num_invalid_of(record_views(records@))
            },
            None => num_bytes_of(record_views(records@)) > u64::MAX,
        }),
{
    let mut num_bytes: u64 = 0;
    let mut num_invalid: u64 = 0;
    let ghost all = record_views(records@);
    for i in 0..records.len()
        invariant
            all == record_views(records@),
            num_bytes == num_bytes_of(all.take(i as int)),
            num_invalid == num_invalid_of(all.take(i as int)),
            num_invalid <= i,
    {
        let record: &Record = &records[i];
        proof {
            assert(all.take(i + 1) == all.take(i as int).push(record@));
            lemma_records_push(all.take(i as int), record@);
            lemma_records_prefix(all, i + 1);
        }
        if num_bytes > u64::MAX - record.data.len() as u64 {
            return None;
        }
        num_bytes += record.data.len() as u64;
        if document(record).is_none() {
            num_invalid += 1;
        }
    }
    assert(all.take(all.len() as int) == all);
    Some((num_bytes, num_invalid))
}

/// The keys of a map in ascending order.
fn sorted_ids<V: View>(map: &ShardMap<V>) -> (res: Vec<String>)
    requires
        map.wf(),
    ensures
        lists_ascending(texts(res@), map@.dom()),
{
    let ids = map.ids();
    let ghost before = texts(ids@);
    let res = sorted(ids);
    proof {
        let after = texts(res@);
        before.lemma_multiset_has_no_duplicates();
        after.lemma_multiset_has_no_duplicates_conv();
        before.to_multiset_ensures();
        after.to_multiset_ensures();
        assert forall|id: Seq<char>| after.to_set().contains(id) == before.to_set().contains(
            id,
        ) by {
            assert(after.contains(id) <==> after.to_multiset().count(id) > 0);
            assert(before.contains(id) <==> before.to_multiset().count(id) > 0);
        }
        assert(after.to_set() =~= before.to_set());
    }
    res
}

proof fn lemma_push_to_set(ids: Seq<Seq<char>>, id: Seq<char>)
    ensures
        ids.push(id).to_set() == ids.to_set().insert(id),
{
    broadcast use vstd::seq_lib::group_seq_properties;

    assert(ids.push(id).to_set() =~= ids.to_set().insert(id));
}

} // verus!
