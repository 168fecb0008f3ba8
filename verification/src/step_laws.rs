//! What a single step of a source does, told by the records and shards it is about.

use vstd::prelude::*;
use vstd::utf8::{decode_utf8, valid_utf8};

use crate::batch::{BatchBuilder, BatchView};
use crate::checkpoint::PositionView;
use crate::message::{
    docs_of, lemma_docs_and_invalid, lemma_records_add, lemma_records_push, num_bytes_of,
    num_invalid_of, params_views, received, ActionView, EmitError, MessageAction,
    MessageView, Record, RecordView, ShardConsumerMessage, ShardConsumerParams,
};
use crate::shard_map::enumerates;
use crate::source::{initial_state, lists_ascending, lists_positions, KinesisSourceView};
use crate::state::SourceStateView;
use crate::strings::{joined, text_le, texts};

verus! {

/// Every record that is not empty and is UTF-8 gives the document that its bytes
/// decode to, however long it is, and does not count as invalid.
pub proof fn law_valid_record_gives_its_document(record: RecordView)
    requires
        record.data.len() > 0,
        valid_utf8(record.data),
    ensures
        docs_of(seq![record]) == seq![decode_utf8(record.data)],
        num_invalid_of(seq![record]) == 0,
        num_bytes_of(seq![record]) == record.data.len(),
{
    lemma_single_record(record);
}

/// A record that is empty or is not UTF-8 gives no document and counts as
/// invalid; its bytes count all the same.
pub proof fn law_invalid_record_gives_no_document(record: RecordView)
    requires
        record.data.len() == 0 || !valid_utf8(record.data),
    ensures
        docs_of(seq![record]) == Seq::<Seq<char>>::empty(),
        num_invalid_of(seq![record]) == 1,
        num_bytes_of(seq![record]) == record.data.len(),
{
    lemma_single_record(record);
}

/// What records give is what each of them gives, in order: no records give
/// nothing, and the records of two runs give what the first gives and then what
/// the second gives.
pub proof fn law_records_add_up(a: Seq<RecordView>, b: Seq<RecordView>)
    ensures
        docs_of(Seq::empty()) == Seq::<Seq<char>>::empty(),
        num_invalid_of(Seq::empty()) == 0,
        num_bytes_of(Seq::empty()) == 0,
        docs_of(a + b) == docs_of(a) + docs_of(b),
        num_invalid_of(a + b) == num_invalid_of(a) + num_invalid_of(b),
        num_bytes_of(a + b) == num_bytes_of(a) + num_bytes_of(b),
{
    reveal(Seq::filter);
    assert(docs_of(Seq::empty()) =~= Seq::<Seq<char>>::empty());
    lemma_records_add(a, b);
    lemma_docs_and_invalid(a);
    lemma_docs_and_invalid(b);
    lemma_docs_and_invalid(a + b);
}

/// Records of an assigned shard move the shard's position to the last of them:
/// the text of the position is the whole sequence number of that record. The
/// step to record leads there from where the shard stood.
pub proof fn law_position_is_the_last_sequence_number(
    state: SourceStateView,
    shard_id: Seq<char>,
    records: Seq<RecordView>,
)
    requires
        records.len() > 0,
        state.assigned_shard_ids.contains_key(shard_id),
    ensures
        ({
            let message = Some(MessageView::Records { shard_id, records });
            let next = state.after(message);
            &&& next.current_positions.contains_key(shard_id)
            &&& next.current_positions[shard_id].text() == records[records.len()
                - 1].sequence_number
            &&& next.position_of(shard_id).text() == records[records.len() - 1].sequence_number
            &&& state.delta_for(message) matches Some(delta)
            &&& delta.partition_id == state.assigned_shard_ids[shard_id]
            &&& delta.from.text() == (if state.current_positions.contains_key(shard_id) {
                state.current_positions[shard_id].text()
            } else {
                Seq::empty()
            })
            &&& state.current_positions.contains_key(shard_id) ==> delta.from
                == state.current_positions[shard_id]
            &&& !state.current_positions.contains_key(shard_id) ==> delta.from is Beginning
            &&& delta.to == next.current_positions[shard_id]
            &&& delta.to.text() == records[records.len() - 1].sequence_number
            &&& records[records.len() - 1].sequence_number.len() > 0 ==> delta.to is Offset
        }),
{
}

/// Records change no position but that of their shard, and not even that one if
/// there are none or the shard is not assigned. They leave the assignment and
/// the consumers alone, and every counter grows by what the records hold.
pub proof fn law_records_change_nothing_else(
    state: SourceStateView,
    batch: BatchView,
    shard_id: Seq<char>,
    records: Seq<RecordView>,
)
    ensures
        ({
            let message = Some(MessageView::Records { shard_id, records });
            let next = state.after(message);
            &&& forall|other: Seq<char>|
                other != shard_id ==> {
                    &&& (#[trigger] next.current_positions.contains_key(other)
                        <==> state.current_positions.contains_key(other))
                    &&& next.current_positions.contains_key(other)
                        ==> next.current_positions[other] == state.current_positions[other]
                    &&& next.position_of(other) == state.position_of(other)
                }
            &&& records.len() == 0 || !state.assigned_shard_ids.contains_key(shard_id) ==> {
                &&& next.current_positions == state.current_positions
                &&& state.delta_for(message) is None
            }
            &&& next.assigned_shard_ids == state.assigned_shard_ids
            &&& next.shard_consumers == state.shard_consumers
            &&& next.num_active_shards == state.num_active_shards
            &&& next.num_bytes_processed == state.num_bytes_processed + num_bytes_of(records)
            &&& next.num_records_processed == state.num_records_processed + records.len()
            &&& next.num_invalid_records == state.num_invalid_records + num_invalid_of(records)
            &&& batch.after(message).docs == batch.docs + docs_of(records)
            &&& batch.after(message).num_bytes == batch.num_bytes + num_bytes_of(records)
        }),
{
}

/// Records that come in two messages have the effect that they have in one, and
/// the two steps lead where the one step leads.
pub proof fn law_records_can_be_split(
    state: SourceStateView,
    batch: BatchView,
    shard_id: Seq<char>,
    a: Seq<RecordView>,
    b: Seq<RecordView>,
)
    requires
        a.len() > 0,
        b.len() > 0,
    ensures
        ({
            let whole = Some(MessageView::Records { shard_id, records: a + b });
            let first = Some(MessageView::Records { shard_id, records: a });
            let second = Some(MessageView::Records { shard_id, records: b });
            &&& state.after(whole) == state.after(first).after(second)
            &&& batch.after(whole) == batch.after(first).after(second)
            &&& state.refuses(whole) <==> state.refuses(first)
            &&& state.refuses(whole) <==> state.after(first).refuses(second)
            &&& state.assigned_shard_ids.contains_key(shard_id) ==> {
                let one = state.delta_for(whole)->0;
                let step1 = state.delta_for(first)->0;
                let step2 = state.after(first).delta_for(second)->0;
                one.from == step1.from && step1.to == step2.from && step2.to == one.to
            }
        }),
{
    law_records_add_up(a, b);
    assert((a + b).last() == b.last());
    let whole = Some(MessageView::Records { shard_id, records: a + b });
    let first = Some(MessageView::Records { shard_id, records: a });
    let second = Some(MessageView::Records { shard_id, records: b });
    assert(state.after(whole) =~= state.after(first).after(second));
    assert(batch.after(whole) =~= batch.after(first).after(second));
}

/// Records are refused exactly if there are some and their shard is not assigned;
/// nothing else that is received is refused.
pub proof fn law_only_records_of_unassigned_shards_are_refused(
    state: SourceStateView,
    message: Option<MessageView>,
)
    ensures
        state.refuses(message) <==> {
            &&& message matches Some(MessageView::Records { shard_id, records })
            &&& records.len() > 0
            &&& !state.assigned_shard_ids.contains_key(shard_id)
        },
{
}

/// Child shards, one or many, each get a consumer, in order, and each counts as
/// active: exactly they join the running consumers, and for each of them a
/// consumer is asked for. Nothing else changes.
pub proof fn law_every_child_shard_gets_a_consumer(
    source: KinesisSourceView,
    batch: BatchView,
    shard_ids: Seq<Seq<char>>,
)
    ensures
        ({
            let message = Some(MessageView::ChildShards(shard_ids));
            let next = source.state.after(message);
            &&& source.action(message) matches ActionView::Spawn(params)
            &&& params.len() == shard_ids.len()
            &&& forall|i: int|
                0 <= i < shard_ids.len() ==> {
                    &&& (#[trigger] params[i]).shard_id == shard_ids[i]
                    &&& params[i].stream_name == source.stream_name
                    &&& params[i].shutdown_at_shard_eof
                    &&& params[i] == source.consumer_params(shard_ids[i])
                }
            &&& forall|id: Seq<char>| #[trigger]
                next.shard_consumers.contains(id) <==> source.state.shard_consumers.contains(id)
                    || shard_ids.contains(id)
            &&& forall|id: Seq<char>|
                #[trigger] next.shard_consumers.contains(id)
                    && !source.state.shard_consumers.contains(id) ==> exists|i: int|
                    0 <= i < params.len() && (#[trigger] params[i]).shard_id == id
            &&& next.num_active_shards == source.state.num_active_shards + shard_ids.len()
            &&& next.assigned_shard_ids == source.state.assigned_shard_ids
            &&& next.current_positions == source.state.current_positions
            &&& next.num_bytes_processed == source.state.num_bytes_processed
            &&& next.num_records_processed == source.state.num_records_processed
            &&& next.num_invalid_records == source.state.num_invalid_records
            &&& batch.after(message) == batch
            &&& source.state.delta_for(message) is None
        }),
{
    let message = Some(MessageView::ChildShards(shard_ids));
    let next = source.state.after(message);
    let params = source.action(message)->Spawn_0;
    assert forall|id: Seq<char>|
        #[trigger] next.shard_consumers.contains(id) && !source.state.shard_consumers.contains(
            id,
        ) implies exists|i: int| 0 <= i < params.len() && (#[trigger] params[i]).shard_id == id by {
        assert(shard_ids.contains(id));
        let i = choose|i: int| 0 <= i < shard_ids.len() && shard_ids[i] == id;
        assert(params[i].shard_id == id);
    }
}

/// Child shards that come in two messages have the effect that they have in one.
pub proof fn law_child_shards_can_be_split(
    source: KinesisSourceView,
    a: Seq<Seq<char>>,
    b: Seq<Seq<char>>,
)
    ensures
        ({
            let whole = Some(MessageView::ChildShards(a + b));
            let first = Some(MessageView::ChildShards(a));
            let second = Some(MessageView::ChildShards(b));
            let between = KinesisSourceView { state: source.state.after(first), ..source };
            &&& source.state.after(whole) == source.state.after(first).after(second)
            &&& source.action(whole) is Spawn
            &&& source.action(first) is Spawn
            &&& between.action(second) is Spawn
            &&& source.action(whole)->Spawn_0 == source.action(first)->Spawn_0 + between.action(
                second,
            )->Spawn_0
        }),
{
    let whole = Some(MessageView::ChildShards(a + b));
    let first = Some(MessageView::ChildShards(a));
    let second = Some(MessageView::ChildShards(b));
    let between = KinesisSourceView { state: source.state.after(first), ..source };
    assert forall|id: Seq<char>| #[trigger]
        (a + b).contains(id) <==> a.contains(id) || b.contains(id) by {
        if a.contains(id) {
            let i = choose|i: int| 0 <= i < a.len() && a[i] == id;
            assert((a + b)[i] == id);
        }
        if b.contains(id) {
            let i = choose|i: int| 0 <= i < b.len() && b[i] == id;
            assert((a + b)[a.len() + i] == id);
        }
    }
    assert((a + b).to_set() =~= a.to_set().union(b.to_set()));
    assert(source.state.after(whole) =~= source.state.after(first).after(second));
    assert(source.action(whole)->Spawn_0 =~= source.action(first)->Spawn_0 + between.action(
        second,
    )->Spawn_0);
}

/// A shard that comes to its end, closed or not, loses its consumer and no longer
/// counts as active; its consumer is let go of. Nothing else changes.
pub proof fn law_ended_shard_is_released(
    source: KinesisSourceView,
    batch: BatchView,
    message: Option<MessageView>,
    shard_id: Seq<char>,
)
    requires
        message == Some(MessageView::ShardClosed(shard_id)) || message == Some(
            MessageView::ShardEOF(shard_id),
        ),
        source.state.num_active_shards > 0,
    ensures
        ({
            let next = source.state.after(message);
            &&& source.action(message) == ActionView::Release(shard_id)
            &&& next.num_active_shards + 1 == source.state.num_active_shards
            &&& forall|id: Seq<char>| #[trigger]
                next.shard_consumers.contains(id) <==> source.state.shard_consumers.contains(id)
                    && id != shard_id
            &&& next.assigned_shard_ids == source.state.assigned_shard_ids
            &&& next.current_positions == source.state.current_positions
            &&& next.num_bytes_processed == source.state.num_bytes_processed
            &&& next.num_records_processed == source.state.num_records_processed
            &&& next.num_invalid_records == source.state.num_invalid_records
            &&& batch.after(message) == batch
            &&& source.state.delta_for(message) is None
        }),
{
}

/// A closed channel changes nothing and asks for nothing.
pub proof fn law_closed_channel_changes_nothing(source: KinesisSourceView, batch: BatchView)
    ensures
        source.state.after(None) == source.state,
        batch.after(None) == batch,
        source.action(None) is Proceed,
        source.state.delta_for(None) is None,
        source.state.accepts(batch, None),
{
}

/// A step is asked to be recorded exactly if some records of an assigned shard
/// came, and it is then the step from where the shard stood.
pub proof fn law_recorded_step_is_asked_for(
    source: KinesisSourceView,
    shard_id: Seq<char>,
    records: Seq<RecordView>,
)
    ensures
        ({
            let action = source.action(Some(MessageView::Records { shard_id, records }));
            if records.len() > 0 && source.state.assigned_shard_ids.contains_key(shard_id) {
                &&& action matches ActionView::Record(delta)
                &&& delta.partition_id == source.state.assigned_shard_ids[shard_id]
                &&& delta.from == source.state.position_of(shard_id)
                &&& delta.to.text() == records[records.len() - 1].sequence_number
            } else {
                action is Proceed
            }
        }),
{
}

/// What was received can be dealt with exactly in these cases: child shards that
/// differ from one another and have no consumer yet, records for which every
/// counter has room, the end of a shard while one is active, a closed channel.
pub proof fn law_what_is_accepted(
    state: SourceStateView,
    batch: BatchView,
    shard_id: Seq<char>,
    shard_ids: Seq<Seq<char>>,
    records: Seq<RecordView>,
)
    ensures
        state.accepts(batch, Some(MessageView::ChildShards(shard_ids))) <==> {
            &&& forall|i: int, j: int|
                0 <= i < j < shard_ids.len() ==> #[trigger] shard_ids[i] != #[trigger] shard_ids[j]
            &&& forall|i: int|
                0 <= i < shard_ids.len() ==> !state.shard_consumers.contains(
                    #[trigger] shard_ids[i],
                )
            &&& state.num_active_shards + shard_ids.len() <= usize::MAX
        },
        state.accepts(batch, Some(MessageView::Records { shard_id, records })) <==> {
            &&& batch.num_bytes + num_bytes_of(records) <= u64::MAX
            &&& state.num_bytes_processed + num_bytes_of(records) <= u64::MAX
            &&& state.num_records_processed + records.len() <= u64::MAX
            &&& state.num_invalid_records + num_invalid_of(records) <= u64::MAX
        },
        state.accepts(batch, Some(MessageView::ShardClosed(shard_id))) <==> 1
            <= state.num_active_shards,
        state.accepts(batch, Some(MessageView::ShardEOF(shard_id))) <==> 1
            <= state.num_active_shards,
        state.accepts(batch, None),
{
    if state.accepts(batch, Some(MessageView::ChildShards(shard_ids))) {
        assert forall|i: int| 0 <= i < shard_ids.len() implies !state.shard_consumers.contains(
            #[trigger] shard_ids[i],
        ) by {
            assert(shard_ids.to_set().contains(shard_ids[i]));
        }
    }
}

/// The consumer of a shard is started on the source's stream. It reads on after
/// the position of the shard, whatever its text, or from the first record where
/// no position is known, and it stops at the end of the shard.
pub proof fn law_consumer_reads_on_from_position(source: KinesisSourceView, shard_id: Seq<char>)
    ensures
        ({
            let params = source.consumer_params(shard_id);
            &&& params.stream_name == source.stream_name
            &&& params.shard_id == shard_id
            &&& params.shutdown_at_shard_eof
            &&& params.from_sequence_number_exclusive is Some
                <==> source.state.current_positions.contains_key(shard_id)
            &&& params.from_sequence_number_exclusive matches Some(from) ==> from
                == source.state.current_positions[shard_id].text()
        }),
{
}

/// A consumer that is started for a shard after records of it were received reads
/// on right after the last of them.
pub proof fn law_consumer_reads_on_after_last_record(
    source: KinesisSourceView,
    shard_id: Seq<char>,
    records: Seq<RecordView>,
)
    requires
        records.len() > 0,
        source.state.assigned_shard_ids.contains_key(shard_id),
    ensures
        (KinesisSourceView {
            state: source.state.after(Some(MessageView::Records { shard_id, records })),
            ..source
        }).consumer_params(shard_id).from_sequence_number_exclusive == Some(
            records[records.len() - 1].sequence_number,
        ),
{
}

/// A consumer can be started for a shard exactly if it has none, and starting it
/// adds it to the running consumers and does nothing else.
pub proof fn law_started_consumer_is_running(state: SourceStateView, shard_id: Seq<char>)
    ensures
        state.can_spawn(shard_id) <==> !state.shard_consumers.contains(shard_id),
        forall|id: Seq<char>| #[trigger]
            state.with_consumer(shard_id).shard_consumers.contains(id)
                <==> state.shard_consumers.contains(id) || id == shard_id,
        state.with_consumer(shard_id).assigned_shard_ids == state.assigned_shard_ids,
        state.with_consumer(shard_id).current_positions == state.current_positions,
        state.with_consumer(shard_id).num_active_shards == state.num_active_shards,
        state.with_consumer(shard_id).num_bytes_processed == state.num_bytes_processed,
        state.with_consumer(shard_id).num_records_processed == state.num_records_processed,
        state.with_consumer(shard_id).num_invalid_records == state.num_invalid_records,
{
}

/// A new source is assigned exactly the listed shards, each a partition of its
/// own and each counted once as active. It resumes each from the position that
/// the checkpoint holds for it, and has processed nothing and started nothing.
pub proof fn law_new_source_takes_the_listed_shards(
    listed: Seq<Seq<char>>,
    checkpoint: Map<Seq<char>, PositionView>,
)
    ensures
        ({
            let state = initial_state(listed.to_set(), checkpoint);
            &&& forall|id: Seq<char>| #[trigger]
                state.assigned_shard_ids.contains_key(id) <==> listed.contains(id)
            &&& forall|id: Seq<char>| #[trigger]
                state.assigned_shard_ids.contains_key(id) ==> state.assigned_shard_ids[id] == id
            &&& forall|id: Seq<char>| #[trigger]
                state.current_positions.contains_key(id) <==> listed.contains(id)
                    && checkpoint.contains_key(id)
            &&& forall|id: Seq<char>| #[trigger]
                state.current_positions.contains_key(id) ==> state.current_positions[id]
                    == checkpoint[id]
            &&& state.num_active_shards == state.assigned_shard_ids.dom().len()
            &&& listed.no_duplicates() ==> state.num_active_shards == listed.len()
            &&& forall|id: Seq<char>| !(#[trigger] state.shard_consumers.contains(id))
            &&& state.num_bytes_processed == 0
            &&& state.num_records_processed == 0
            &&& state.num_invalid_records == 0
        }),
{
    let state = initial_state(listed.to_set(), checkpoint);
    assert(state.assigned_shard_ids.dom() =~= listed.to_set());
    if listed.no_duplicates() {
        listed.unique_seq_to_set();
    }
}

/// The position of a shard is the one that is known, and the beginning where none
/// is known.
pub proof fn law_unknown_position_is_the_beginning(state: SourceStateView, shard_id: Seq<char>)
    ensures
        state.current_positions.contains_key(shard_id) ==> state.position_of(shard_id)
            == state.current_positions[shard_id],
        !state.current_positions.contains_key(shard_id) ==> state.position_of(shard_id)
            is Beginning,
        !state.current_positions.contains_key(shard_id) ==> state.position_of(shard_id).text().len()
            == 0,
{
}

/// A batch is full exactly from 5,000,000 bytes on, stays full whatever is
/// received, and is not full while it is empty.
pub proof fn law_batch_is_full_from_its_target_on(batch: BatchView, message: Option<MessageView>)
    ensures
        batch.is_full() <==> batch.num_bytes >= 5_000_000,
        batch.is_full() ==> batch.after(message).is_full(),
        BatchView::empty().num_bytes == 0,
        BatchView::empty().docs.len() == 0,
        !BatchView::empty().is_full(),
{
}

/// Records that hold the missing bytes, or more, fill a batch, however many
/// there are.
pub proof fn law_records_fill_a_batch(
    batch: BatchView,
    shard_id: Seq<char>,
    records: Seq<RecordView>,
)
    ensures
        batch.after(Some(MessageView::Records { shard_id, records })).is_full() <==> batch.num_bytes
            + num_bytes_of(records) >= 5_000_000,
{
}

/// An enumeration of a set holds each element of the set, once, and nothing else.
pub proof fn law_enumeration_is_complete(ids: Seq<Seq<char>>, set: Set<Seq<char>>)
    ensures
        enumerates(ids, set) <==> {
            &&& forall|id: Seq<char>| #[trigger] set.contains(id) <==> ids.contains(id)
            &&& forall|i: int, j: int|
                0 <= i < j < ids.len() ==> #[trigger] ids[i] != #[trigger] ids[j]
        },
{
    if forall|id: Seq<char>| #[trigger] set.contains(id) <==> ids.contains(id) {
        assert(ids.to_set() =~= set);
    }
    if enumerates(ids, set) {
        assert forall|id: Seq<char>| #[trigger] set.contains(id) <==> ids.contains(id) by {
            assert(ids.to_set().contains(id) <==> ids.contains(id));
        }
    }
}

/// An ascending listing holds each element of the set, once, and never steps down.
pub proof fn law_listing_is_complete(ids: Seq<Seq<char>>, set: Set<Seq<char>>)
    ensures
        lists_ascending(ids, set) <==> {
            &&& forall|id: Seq<char>| #[trigger] set.contains(id) <==> ids.contains(id)
            &&& forall|i: int, j: int|
                0 <= i < j < ids.len() ==> #[trigger] ids[i] != #[trigger] ids[j]
            &&& forall|i: int, j: int|
                0 <= i < j < ids.len() ==> #[trigger] text_le(ids[i], ids[j])
        },
{
    law_enumeration_is_complete(ids, set);
    assert forall|i: int, j: int|
        (forall|a: int, b: int|
            0 <= a < b < ids.len() ==> #[trigger] text_le(ids[a], ids[b])) && 0 <= i <= j
            < ids.len() implies #[trigger] text_le(ids[i], ids[j]) by {
        if i == j {
            lemma_text_le_reflexive(ids[i]);
        }
    }
}

/// The positions that are shown are those of all shards that have one, each with
/// the whole text of its position.
pub proof fn law_shown_positions_are_complete(
    entries: Seq<(String, String)>,
    positions: Map<Seq<char>, PositionView>,
)
    requires
        lists_positions(entries, positions),
    ensures
        forall|i: int|
            0 <= i < entries.len() ==> {
                &&& positions.contains_key((#[trigger] entries[i]).0@)
                &&& entries[i].1@ == positions[entries[i].0@].text()
            },
        forall|id: Seq<char>| #[trigger]
            positions.contains_key(id) ==> exists|i: int|
                0 <= i < entries.len() && (#[trigger] entries[i]).0@ == id,
        forall|i: int, j: int|
            0 <= i < j < entries.len() ==> (#[trigger] entries[i]).0@ != (
            #[trigger] entries[j]).0@ && text_le(entries[i].0@, entries[j].0@),
{
    let ids = entries.map_values(|entry: (String, String)| entry.0@);
    law_listing_is_complete(ids, positions.dom());
    assert forall|i: int| 0 <= i < entries.len() implies positions.contains_key(
        (#[trigger] entries[i]).0@,
    ) by {
        assert(ids[i] == entries[i].0@);
        assert(ids.contains(ids[i]));
    }
    assert forall|id: Seq<char>| #[trigger] positions.contains_key(id) implies exists|i: int|
        0 <= i < entries.len() && (#[trigger] entries[i]).0@ == id by {
        assert(positions.dom().contains(id));
        let i = choose|i: int| 0 <= i < ids.len() && ids[i] == id;
        assert(entries[i].0@ == id);
    }
    assert forall|i: int, j: int| 0 <= i < j < entries.len() implies (#[trigger] entries[i]).0@
        != (#[trigger] entries[j]).0@ && text_le(entries[i].0@, entries[j].0@) by {
        assert(ids[i] == entries[i].0@ && ids[j] == entries[j].0@);
        assert(text_le(ids[i], ids[j]));
    }
}

/// Texts are ordered by the first character in which they differ, and a text
/// comes before its own continuations.
pub proof fn law_text_order_is_lexicographic(
    common: Seq<char>,
    whole: Seq<char>,
    a_rest: Seq<char>,
    b_rest: Seq<char>,
    a: char,
    b: char,
)
    ensures
        text_le(common, common + a_rest),
        (a as u32) < (b as u32) ==> text_le(
            common + seq![a] + a_rest,
            common + seq![b] + b_rest,
        ),
        (a as u32) < (b as u32) ==> !text_le(
            common + seq![b] + b_rest,
            common + seq![a] + a_rest,
        ),
        whole.len() > 0 ==> !text_le(whole, Seq::empty()),
    decreases common.len(),
{
    if common.len() > 0 {
        let rest = common.drop_first();
        law_text_order_is_lexicographic(rest, whole, a_rest, b_rest, a, b);
        assert((common + a_rest).drop_first() == rest + a_rest);
        assert((common + seq![a] + a_rest).drop_first() == rest + seq![a] + a_rest);
        assert((common + seq![b] + b_rest).drop_first() == rest + seq![b] + b_rest);
        assert((common + seq![a] + a_rest).first() == common.first());
        assert((common + seq![b] + b_rest).first() == common.first());
        assert((common + a_rest).first() == common.first());
    } else {
        assert((common + seq![a] + a_rest).first() == a);
        assert((common + seq![b] + b_rest).first() == b);
    }
}

/// The error about an unassigned shard names the shard and all assigned shards,
/// in the order in which they are listed, with a comma and a space between them.
pub proof fn law_unassigned_shard_error_names_all_shards(error: EmitError)
    requires
        error is UnassignedShard,
    ensures
        ({
            let shard_id = error->UnassignedShard_shard_id@;
            let assigned = texts(error->UnassignedShard_assigned_shard_ids@);
            let start = "Received record from unassigned shard `"@ + shard_id
                + "`. Assigned shards: `{"@;
            &&& assigned.len() == 0 ==> error.spec_message() == start + "}`."@
            &&& assigned.len() == 1 ==> error.spec_message() == start + assigned[0] + "}`."@
            &&& assigned.len() > 1 ==> error.spec_message() == start + (joined(
                assigned.drop_last(),
                ", "@,
            ) + ", "@ + assigned.last()) + "}`."@
        }),
{
    let shard_id = error->UnassignedShard_shard_id@;
    let assigned = texts(error->UnassignedShard_assigned_shard_ids@);
    let start = "Received record from unassigned shard `"@ + shard_id + "`. Assigned shards: `{"@;
    if assigned.len() == 0 {
        assert(joined(assigned, ", "@) == Seq::<char>::empty());
        assert(error.spec_message() =~= start + "}`."@);
    }
}

/// Joining one more text puts the separator and the text behind what was joined.
pub proof fn law_joined_texts_grow_at_the_end(
    items: Seq<Seq<char>>,
    item: Seq<char>,
    separator: Seq<char>,
)
    ensures
        joined(Seq::empty(), separator).len() == 0,
        joined(seq![item], separator) == item,
        items.len() > 0 ==> joined(items.push(item), separator) == joined(items, separator)
            + separator + item,
{
    assert(items.push(item).drop_last() == items);
}

/// The values of actions leave nothing out.
pub proof fn law_action_views_are_whole(action: MessageAction)
    ensures
        match action {
            MessageAction::Proceed => action@ is Proceed,
            MessageAction::Spawn(params) => action@ == ActionView::Spawn(params_views(params@)),
            MessageAction::Record(delta) => action@ == ActionView::Record(delta@),
            MessageAction::Release(shard_id) => action@ == ActionView::Release(shard_id@),
        },
{
}

/// The values of messages, records and parameters leave nothing out.
pub proof fn law_message_views_are_whole(
    message: ShardConsumerMessage,
    record: Record,
    params: Seq<ShardConsumerParams>,
    batch: BatchBuilder,
)
    ensures
        record@.data == record.data@,
        record@.sequence_number == record.sequence_number@,
        received(None) is None,
        received(Some(message)) == Some(message@),
        match message {
            ShardConsumerMessage::ChildShards(shard_ids) => {
                &&& message@ matches MessageView::ChildShards(ids)
                &&& ids.len() == shard_ids@.len()
                &&& forall|i: int|
                    0 <= i < shard_ids@.len() ==> #[trigger] ids[i] == shard_ids@[i]@
            },
            ShardConsumerMessage::Records { shard_id, records } => {
                &&& message@ matches MessageView::Records { shard_id: id, records: views }
                &&& id == shard_id@
                &&& views.len() == records@.len()
                &&& forall|i: int|
                    0 <= i < records@.len() ==> {
                        &&& (#[trigger] views[i]).data == records@[i].data@
                        &&& views[i].sequence_number == records@[i].sequence_number@
                    }
            },
            ShardConsumerMessage::ShardClosed(shard_id) => message@ == MessageView::ShardClosed(
                shard_id@,
            ),
            ShardConsumerMessage::ShardEOF(shard_id) => message@ == MessageView::ShardEOF(
                shard_id@,
            ),
        },
        params_views(params).len() == params.len(),
        forall|i: int|
            0 <= i < params.len() ==> {
                let view = #[trigger] params_views(params)[i];
                &&& view.stream_name == params[i].stream_name@
                &&& view.shard_id == params[i].shard_id@
                &&& view.shutdown_at_shard_eof == params[i].shutdown_at_shard_eof
                &&& (view.from_sequence_number_exclusive is Some
                    <==> params[i].from_sequence_number_exclusive is Some)
                &&& params[i].from_sequence_number_exclusive matches Some(from)
                    ==> view.from_sequence_number_exclusive == Some(from@)
            },
        batch@.num_bytes == batch.num_bytes,
        batch@.docs.len() == batch.docs@.len(),
        forall|i: int|
            0 <= i < batch.docs@.len() ==> #[trigger] batch@.docs[i] == batch.docs@[i]@,
{
}

proof fn lemma_single_record(record: RecordView)
    ensures
        docs_of(seq![record]) == (if record.is_valid() {
            seq![decode_utf8(record.data)]
        } else {
            Seq::<Seq<char>>::empty()
        }),
        num_invalid_of(seq![record]) == (if record.is_valid() {
            0nat
        } else {
            1nat
        }),
        num_bytes_of(seq![record]) == record.data.len(),
{
    reveal(Seq::filter);
    let none = Seq::<RecordView>::empty();
    lemma_records_push(none, record);
    assert(seq![record] == none.push(record));
    assert(docs_of(none) =~= Seq::<Seq<char>>::empty());
    assert(num_invalid_of(none) == 0);
    assert(num_bytes_of(none) == 0);
    if record.is_valid() {
        assert(docs_of(seq![record]) =~= seq![decode_utf8(record.data)]);
    }
}

proof fn lemma_text_le_reflexive(text: Seq<char>)
    ensures
        text_le(text, text),
    decreases text.len(),
{
    if text.len() > 0 {
        lemma_text_le_reflexive(text.drop_first());
    }
}

} // verus!
