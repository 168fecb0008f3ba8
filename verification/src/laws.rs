//! What holds of a source over whole runs.

use vstd::prelude::*;

use crate::batch::BatchView;
use crate::checkpoint::{PartitionDeltaView, PositionView};
use crate::message::{
    docs_of, lemma_docs_and_invalid, lemma_records_add, num_bytes_of, MessageView, RecordView,
};
use crate::source::{initial_state, lists_ascending, KinesisSourceView};
use crate::state::SourceStateView;
use crate::strings::{ascending, text_le};

verus! {

/// The state of a source that was just initialized: every assigned shard has a
/// running consumer.
pub open spec fn started_state(
    shard_ids: Set<Seq<char>>,
    checkpoint: Map<Seq<char>, PositionView>,
) -> SourceStateView {
    let state = initial_state(shard_ids, checkpoint);
    SourceStateView {
        shard_consumers: state.shard_consumers.union(state.assigned_shard_ids.dom()),
        ..state
    }
}

/// The state once everything in `messages` is dealt with, in order.
pub open spec fn run(state: SourceStateView, messages: Seq<Option<MessageView>>) -> SourceStateView
    decreases messages.len(),
{
    if messages.len() == 0 {
        state
    } else {
        run(state, messages.drop_last()).after(messages.last())
    }
}

/// The batch once everything in `messages` is dealt with, in order.
pub open spec fn run_batch(batch: BatchView, messages: Seq<Option<MessageView>>) -> BatchView
    decreases messages.len(),
{
    if messages.len() == 0 {
        batch
    } else {
        run_batch(batch, messages.drop_last()).after(messages.last())
    }
}

/// The steps that are recorded while `messages` are dealt with.
pub open spec fn deltas(state: SourceStateView, messages: Seq<Option<MessageView>>) -> Seq<
    PartitionDeltaView,
>
    decreases messages.len(),
{
    if messages.len() == 0 {
        Seq::empty()
    } else {
        let before = deltas(state, messages.drop_last());
        match run(state, messages.drop_last()).delta_for(messages.last()) {
            Some(delta) => before.push(delta),
            None => before,
        }
    }
}

/// The steps of one partition.
pub open spec fn deltas_of(
    state: SourceStateView,
    messages: Seq<Option<MessageView>>,
    partition_id: Seq<char>,
) -> Seq<PartitionDeltaView> {
    deltas(state, messages).filter(|delta: PartitionDeltaView| delta.partition_id == partition_id)
}

/// `steps` lead from one position to another without a gap: each starts where
/// the one before it ended.
pub open spec fn is_chain(
    from: PositionView,
    steps: Seq<PartitionDeltaView>,
    to: PositionView,
) -> bool {
    &&& steps.len() == 0 ==> from == to
    &&& steps.len() > 0 ==> steps.first().from == from && steps.last().to == to
    &&& forall|i: int, j: int|
        #![trigger steps[i], steps[j]]
        0 <= i && j == i + 1 && j < steps.len() ==> steps[i].to == steps[j].from
}

/// Each assigned shard is a partition of its own.
pub open spec fn own_partitions(state: SourceStateView) -> bool {
    forall|shard_id: Seq<char>| #[trigger]
        state.assigned_shard_ids.contains_key(shard_id) ==> state.assigned_shard_ids[shard_id]
            == shard_id
}

/// The number of active shards is the number of running consumers.
pub open spec fn in_step(state: SourceStateView) -> bool {
    &&& state.shard_consumers.finite()
    &&& state.num_active_shards == state.shard_consumers.len()
}

/// No message tells the end of a shard whose consumer is not running.
pub open spec fn ends_running_shard(state: SourceStateView, message: Option<MessageView>) -> bool {
    match message {
        Some(MessageView::ShardClosed(shard_id)) => state.shard_consumers.contains(shard_id),
        Some(MessageView::ShardEOF(shard_id)) => state.shard_consumers.contains(shard_id),
        _ => true,
    }
}

/// A source that was just initialized has as many active shards as consumers,
/// and each of its shards is a partition of its own.
pub proof fn law_started_source_is_in_step(
    shard_ids: Set<Seq<char>>,
    checkpoint: Map<Seq<char>, PositionView>,
)
    requires
        shard_ids.finite(),
    ensures
        in_step(started_state(shard_ids, checkpoint)),
        own_partitions(started_state(shard_ids, checkpoint)),
{
    assert(started_state(shard_ids, checkpoint).shard_consumers =~= shard_ids);
}

/// Whatever is received, the source keeps as many active shards as it has
/// consumers, so long as only shards with a consumer come to an end.
pub proof fn law_source_stays_in_step(
    state: SourceStateView,
    batch: BatchView,
    message: Option<MessageView>,
)
    requires
        in_step(state),
        state.accepts(batch, message),
        ends_running_shard(state, message),
    ensures
        in_step(state.after(message)),
{
    if let Some(MessageView::ChildShards(shard_ids)) = message {
        shard_ids.unique_seq_to_set();
        vstd::seq_lib::seq_to_set_is_finite(shard_ids);
        vstd::set_lib::lemma_set_disjoint_lens(state.shard_consumers, shard_ids.to_set());
        assert(state.shard_consumers.union(shard_ids.to_set()) == state.shard_consumers
            + shard_ids.to_set());
    }
}

/// Whether a message tells the end of `shard_id`.
pub open spec fn ends_shard(message: Option<MessageView>, shard_id: Seq<char>) -> bool {
    match message {
        Some(MessageView::ShardClosed(ended)) => ended == shard_id,
        Some(MessageView::ShardEOF(ended)) => ended == shard_id,
        _ => false,
    }
}

/// Once the consumer of a shard was started, no second one can be: not for the
/// shard alone, not among child shards, and not by initializing the source anew,
/// whatever is received before the shard comes to an end.
pub proof fn law_shard_has_one_consumer(
    state: SourceStateView,
    messages: Seq<Option<MessageView>>,
    shard_id: Seq<char>,
)
    requires
        forall|i: int|
            0 <= i < messages.len() ==> !ends_shard(#[trigger] messages[i], shard_id),
    ensures
        !run(state.with_consumer(shard_id), messages).can_spawn(shard_id),
        forall|batch: BatchView, shard_ids: Seq<Seq<char>>|
            shard_ids.contains(shard_id) ==> !#[trigger] run(
                state.with_consumer(shard_id),
                messages,
            ).accepts(batch, Some(MessageView::ChildShards(shard_ids))),
        state.assigned_shard_ids.contains_key(shard_id) ==> !run(
            state.with_consumer(shard_id),
            messages,
        ).assigned_shard_ids.dom().disjoint(
            run(state.with_consumer(shard_id), messages).shard_consumers,
        ),
    decreases messages.len(),
{
    let start = state.with_consumer(shard_id);
    let now = run(start, messages);
    if messages.len() > 0 {
        let before = messages.drop_last();
        assert forall|i: int| 0 <= i < before.len() implies !ends_shard(
            #[trigger] before[i],
            shard_id,
        ) by {
            assert(before[i] == messages[i]);
        }
        law_shard_has_one_consumer(state, before, shard_id);
        assert(!ends_shard(messages[messages.len() - 1], shard_id));
    }
    lemma_assignment_is_fixed(start, messages);
    assert(now.shard_consumers.contains(shard_id));
    assert forall|batch: BatchView, shard_ids: Seq<Seq<char>>|
        shard_ids.contains(shard_id) implies !#[trigger] now.accepts(
        batch,
        Some(MessageView::ChildShards(shard_ids)),
    ) by {
        assert(shard_ids.to_set().contains(shard_id));
    }
}

/// A consumer can be started for a shard once its last one came to an end.
pub proof fn law_ended_shard_can_be_read_again(
    state: SourceStateView,
    message: Option<MessageView>,
    shard_id: Seq<char>,
)
    requires
        ends_shard(message, shard_id),
    ensures
        state.after(message).can_spawn(shard_id),
{
}

/// A source only knows positions of shards that are assigned to it.
pub proof fn law_positions_stay_within_assigned_shards(
    shard_ids: Set<Seq<char>>,
    checkpoint: Map<Seq<char>, PositionView>,
    messages: Seq<Option<MessageView>>,
)
    ensures
        run(started_state(shard_ids, checkpoint), messages).current_positions.dom().subset_of(
            shard_ids,
        ),
    decreases messages.len(),
{
    if messages.len() > 0 {
        let before = messages.drop_last();
        law_positions_stay_within_assigned_shards(shard_ids, checkpoint, before);
        lemma_assignment_is_fixed(started_state(shard_ids, checkpoint), before);
    }
}

/// The steps that are recorded for a shard lead from the position at which it
/// stood to the position at which it stands, without a gap, whatever else is
/// received in between.
pub proof fn law_deltas_chain(
    state: SourceStateView,
    messages: Seq<Option<MessageView>>,
    shard_id: Seq<char>,
)
    requires
        own_partitions(state),
        state.assigned_shard_ids.contains_key(shard_id),
    ensures
        is_chain(
            state.position_of(shard_id),
            deltas_of(state, messages, shard_id),
            run(state, messages).position_of(shard_id),
        ),
    decreases messages.len(),
{
    reveal(Seq::filter);
    if messages.len() > 0 {
        let before = messages.drop_last();
        let now = run(state, before);
        law_deltas_chain(state, before, shard_id);
        lemma_assignment_is_fixed(state, before);
        if let Some(delta) = now.delta_for(messages.last()) {
            let all = deltas(state, before).push(delta);
            assert(all.drop_last() == deltas(state, before));
        }
    }
}

/// After a restart from a checkpoint, the steps of each shard go on from the
/// position that the checkpoint holds, or from the beginning.
pub proof fn law_deltas_resume_from_checkpoint(
    shard_ids: Set<Seq<char>>,
    checkpoint: Map<Seq<char>, PositionView>,
    messages: Seq<Option<MessageView>>,
    shard_id: Seq<char>,
)
    requires
        shard_ids.contains(shard_id),
    ensures
        is_chain(
            if checkpoint.contains_key(shard_id) {
                checkpoint[shard_id]
            } else {
                PositionView::Beginning
            },
            deltas_of(started_state(shard_ids, checkpoint), messages, shard_id),
            run(started_state(shard_ids, checkpoint), messages).position_of(shard_id),
        ),
{
    law_deltas_chain(started_state(shard_ids, checkpoint), messages, shard_id);
}

/// Every record that is processed gives a document or counts as invalid, and
/// its bytes count for the source as they do for the batch.
pub proof fn law_records_are_accounted_for(
    state: SourceStateView,
    batch: BatchView,
    messages: Seq<Option<MessageView>>,
)
    ensures
        (run(state, messages).num_records_processed - state.num_records_processed) == (run_batch(
            batch,
            messages,
        ).docs.len() - batch.docs.len()) + (run(state, messages).num_invalid_records
            - state.num_invalid_records),
        run(state, messages).num_bytes_processed - state.num_bytes_processed == run_batch(
            batch,
            messages,
        ).num_bytes - batch.num_bytes,
        batch.docs.is_prefix_of(run_batch(batch, messages).docs),
    decreases messages.len(),
{
    if messages.len() > 0 {
        law_records_are_accounted_for(state, batch, messages.drop_last());
        if let Some(MessageView::Records { shard_id, records }) = messages.last() {
            lemma_docs_and_invalid(records);
        }
    }
}

/// The records that `messages` bring, in order.
pub open spec fn records_of(messages: Seq<Option<MessageView>>) -> Seq<RecordView>
    decreases messages.len(),
{
    if messages.len() == 0 {
        Seq::empty()
    } else {
        match messages.last() {
            Some(MessageView::Records { shard_id, records }) => records_of(messages.drop_last())
                + records,
            _ => records_of(messages.drop_last()),
        }
    }
}

/// None of `messages` brings records of a shard that is not assigned.
pub open spec fn none_refused(state: SourceStateView, messages: Seq<Option<MessageView>>) -> bool {
    forall|i: int| 0 <= i < messages.len() ==> !state.refuses(#[trigger] messages[i])
}

/// A batch holds the documents of all records that were received for it, in
/// order, and counts their bytes; how the records were spread over messages,
/// and what else was received, makes no difference.
pub proof fn law_batch_holds_all_documents(messages: Seq<Option<MessageView>>)
    ensures
        run_batch(BatchView::empty(), messages).docs == docs_of(records_of(messages)),
        run_batch(BatchView::empty(), messages).num_bytes == num_bytes_of(records_of(messages)),
    decreases messages.len(),
{
    reveal(Seq::filter);
    if messages.len() > 0 {
        law_batch_holds_all_documents(messages.drop_last());
        if let Some(MessageView::Records { shard_id, records }) = messages.last() {
            lemma_records_add(records_of(messages.drop_last()), records);
        }
    }
}

/// A batch without a step to record holds no document: where nothing is sent
/// on, nothing is lost.
pub proof fn law_batch_without_deltas_is_empty(
    state: SourceStateView,
    messages: Seq<Option<MessageView>>,
)
    requires
        none_refused(state, messages),
        deltas(state, messages).len() == 0,
    ensures
        run_batch(BatchView::empty(), messages) == BatchView::empty(),
        run(state, messages).current_positions == state.current_positions,
    decreases messages.len(),
{
    if messages.len() > 0 {
        let before = messages.drop_last();
        assert forall|i: int| 0 <= i < before.len() implies !state.refuses(
            #[trigger] before[i],
        ) by {
            assert(before[i] == messages[i]);
        }
        law_batch_without_deltas_is_empty(state, before);
        lemma_assignment_is_fixed(state, before);
        assert(!state.refuses(messages[messages.len() - 1]));
        if let Some(MessageView::Records { shard_id, records }) = messages.last() {
            reveal(Seq::filter);
            assert(records.len() == 0);
            assert(run_batch(BatchView::empty(), messages) =~= BatchView::empty());
        }
    }
}

/// A source that is restarted from the last step of a shard starts the shard's
/// consumer right after that step.
pub proof fn law_restart_reads_on_from_last_delta(
    state: SourceStateView,
    messages: Seq<Option<MessageView>>,
    stream_name: Seq<char>,
    shard_ids: Set<Seq<char>>,
    checkpoint: Map<Seq<char>, PositionView>,
    shard_id: Seq<char>,
)
    requires
        own_partitions(state),
        state.assigned_shard_ids.contains_key(shard_id),
        deltas_of(state, messages, shard_id).len() > 0,
        shard_ids.contains(shard_id),
        checkpoint.contains_key(shard_id),
        checkpoint[shard_id] == deltas_of(state, messages, shard_id).last().to,
    ensures
        initial_state(shard_ids, checkpoint).position_of(shard_id) == run(
            state,
            messages,
        ).position_of(shard_id),
        (KinesisSourceView {
            stream_name,
            state: initial_state(shard_ids, checkpoint),
        }).consumer_params(shard_id).from_sequence_number_exclusive == Some(
            deltas_of(state, messages, shard_id).last().to.text(),
        ),
{
    law_deltas_chain(state, messages, shard_id);
}

/// There is one way to list a set of shards in ascending order, so what a source
/// lets be seen does not depend on the order in which its shards came in.
pub proof fn law_listing_is_unique(
    a: Seq<Seq<char>>,
    b: Seq<Seq<char>>,
    shard_ids: Set<Seq<char>>,
)
    requires
        lists_ascending(a, shard_ids),
        lists_ascending(b, shard_ids),
    ensures
        a == b,
    decreases a.len(),
{
    a.unique_seq_to_set();
    b.unique_seq_to_set();
    if a.len() > 0 {
        let top = a.last();
        assert(top == b.last()) by {
            assert(a.contains(top) && b.contains(b.last()));
            assert(a.to_set().contains(b.last()) && b.to_set().contains(top));
            let i = choose|i: int| 0 <= i < a.len() && a[i] == b.last();
            let j = choose|j: int| 0 <= j < b.len() && b[j] == top;
            assert(text_le(a[i], a[a.len() - 1]));
            assert(text_le(b[j], b[b.len() - 1]));
            lemma_text_le_antisymmetric(top, b.last());
        }
        lemma_listing_drop_last(a, shard_ids);
        lemma_listing_drop_last(b, shard_ids);
        law_listing_is_unique(a.drop_last(), b.drop_last(), shard_ids.remove(top));
        assert(a == a.drop_last().push(top));
        assert(b == b.drop_last().push(top));
    }
}

proof fn lemma_listing_drop_last(ids: Seq<Seq<char>>, set: Set<Seq<char>>)
    requires
        lists_ascending(ids, set),
        ids.len() > 0,
    ensures
        lists_ascending(ids.drop_last(), set.remove(ids.last())),
{
    let rest = ids.drop_last();
    assert(ascending(rest)) by {
        assert forall|i: int, j: int| 0 <= i <= j < rest.len() implies #[trigger] text_le(
            rest[i],
            rest[j],
        ) by {
            assert(text_le(ids[i], ids[j]));
        }
    }
    assert forall|id: Seq<char>| rest.to_set().contains(id) == set.remove(ids.last()).contains(
        id,
    ) by {
        assert(set.contains(id) == ids.contains(id));
        if rest.contains(id) {
            let k = choose|k: int| 0 <= k < rest.len() && rest[k] == id;
            assert(ids[k] == id && k != ids.len() - 1);
        }
        if ids.contains(id) && id != ids.last() {
            let k = choose|k: int| 0 <= k < ids.len() && ids[k] == id;
            assert(rest[k] == id);
        }
    }
    assert(rest.to_set() =~= set.remove(ids.last()));
}

proof fn lemma_text_le_antisymmetric(a: Seq<char>, b: Seq<char>)
    requires
        text_le(a, b),
        text_le(b, a),
    ensures
        a == b,
    decreases a.len(),
{
    if a.len() > 0 && b.len() > 0 {
        lemma_text_le_antisymmetric(a.drop_first(), b.drop_first());
        assert(a == seq![a.first()] + a.drop_first());
        assert(b == seq![b.first()] + b.drop_first());
    }
}

proof fn lemma_assignment_is_fixed(state: SourceStateView, messages: Seq<Option<MessageView>>)
    ensures
        run(state, messages).assigned_shard_ids == state.assigned_shard_ids,
    decreases messages.len(),
{
    if messages.len() > 0 {
        lemma_assignment_is_fixed(state, messages.drop_last());
    }
}

} // verus!
