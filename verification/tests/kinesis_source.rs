use doc_ingest::batch::{on_delta_outcome, BatchBuilder, EmitPlan, TARGET_BATCH_NUM_BYTES};
use doc_ingest::checkpoint::{PartitionDelta, PartitionId, Position, SourceCheckpoint};
use doc_ingest::message::{
    EmitError, MessageAction, Record, ShardConsumerMessage, ShardConsumerParams,
};
use doc_ingest::source::{KinesisSource, KinesisSourceParams, KinesisSourceState, ObservableState};

fn make_shard_id(id: usize) -> String {
    format!("shardId-{:0>12}", id)
}

fn make_params(stream_name: &str) -> KinesisSourceParams {
    KinesisSourceParams {
        stream_name: stream_name.to_string(),
        region: None,
        endpoint: Some("http://localhost:4566".to_string()),
    }
}

fn make_checkpoint(positions: &[(String, &str)]) -> SourceCheckpoint {
    let mut checkpoint = SourceCheckpoint::default();
    for (partition_id, offset) in positions {
        checkpoint.set_position(
            PartitionId::from(partition_id.clone()),
            Position::from(offset.to_string()),
        );
    }
    checkpoint
}

fn make_source(shard_ids: &[usize], checkpoint: &SourceCheckpoint) -> KinesisSource {
    let listed: Result<Vec<String>, ()> =
        Ok(shard_ids.iter().map(|id| make_shard_id(*id)).collect());
    KinesisSource::try_new(make_params("test-kinesis-source"), listed, checkpoint).unwrap()
}

fn record(data: &[u8], sequence_number: &str) -> Record {
    Record { data: data.to_vec(), sequence_number: sequence_number.to_string() }
}

fn records(shard_id: usize, records: Vec<Record>) -> Option<ShardConsumerMessage> {
    Some(ShardConsumerMessage::Records { shard_id: make_shard_id(shard_id), records })
}

fn eof(shard_id: usize) -> Option<ShardConsumerMessage> {
    Some(ShardConsumerMessage::ShardEOF(make_shard_id(shard_id)))
}

fn closed(shard_id: usize) -> Option<ShardConsumerMessage> {
    Some(ShardConsumerMessage::ShardClosed(make_shard_id(shard_id)))
}

fn child_shards(shard_ids: &[usize]) -> Option<ShardConsumerMessage> {
    Some(ShardConsumerMessage::ChildShards(
        shard_ids.iter().map(|id| make_shard_id(*id)).collect(),
    ))
}

fn consumer(shard_id: usize, from: Option<&str>) -> ShardConsumerParams {
    ShardConsumerParams {
        stream_name: "test-kinesis-source".to_string(),
        shard_id: make_shard_id(shard_id),
        from_sequence_number_exclusive: from.map(|from| from.to_string()),
        shutdown_at_shard_eof: true,
    }
}

fn delta(shard_id: usize, from: Position, to: &str) -> PartitionDelta {
    PartitionDelta {
        partition_id: PartitionId::from(make_shard_id(shard_id)),
        from,
        to: Position::from(to.to_string()),
    }
}

fn offset(text: &str) -> Position {
    Position::Offset(text.to_string())
}

fn send(
    source: &mut KinesisSource,
    batch: &mut BatchBuilder,
    message: Option<ShardConsumerMessage>,
) -> Result<MessageAction, EmitError> {
    assert!(source.accepts(batch, &message));
    source.on_message(batch, message)
}

fn observe(
    shard_ids: &[usize],
    positions: &[(usize, &str)],
    num_active_shards: usize,
    num_bytes_processed: u64,
    num_records_processed: u64,
    num_invalid_records: u64,
) -> ObservableState {
    ObservableState {
        stream_name: "test-kinesis-source".to_string(),
        assigned_shard_ids: shard_ids.iter().map(|id| make_shard_id(*id)).collect(),
        current_positions: positions
            .iter()
            .map(|(id, text)| (make_shard_id(*id), text.to_string()))
            .collect(),
        num_active_shards,
        num_bytes_processed,
        num_records_processed,
        num_invalid_records,
    }
}

/// Emits a batch until the stream ends, with consumers that read `stream`, whose
/// entries are a shard, a sequence number and a payload. Gives the documents that
/// are sent, in order, if any are, and the deltas.
fn run_to_end(
    source: &mut KinesisSource,
    stream: &[(usize, &str, &str)],
) -> (Option<Vec<String>>, Vec<PartitionDelta>) {
    assert!(source.can_initialize());
    let mut messages: Vec<Option<ShardConsumerMessage>> = Vec::new();
    for params in source.initialize() {
        let from = params.from_sequence_number_exclusive.unwrap_or_default();
        let found: Vec<Record> = stream
            .iter()
            .filter(|(shard, number, _)| {
                make_shard_id(*shard) == params.shard_id && *number > from.as_str()
            })
            .map(|(_, number, data)| record(data.as_bytes(), number))
            .collect();
        if !found.is_empty() {
            messages.push(Some(ShardConsumerMessage::Records {
                shard_id: params.shard_id.clone(),
                records: found,
            }));
        }
        messages.push(Some(ShardConsumerMessage::ShardEOF(params.shard_id)));
    }
    let mut deltas = Vec::new();
    let mut batch = BatchBuilder::new();
    for message in messages {
        match send(source, &mut batch, message).unwrap() {
            MessageAction::Record(delta) => deltas.push(delta),
            MessageAction::Release(_) => (),
            action => panic!("unexpected {:?}", action),
        }
    }
    let plan = source.finish_batch(batch, deltas.is_empty());
    assert!(plan.end_of_stream);
    let docs = plan.docs.map(|mut docs| {
        docs.sort();
        docs
    });
    deltas.sort_by(|a, b| a.partition_id.0.cmp(&b.partition_id.0));
    (docs, deltas)
}

#[test]
fn test_kinesis_source() {
    {
        let mut source = make_source(&[0, 1, 2], &SourceCheckpoint::default());
        let (docs, deltas) = run_to_end(&mut source, &[]);
        assert!(docs.is_none());
        assert!(deltas.is_empty());
        assert_eq!(source.observable_state(), observe(&[0, 1, 2], &[], 0, 0, 0, 0));
    }
    let stream = [
        (0, "100", "Record #00"),
        (0, "101", "Record #01"),
        (1, "110", "Record #10"),
        (1, "111", "Record #11"),
        (2, "120", "Record #20"),
        (2, "121", "Record #21"),
    ];
    {
        let mut source = make_source(&[0, 1, 2], &SourceCheckpoint::default());
        let (docs, deltas) = run_to_end(&mut source, &stream);
        assert!(docs.is_some());
        assert_eq!(
            docs.unwrap(),
            vec!["Record #00", "Record #01", "Record #10", "Record #11", "Record #20", "Record #21"]
        );
        assert_eq!(
            deltas,
            vec![
                delta(0, Position::Beginning, "101"),
                delta(1, Position::Beginning, "111"),
                delta(2, Position::Beginning, "121"),
            ]
        );
        assert_eq!(
            source.observable_state(),
            observe(&[0, 1, 2], &[(0, "101"), (1, "111"), (2, "121")], 0, 60, 6, 0)
        );
    }
    {
        let checkpoint = make_checkpoint(&[(make_shard_id(1), "110"), (make_shard_id(2), "121")]);
        let mut source = make_source(&[0, 1, 2], &checkpoint);
        let (docs, deltas) = run_to_end(&mut source, &stream);
        assert!(docs.is_some());
        assert_eq!(docs.unwrap(), vec!["Record #00", "Record #01", "Record #11"]);
        assert_eq!(
            deltas,
            vec![delta(0, Position::Beginning, "101"), delta(1, offset("110"), "111")]
        );
        assert_eq!(
            source.observable_state(),
            observe(&[0, 1, 2], &[(0, "101"), (1, "111"), (2, "121")], 0, 30, 3, 0)
        );
    }
}

#[test]
fn source_takes_each_listed_shard_once() {
    let checkpoint = make_checkpoint(&[
        (make_shard_id(2), "7"),
        (make_shard_id(9), "8"),
        (make_shard_id(1), ""),
    ]);
    let source = make_source(&[2, 0, 2, 1], &checkpoint);
    assert_eq!(source.observable_state(), observe(&[0, 1, 2], &[(1, ""), (2, "7")], 3, 0, 0, 0));
}

#[test]
fn source_fails_where_listing_failed() {
    let listed: Result<Vec<String>, &str> = Err("no such stream");
    match KinesisSource::try_new(make_params("s"), listed, &SourceCheckpoint::default()) {
        Ok(_) => panic!("listing failed"),
        Err(error) => assert_eq!(error, "no such stream"),
    }
}

#[test]
fn source_without_shards_is_at_its_end() {
    let mut source = make_source(&[], &SourceCheckpoint::default());
    assert!(source.initialize().is_empty());
    assert_eq!(
        source.finish_batch(BatchBuilder::new(), true),
        EmitPlan { docs: None, end_of_stream: true }
    );
}

#[test]
fn default_state_has_processed_nothing() {
    let state = KinesisSourceState::default();
    assert_eq!(state.num_active_shards, 0);
    assert_eq!(state.num_bytes_processed, 0);
    assert_eq!(state.num_records_processed, 0);
    assert_eq!(state.num_invalid_records, 0);
}

#[test]
fn consumers_start_after_the_checkpoint() {
    let checkpoint = make_checkpoint(&[(make_shard_id(1), "42")]);
    let mut source = make_source(&[1, 0], &checkpoint);
    assert!(source.can_initialize());
    assert!(source.can_spawn_shard_consumer(&make_shard_id(0)));
    let mut params = source.initialize();
    params.sort_by(|a, b| a.shard_id.cmp(&b.shard_id));
    assert_eq!(params, vec![consumer(0, None), consumer(1, Some("42"))]);
    assert!(!source.can_initialize());
    assert_eq!(source.observable_state().num_active_shards, 2);
}

#[test]
fn child_shards_get_consumers_and_count_as_active() {
    let mut source = make_source(&[0], &SourceCheckpoint::default());
    source.initialize();
    let mut batch = BatchBuilder::new();
    assert_eq!(
        send(&mut source, &mut batch, child_shards(&[4, 3])),
        Ok(MessageAction::Spawn(vec![consumer(4, None), consumer(3, None)]))
    );
    assert_eq!(source.observable_state().num_active_shards, 3);
    assert_eq!(source.observable_state().assigned_shard_ids, vec![make_shard_id(0)]);
    assert!(!source.accepts(&batch, &child_shards(&[3])));
    assert!(!source.accepts(&batch, &child_shards(&[0])));
    assert!(!source.accepts(&batch, &child_shards(&[5, 6, 5])));
    assert!(source.accepts(&batch, &child_shards(&[5, 6])));
    assert!(source.accepts(&batch, &child_shards(&[])));
}

#[test]
fn one_consumer_is_readied_at_a_time() {
    let checkpoint = make_checkpoint(&[(make_shard_id(0), "9")]);
    let mut source = make_source(&[0], &checkpoint);
    assert!(source.can_spawn_shard_consumer(&make_shard_id(0)));
    assert_eq!(source.spawn_shard_consumer(make_shard_id(0)), consumer(0, Some("9")));
    assert!(!source.can_spawn_shard_consumer(&make_shard_id(0)));
    assert!(source.can_spawn_shard_consumer(&make_shard_id(1)));
    assert!(!source.can_initialize());
    assert_eq!(source.observable_state().num_active_shards, 1);
}

#[test]
fn shards_that_end_are_released() {
    let mut source = make_source(&[0, 1], &SourceCheckpoint::default());
    source.initialize();
    let mut batch = BatchBuilder::new();
    assert_eq!(
        send(&mut source, &mut batch, closed(0)),
        Ok(MessageAction::Release(make_shard_id(0)))
    );
    assert_eq!(source.observable_state().num_active_shards, 1);
    assert!(source.accepts(&batch, &child_shards(&[0])));
    assert!(!source.finish_batch(BatchBuilder::new(), true).end_of_stream);
    assert_eq!(send(&mut source, &mut batch, eof(1)), Ok(MessageAction::Release(make_shard_id(1))));
    assert_eq!(source.observable_state().num_active_shards, 0);
    assert!(source.finish_batch(BatchBuilder::new(), true).end_of_stream);
    assert!(!source.accepts(&batch, &eof(1)));
    assert!(!source.accepts(&batch, &closed(1)));
}

#[test]
fn active_shards_are_the_running_consumers() {
    let mut source = make_source(&[0, 1], &SourceCheckpoint::default());
    source.initialize();
    let mut batch = BatchBuilder::new();
    let steps = [
        (child_shards(&[2, 3]), 4),
        (closed(0), 3),
        (None, 3),
        (eof(3), 2),
        (child_shards(&[0]), 3),
        (records(1, vec![record(b"a", "1")]), 3),
        (closed(1), 2),
        (eof(0), 1),
        (eof(2), 0),
    ];
    for (message, num_active_shards) in steps {
        send(&mut source, &mut batch, message).unwrap();
        assert_eq!(source.observable_state().num_active_shards, num_active_shards);
    }
}

#[test]
fn closed_channel_changes_nothing() {
    let mut source = make_source(&[0], &SourceCheckpoint::default());
    let mut batch = BatchBuilder::new();
    assert_eq!(send(&mut source, &mut batch, None), Ok(MessageAction::Proceed));
    assert_eq!(source.observable_state(), observe(&[0], &[], 1, 0, 0, 0));
    assert!(batch.docs.is_empty());
}

#[test]
fn invalid_and_empty_records_are_counted_and_dropped() {
    let mut source = make_source(&[0], &SourceCheckpoint::default());
    let mut batch = BatchBuilder::new();
    let action = send(
        &mut source,
        &mut batch,
        records(
            0,
            vec![
                record(b"one", "1"),
                record(&[0xc3, 0x28], "2"),
                record(b"", "3"),
                record("d\u{e9}".as_bytes(), "4"),
                record(&[0xff], "5"),
            ],
        ),
    );
    assert_eq!(action, Ok(MessageAction::Record(delta(0, Position::Beginning, "5"))));
    assert_eq!(batch.docs, vec!["one", "d\u{e9}"]);
    assert_eq!(batch.num_bytes, 9);
    assert_eq!(source.observable_state(), observe(&[0], &[(0, "5")], 1, 9, 5, 3));
}

#[test]
fn deltas_of_a_shard_form_a_chain() {
    let mut source = make_source(&[0, 1], &make_checkpoint(&[(make_shard_id(0), "10")]));
    let mut batch = BatchBuilder::new();
    let mut steps = Vec::new();
    for (shard, number) in [(0, "11"), (1, "21"), (0, "12"), (0, "15"), (1, "22")] {
        match send(&mut source, &mut batch, records(shard, vec![record(b"x", number)])) {
            Ok(MessageAction::Record(delta)) => steps.push(delta),
            other => panic!("unexpected {:?}", other),
        }
    }
    assert_eq!(
        steps,
        vec![
            delta(0, offset("10"), "11"),
            delta(1, Position::Beginning, "21"),
            delta(0, offset("11"), "12"),
            delta(0, offset("12"), "15"),
            delta(1, offset("21"), "22"),
        ]
    );
}

#[test]
fn no_records_mean_no_delta_even_for_an_unassigned_shard() {
    let mut source = make_source(&[0], &SourceCheckpoint::default());
    let mut batch = BatchBuilder::new();
    assert_eq!(send(&mut source, &mut batch, records(5, vec![])), Ok(MessageAction::Proceed));
    assert_eq!(source.observable_state(), observe(&[0], &[], 1, 0, 0, 0));
}

#[test]
fn records_of_an_unassigned_shard_are_an_error() {
    let mut source = make_source(&[0, 1], &SourceCheckpoint::default());
    let mut batch = BatchBuilder::new();
    let error = send(&mut source, &mut batch, records(7, vec![record(b"abc", "1")])).unwrap_err();
    let text = error.message();
    let start = "Received record from unassigned shard `shardId-000000000007`. Assigned shards: ";
    let orders = [
        format!("{}`{{{}, {}}}`.", start, make_shard_id(0), make_shard_id(1)),
        format!("{}`{{{}, {}}}`.", start, make_shard_id(1), make_shard_id(0)),
    ];
    assert!(orders.contains(&text), "{}", text);
    assert_eq!(source.observable_state(), observe(&[0, 1], &[], 2, 3, 1, 0));
}

#[test]
fn error_texts() {
    let none = EmitError::UnassignedShard { shard_id: "s".to_string(), assigned_shard_ids: vec![] };
    assert_eq!(
        none.message(),
        "Received record from unassigned shard `s`. Assigned shards: `{}`."
    );
    let three = EmitError::UnassignedShard {
        shard_id: "s".to_string(),
        assigned_shard_ids: vec!["c".to_string(), "a".to_string(), "b".to_string()],
    };
    assert_eq!(
        three.message(),
        "Received record from unassigned shard `s`. Assigned shards: `{c, a, b}`."
    );
    assert_eq!(EmitError::DeltaNotRecorded.message(), "Failed to record partition delta.");
}

#[test]
fn delta_outcome_decides_whether_the_batch_goes_on() {
    assert_eq!(on_delta_outcome::<u8>(Ok(())), Ok(()));
    assert_eq!(on_delta_outcome::<u8>(Err(3)), Err(EmitError::DeltaNotRecorded));
}

#[test]
fn batch_is_full_at_its_target() {
    assert_eq!(TARGET_BATCH_NUM_BYTES, 5_000_000);
    let mut source = make_source(&[0], &SourceCheckpoint::default());
    let mut batch = BatchBuilder::new();
    send(&mut source, &mut batch, records(0, vec![record(&vec![b'x'; 4_999_999], "1")])).unwrap();
    assert!(!batch.is_full());
    assert!(batch.wants_message(0, 1_000));
    send(&mut source, &mut batch, records(0, vec![record(&[0xff], "2")])).unwrap();
    assert!(batch.is_full());
    assert!(!batch.wants_message(0, 1_000));
}

#[test]
fn batch_waits_for_half_a_heartbeat() {
    let batch = BatchBuilder::new();
    assert!(batch.wants_message(499, 1_000));
    assert!(!batch.wants_message(500, 1_000));
    assert!(!batch.wants_message(500, 1_001));
    assert!(!batch.wants_message(0, 1));
}

#[test]
fn batch_is_sent_if_its_delta_holds_a_step() {
    let mut source = make_source(&[0], &SourceCheckpoint::default());
    let mut batch = BatchBuilder::new();
    send(&mut source, &mut batch, records(0, vec![record(b"a", "1"), record(b"b", "2")])).unwrap();
    assert_eq!(
        source.finish_batch(batch, false),
        EmitPlan { docs: Some(vec!["a".to_string(), "b".to_string()]), end_of_stream: false }
    );
    assert_eq!(
        source.finish_batch(BatchBuilder::new(), true),
        EmitPlan { docs: None, end_of_stream: false }
    );
    let mut invalid = BatchBuilder::new();
    send(&mut source, &mut invalid, records(0, vec![record(b"", "3")])).unwrap();
    assert_eq!(
        source.finish_batch(invalid, false),
        EmitPlan { docs: Some(vec![]), end_of_stream: false }
    );
}

#[test]
fn counters_without_room_are_refused() {
    let source = make_source(&[0], &SourceCheckpoint::default());
    let mut batch = BatchBuilder::new();
    batch.num_bytes = u64::MAX - 2;
    assert!(source.accepts(&batch, &records(0, vec![record(b"ab", "1")])));
    assert!(!source.accepts(&batch, &records(0, vec![record(b"ab", "1"), record(b"c", "2")])));
}

#[test]
fn records_give_documents_or_count_as_invalid() {
    let mut source = make_source(&[0, 1], &SourceCheckpoint::default());
    let mut batch = BatchBuilder::new();
    let payloads: [&[u8]; 6] = [b"a", b"", &[0x80], b"bc", &[0xe2, 0x82], b"\n"];
    for (i, payload) in payloads.iter().enumerate() {
        let number = format!("{}", i + 1);
        send(&mut source, &mut batch, records(i % 2, vec![record(payload, &number)])).unwrap();
    }
    let state = source.observable_state();
    assert_eq!(state.num_records_processed, 6);
    assert_eq!(batch.docs, vec!["a", "bc", "\n"]);
    assert_eq!(state.num_invalid_records, 3);
    assert_eq!(state.num_bytes_processed, 7);
    assert_eq!(batch.num_bytes, 7);
}

#[test]
fn what_is_observed_does_not_depend_on_the_order_of_shards() {
    let checkpoint = make_checkpoint(&[(make_shard_id(10), "a"), (make_shard_id(9), "b")]);
    let expected = observe(&[2, 9, 10], &[(9, "b"), (10, "a")], 3, 0, 0, 0);
    for order in [[2, 9, 10], [10, 9, 2], [9, 2, 10]] {
        assert_eq!(make_source(&order, &checkpoint).observable_state(), expected);
    }
}

#[test]
fn shards_are_ordered_by_code_point() {
    let listed: Result<Vec<String>, ()> =
        Ok(["\u{e9}", "Z", "a", "", "ab", "\u{1f600}", "\u{ffff}"].map(|id| id.to_string()).to_vec());
    let source =
        KinesisSource::try_new(make_params("s"), listed, &SourceCheckpoint::default()).unwrap();
    assert_eq!(
        source.observable_state().assigned_shard_ids,
        vec!["", "Z", "a", "ab", "\u{e9}", "\u{ffff}", "\u{1f600}"]
    );
}

#[test]
fn source_has_a_name_and_shows_its_stream() {
    let source = make_source(&[0], &SourceCheckpoint::default());
    assert_eq!(source.name(), "KinesisSource");
    assert_eq!(source.fmt(), "KinesisSource { stream_name: test-kinesis-source }");
}

#[test]
fn how_records_are_spread_over_messages_makes_no_difference() {
    let all = || vec![record(b"a", "1"), record(&[0xff], "2"), record(b"c", "3")];
    let mut at_once = make_source(&[0], &SourceCheckpoint::default());
    let mut at_once_batch = BatchBuilder::new();
    send(&mut at_once, &mut at_once_batch, records(0, all())).unwrap();
    let mut spread = make_source(&[0], &SourceCheckpoint::default());
    let mut spread_batch = BatchBuilder::new();
    for single in all() {
        send(&mut spread, &mut spread_batch, records(0, vec![single])).unwrap();
        send(&mut spread, &mut spread_batch, None).unwrap();
    }
    assert_eq!(at_once_batch.docs, vec!["a", "c"]);
    assert_eq!(spread_batch.docs, at_once_batch.docs);
    assert_eq!(spread_batch.num_bytes, at_once_batch.num_bytes);
    assert_eq!(spread.observable_state(), at_once.observable_state());
}

#[test]
fn batch_without_deltas_holds_no_document() {
    let mut source = make_source(&[0, 1], &SourceCheckpoint::default());
    source.initialize();
    let mut batch = BatchBuilder::new();
    for message in [records(0, vec![]), None, child_shards(&[2]), eof(0), closed(2)] {
        let action = send(&mut source, &mut batch, message).unwrap();
        assert!(!matches!(action, MessageAction::Record(_)));
    }
    assert!(batch.docs.is_empty());
    assert_eq!(batch.num_bytes, 0);
}

#[test]
fn restarted_source_reads_on_from_the_last_delta() {
    let mut source = make_source(&[0], &SourceCheckpoint::default());
    let mut batch = BatchBuilder::new();
    send(&mut source, &mut batch, records(0, vec![record(b"a", "1")])).unwrap();
    let action =
        send(&mut source, &mut batch, records(0, vec![record(b"b", "2"), record(b"c", "5")]));
    let mut checkpoint = SourceCheckpoint::default();
    match action.unwrap() {
        MessageAction::Record(delta) => checkpoint.set_position(delta.partition_id, delta.to),
        action => panic!("unexpected {:?}", action),
    }
    let mut restarted = make_source(&[0], &checkpoint);
    assert_eq!(restarted.initialize(), vec![consumer(0, Some("5"))]);
    let next = send(&mut restarted, &mut batch, records(0, vec![record(b"d", "6")]));
    assert_eq!(next, Ok(MessageAction::Record(delta(0, offset("5"), "6"))));
}

#[test]
fn shard_has_one_consumer_until_it_ends() {
    let mut source = make_source(&[0, 1], &SourceCheckpoint::default());
    source.initialize();
    let mut batch = BatchBuilder::new();
    for message in [None, eof(1), child_shards(&[2]), records(0, vec![record(b"a", "1")])] {
        send(&mut source, &mut batch, message).unwrap();
        assert!(!source.can_spawn_shard_consumer(&make_shard_id(0)));
        assert!(!source.accepts(&batch, &child_shards(&[7, 0])));
    }
    send(&mut source, &mut batch, closed(0)).unwrap();
    assert!(source.can_spawn_shard_consumer(&make_shard_id(0)));
    assert_eq!(source.spawn_shard_consumer(make_shard_id(0)), consumer(0, Some("1")));
    assert!(!source.can_spawn_shard_consumer(&make_shard_id(0)));
}

#[test]
fn counters_are_read_from_the_state() {
    let mut source = make_source(&[0], &SourceCheckpoint::default());
    let mut batch = BatchBuilder::new();
    send(&mut source, &mut batch, records(0, vec![record(b"ab", "1"), record(b"", "2")])).unwrap();
    assert_eq!(source.state().num_active_shards, 1);
    assert_eq!(source.state().num_bytes_processed, 2);
    assert_eq!(source.state().num_records_processed, 2);
    assert_eq!(source.state().num_invalid_records, 1);
}
