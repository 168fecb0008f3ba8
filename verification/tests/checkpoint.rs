use doc_ingest::checkpoint::{PartitionId, Position, SourceCheckpoint};

#[test]
fn position_is_told_by_its_text() {
    assert_eq!(Position::from("42".to_string()), Position::Offset("42".to_string()));
    assert_eq!(Position::from(String::new()), Position::Beginning);
    assert_eq!(Position::Beginning.as_str(), "");
    assert_eq!(Position::from("42".to_string()).as_str(), "42");
    assert_eq!(Position::from(Position::Beginning.as_str().to_string()), Position::Beginning);
    assert_eq!(Position::from("7".to_string()).clone(), Position::Offset("7".to_string()));
}

#[test]
fn checkpoint_holds_the_last_position_of_a_partition() {
    let first = PartitionId::from("first".to_string());
    let second = PartitionId::from("second".to_string());
    let mut checkpoint = SourceCheckpoint::default();
    assert_eq!(checkpoint.position_for_partition(&first), None);
    checkpoint.set_position(first.clone(), Position::from("1".to_string()));
    checkpoint.set_position(first.clone(), Position::from("2".to_string()));
    assert_eq!(checkpoint.position_for_partition(&first), Some(&Position::Offset("2".to_string())));
    assert_eq!(checkpoint.position_for_partition(&second), None);
}
