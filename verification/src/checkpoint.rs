//! Partitions of a source and positions in them.

use vstd::hash_map::StringHashMap;
use vstd::prelude::*;

verus! {

/// Identifies a partition of a source.
#[derive(Debug, PartialEq, Eq)]
pub struct PartitionId(pub String);

impl View for PartitionId {
    type V = Seq<char>;

    open spec fn view(&self) -> Seq<char> {
        self.0@
    }
}

impl From<String> for PartitionId {
    fn from(partition_id: String) -> (res: Self) {
        PartitionId(partition_id)
    }
}

impl vstd::std_specs::convert::FromSpecImpl<String> for PartitionId {
    open spec fn obeys_from_spec() -> bool {
        true
    }

    open spec fn from_spec(partition_id: String) -> Self {
        PartitionId(partition_id)
    }
}

impl Clone for PartitionId {
    fn clone(&self) -> (res: Self)
        ensures
            res == *self,
    {
        PartitionId(self.0.clone())
    }
}

/// How far a partition has been read.
#[derive(Debug, PartialEq, Eq)]
pub enum Position {
    /// Nothing of the partition has been read.
    Beginning,
    /// The partition has been read up to, and with, the record at this offset.
    Offset(String),
}

/// Mathematical value of a [`Position`].
pub enum PositionView {
    Beginning,
    Offset(Seq<char>),
}

impl View for Position {
    type V = PositionView;

    open spec fn view(&self) -> PositionView {
        match self {
            Position::Beginning => PositionView::Beginning,
            Position::Offset(offset) => PositionView::Offset(offset@),
        }
    }
}

impl PositionView {
    /// The position that `text` stands for: no text is the beginning.
    pub open spec fn parse(text: Seq<char>) -> PositionView {
        if text.len() == 0 {
            PositionView::Beginning
        } else {
            PositionView::Offset(text)
        }
    }

    /// The text that stands for the position.
    pub open spec fn text(self) -> Seq<char> {
        match self {
            PositionView::Beginning => Seq::empty(),
            PositionView::Offset(offset) => offset,
        }
    }
}

impl From<String> for Position {
    fn from(position: String) -> (res: Self) {
        if position.as_str().is_empty() {
            Position::Beginning
        } else {
            Position::Offset(position)
        }
    }
}

impl vstd::std_specs::convert::FromSpecImpl<String> for Position {
    open spec fn obeys_from_spec() -> bool {
        true
    }

    open spec fn from_spec(position: String) -> Self {
        if position@.len() == 0 {
            Position::Beginning
        } else {
            Position::Offset(position)
        }
    }
}

impl Clone for Position {
    fn clone(&self) -> (res: Self)
        ensures
            res == *self,
    {
        match self {
            Position::Beginning => Position::Beginning,
            Position::Offset(offset) => Position::Offset(offset.clone()),
        }
    }
}

impl Position {
    /// The text that stands for the position.
    pub fn as_str(&self) -> (res: &str)
        ensures
            res@ == self@.text(),
    {
        match self {
            Position::Beginning => {
                proof {
                    reveal_strlit("");
                }
                assert(""@ =~= Seq::<char>::empty());
                ""
            },
            Position::Offset(offset) => offset.as_str(),
        }
    }
}

/// The positions from which reading a source resumes.
pub struct SourceCheckpoint {
    positions: StringHashMap<Position>,
}

impl View for SourceCheckpoint {
    type V = Map<Seq<char>, PositionView>;

    closed spec fn view(&self) -> Map<Seq<char>, PositionView> {
        self.positions@.map_values(|position: Position| position@)
    }
}

impl Default for SourceCheckpoint {
    /// A checkpoint without any position.
    fn default() -> (res: Self)
        ensures
            res@ == Map::<Seq<char>, PositionView>::empty(),
    {
        let res = SourceCheckpoint { positions: StringHashMap::new() };
        assert(res@ =~= Map::<Seq<char>, PositionView>::empty());
        res
    }
}

impl SourceCheckpoint {
    /// Notes how far a partition has been read, in place of what was noted before.
    pub fn set_position(&mut self, partition_id: PartitionId, position: Position)
        ensures
            final(self)@ == old(self)@.insert(partition_id@, position@),
    {
        self.positions.insert(partition_id.0, position);
        assert(self@ =~= old(self)@.insert(partition_id@, position@));
    }

    /// How far a partition has been read, if that was noted.
    pub fn position_for_partition(&self, partition_id: &PartitionId) -> (res: Option<&Position>)
        ensures
            (match res {
                Some(position) => self@.contains_key(partition_id@) && position@
                    == self@[partition_id@],
                None => !self@.contains_key(partition_id@),
            }),
    {
        self.positions.get(partition_id.0.as_str())
    }
}

/// A step forward in a partition, to be recorded in a checkpoint delta.
#[derive(Debug, PartialEq, Eq)]
pub struct PartitionDelta {
    pub partition_id: PartitionId,
    pub from: Position,
    pub to: Position,
}

/// Mathematical value of a [`PartitionDelta`].
pub struct PartitionDeltaView {
    pub partition_id: Seq<char>,
    pub from: PositionView,
    pub to: PositionView,
}

impl View for PartitionDelta {
    type V = PartitionDeltaView;

    open spec fn view(&self) -> PartitionDeltaView {
        PartitionDeltaView {
            partition_id: self.partition_id@,
            from: self.from@,
            to: self.to@,
        }
    }
}

/// A position is told by its text: reading the text back gives the position,
/// and the text of what was read is the text, however long it is. The beginning
/// has no text, and an offset is its own text.
pub proof fn law_position_text_round_trip(text: Seq<char>, position: PositionView)
    requires
        position is Offset ==> position.text().len() > 0,
    ensures
        PositionView::parse(text).text() == text,
        PositionView::parse(position.text()) == position,
        PositionView::parse(text) is Beginning <==> text.len() == 0,
        position is Beginning <==> position.text().len() == 0,
        PositionView::Offset(text).text() == text,
{
}

/// The values of positions and steps leave nothing out.
pub proof fn law_position_views_are_whole(
    position: Position,
    partition_id: PartitionId,
    delta: PartitionDelta,
)
    ensures
        position is Beginning ==> position@ is Beginning,
        position matches Position::Offset(offset) ==> position@ is Offset && position@.text()
            == offset@,
        partition_id@ == partition_id.0@,
        delta@.partition_id == delta.partition_id.0@,
        delta@.from == delta.from@,
        delta@.to == delta.to@,
{
}

} // verus!
