//! What the scheduler hands to executors beside plans: where shuffle
//! partitions lie, and the actions that it asks for.

use crate::error::{BallistaError, InternalFault, Unsupported};
use crate::serde::protobuf;
use vstd::prelude::*;
use vstd::string::*;

verus! {

/// Where the data of one shuffle output partition lies.
#[derive(Clone, Debug, PartialEq, Eq)]
pub struct PartitionLocation {
    /// The job that the partition belongs to.
    pub job_id: String,
    /// The stage that wrote the partition.
    pub stage_id: usize,
    /// The number of the partition within its stage.
    pub partition_id: usize,
    /// The executor that holds the data.
    pub executor_id: String,
    /// Where that executor listens.
    pub host: String,
    pub port: u16,
    /// How many rows the partition holds.
    pub num_rows: u64,
    /// How many bytes the partition holds.
    pub num_bytes: u64,
    /// Where on the executor the data lies.
    pub path: String,
}

/// What a `PartitionLocation` holds.
pub struct PartitionLocationView {
    pub job_id: Seq<char>,
    pub stage_id: usize,
    pub partition_id: usize,
    pub executor_id: Seq<char>,
    pub host: Seq<char>,
    pub port: u16,
    pub num_rows: u64,
    pub num_bytes: u64,
    pub path: Seq<char>,
}

impl View for PartitionLocation {
    type V = PartitionLocationView;

    open spec fn view(&self) -> PartitionLocationView {
        PartitionLocationView {
            job_id: self.job_id@,
            stage_id: self.stage_id,
            partition_id: self.partition_id,
            executor_id: self.executor_id@,
            host: self.host@,
            port: self.port,
            num_rows: self.num_rows,
            num_bytes: self.num_bytes,
            path: self.path@,
        }
    }
}

/// The message for `l`; `None` where a stage or partition number does not
/// fit the 32 bits that the message gives it.
pub open spec fn location_to_proto(l: PartitionLocationView) -> Option<
    protobuf::PartitionLocationView,
> {
    if l.stage_id <= u32::MAX && l.partition_id <= u32::MAX {
        Some(
            protobuf::PartitionLocationView {
                job_id: l.job_id,
                stage_id: l.stage_id as u32,
                partition_id: l.partition_id as u32,
                executor_id: l.executor_id,
                host: l.host,
                port: l.port as u32,
                num_rows: l.num_rows,
                num_bytes: l.num_bytes,
                path: l.path,
            },
        )
    } else {
        None
    }
}

/// The location that the message `m` stands for; `None` where its port is
/// none that an executor can listen on.
pub open spec fn location_from_proto(m: protobuf::PartitionLocationView) -> Option<
    PartitionLocationView,
> {
    if m.port <= u16::MAX {
        Some(
            PartitionLocationView {
                job_id: m.job_id,
                stage_id: m.stage_id as usize,
                partition_id: m.partition_id as usize,
                executor_id: m.executor_id,
                host: m.host,
                port: m.port as u16,
                num_rows: m.num_rows,
                num_bytes: m.num_bytes,
                path: m.path,
            },
        )
    } else {
        None
    }
}

/// A location that converts to a message converts back to itself.
pub proof fn lemma_location_conversion_round_trip(l: PartitionLocationView)
    requires
        location_to_proto(l) is Some,
    ensures
        location_from_proto(location_to_proto(l).unwrap()) == Some(l),
{
}

impl PartitionLocation {
    /// The message for this location. Fails with `Internal(OutOfRange)`
    /// where a stage or partition number does not fit 32 bits.
    pub fn to_proto(&self) -> (r: Result<protobuf::PartitionLocation, BallistaError>)
        ensures
            r matches Ok(m) ==> location_to_proto(self@) == Some(m@),
            r matches Err(e) ==> location_to_proto(self@) is None && e == BallistaError::Internal(
                InternalFault::OutOfRange,
            ),
    {
        if self.stage_id > u32::MAX as usize || self.partition_id > u32::MAX as usize {
            return Err(BallistaError::Internal(InternalFault::OutOfRange));
        }
        Ok(
            protobuf::PartitionLocation {
                job_id: self.job_id.clone(),
                stage_id: self.stage_id as u32,
                partition_id: self.partition_id as u32,
                executor_id: self.executor_id.clone(),
                host: self.host.clone(),
                port: self.port as u32,
                num_rows: self.num_rows,
                num_bytes: self.num_bytes,
                path: self.path.clone(),
            },
        )
    }

    /// The location that `m` stands for. Fails with `Internal(OutOfRange)`
    /// where its port is above 65535.
    pub fn from_proto(m: &protobuf::PartitionLocation) -> (r: Result<
        PartitionLocation,
        BallistaError,
    >)
        ensures
            r matches Ok(l) ==> location_from_proto(m@) == Some(l@),
            r matches Err(e) ==> location_from_proto(m@) is None && e == BallistaError::Internal(
                InternalFault::OutOfRange,
            ),
    {
        if m.port > u16::MAX as u32 {
            return Err(BallistaError::Internal(InternalFault::OutOfRange));
        }
        Ok(
            PartitionLocation {
                job_id: m.job_id.clone(),
                stage_id: m.stage_id as usize,
                partition_id: m.partition_id as usize,
                executor_id: m.executor_id.clone(),
                host: m.host.clone(),
                port: m.port as u16,
                num_rows: m.num_rows,
                num_bytes: m.num_bytes,
                path: m.path.clone(),
            },
        )
    }
}

/// What the scheduler may ask of an executor.
#[derive(Clone, Debug, PartialEq, Eq)]
pub enum Action {
    /// Hand over the data of one shuffle partition.
    FetchPartition {
        job_id: String,
        stage_id: usize,
        partition_id: usize,
        path: String,
        host: String,
        port: u16,
    },
}

/// What an `Action` holds.
pub enum ActionView {
    FetchPartition {
        job_id: Seq<char>,
        stage_id: usize,
        partition_id: usize,
        path: Seq<char>,
        host: Seq<char>,
        port: u16,
    },
}

impl View for Action {
    type V = ActionView;

    open spec fn view(&self) -> ActionView {
        match self {
            Action::FetchPartition { job_id, stage_id, partition_id, path, host, port } => {
                ActionView::FetchPartition {
                    job_id: job_id@,
                    stage_id: *stage_id,
                    partition_id: *partition_id,
                    path: path@,
                    host: host@,
                    port: *port,
                }
            },
        }
    }
}

/// The action that the envelope `m` stands for: `Unsupported(Action)` where
/// it holds none, `Internal(OutOfRange)` where the port is above 65535.
pub open spec fn action_from_proto(m: protobuf::ActionView) -> Result<ActionView, BallistaError> {
    match m.action_type {
        Some(protobuf::ActionTypeView::FetchPartition(f)) => if f.port <= u16::MAX {
            Ok(
                ActionView::FetchPartition {
                    job_id: f.job_id,
                    stage_id: f.stage_id as usize,
                    partition_id: f.partition_id as usize,
                    path: f.path,
                    host: f.host,
                    port: f.port as u16,
                },
            )
        } else {
            Err(BallistaError::Internal(InternalFault::OutOfRange))
        },
        None => Err(BallistaError::Unsupported(Unsupported::Action)),
    }
}

impl Action {
    /// The action that the envelope `m` stands for.
    pub fn from_proto(m: &protobuf::Action) -> (r: Result<Action, BallistaError>)
        ensures
            r matches Ok(a) ==> action_from_proto(m@) == Ok::<ActionView, BallistaError>(a@),
            r matches Err(e) ==> action_from_proto(m@) == Err::<ActionView, BallistaError>(e),
    {
        match &m.action_type {
            Some(protobuf::ActionType::FetchPartition(f)) => {
                if f.port > u16::MAX as u32 {
                    return Err(BallistaError::Internal(InternalFault::OutOfRange));
                }
                Ok(
                    Action::FetchPartition {
                        job_id: f.job_id.clone(),
                        stage_id: f.stage_id as usize,
                        partition_id: f.partition_id as usize,
                        path: f.path.clone(),
                        host: f.host.clone(),
                        port: f.port as u16,
                    },
                )
            },
            None => Err(BallistaError::Unsupported(Unsupported::Action)),
        }
    }
}

/// The views of `row`.
pub open spec fn row_views(row: Seq<PartitionLocation>) -> Seq<PartitionLocationView> {
    Seq::new(row.len(), |j: int| row[j]@)
}

/// Whether every location of `row` converts to a message.
pub open spec fn row_converts(row: Seq<PartitionLocationView>) -> bool {
    forall|j: int| 0 <= j < row.len() ==> location_to_proto(#[trigger] row[j]) is Some
}

/// The message for the locations of one output partition.
pub open spec fn row_to_proto(
    row: Seq<PartitionLocationView>,
) -> protobuf::ShuffleReaderPartitionView {
    protobuf::ShuffleReaderPartitionView {
        location: Seq::new(row.len(), |j: int| location_to_proto(row[j]).unwrap()),
    }
}

/// Whether every location of the message `m` converts back.
pub open spec fn row_reads(m: protobuf::ShuffleReaderPartitionView) -> bool {
    forall|j: int|
        0 <= j < m.location.len() ==> location_from_proto(#[trigger] m.location[j]) is Some
}

/// The locations that the message `m` stands for.
pub open spec fn row_from_proto(m: protobuf::ShuffleReaderPartitionView) -> Seq<
    PartitionLocationView,
> {
    Seq::new(m.location.len(), |j: int| location_from_proto(m.location[j]).unwrap())
}

/// The locations of one output partition that convert to a message convert
/// back to themselves.
pub proof fn lemma_row_round_trip(row: Seq<PartitionLocationView>)
    requires
        row_converts(row),
    ensures
        row_reads(row_to_proto(row)),
        row_from_proto(row_to_proto(row)) == row,
{
    let m = row_to_proto(row);
    assert forall|j: int| 0 <= j < m.location.len() implies location_from_proto(
        #[trigger] m.location[j],
    ) == Some(row[j]) by {
        assert(location_to_proto(row[j]) is Some);
        lemma_location_conversion_round_trip(row[j]);
    }
    assert(row_from_proto(m) =~= row);
}

/// The message for the locations of one output partition. Fails where one
/// of them does not convert, with what that conversion said.
pub fn locations_to_proto(row: &Vec<PartitionLocation>) -> (r: Result<
    protobuf::ShuffleReaderPartition,
    BallistaError,
>)
    ensures
        r is Ok <==> row_converts(row_views(row@)),
        r matches Ok(m) ==> m@ == row_to_proto(row_views(row@)),
        r matches Err(e) ==> e == BallistaError::Internal(InternalFault::OutOfRange),
{
    let mut location: Vec<protobuf::PartitionLocation> = Vec::new();
    let mut j: usize = 0;
    while j < row.len()
        invariant
            j <= row@.len(),
            location@.len() == j,
            forall|k: int|
                0 <= k < j ==> location_to_proto(#[trigger] row_views(row@)[k]) == Some(
                    location@[k]@,
                ),
        decreases row@.len() - j,
    {
        match row[j].to_proto() {
            Ok(m) => {
                location.push(m);
            },
            Err(e) => {
                proof {
                    assert(location_to_proto(row_views(row@)[j as int]) is None);
                }
                return Err(e);
            },
        }
        j += 1;
    }
    let found = protobuf::ShuffleReaderPartition { location };
    proof {
        assert(found@.location =~= row_to_proto(row_views(row@)).location);
    }
    Ok(found)
}

/// The locations that the message `m` stands for. Fails where one of them
/// does not convert, with what that conversion said.
pub fn locations_from_proto(m: &protobuf::ShuffleReaderPartition) -> (r: Result<
    Vec<PartitionLocation>,
    BallistaError,
>)
    ensures
        r is Ok <==> row_reads(m@),
        r matches Ok(row) ==> row_views(row@) == row_from_proto(m@),
        r matches Err(e) ==> e == BallistaError::Internal(InternalFault::OutOfRange),
{
    let mut row: Vec<PartitionLocation> = Vec::new();
    let mut j: usize = 0;
    while j < m.location.len()
        invariant
            j <= m.location@.len(),
            row@.len() == j,
            forall|k: int|
                0 <= k < j ==> location_from_proto(#[trigger] m@.location[k]) == Some(row@[k]@),
        decreases m.location@.len() - j,
    {
        match PartitionLocation::from_proto(&m.location[j]) {
            Ok(l) => {
                row.push(l);
            },
            Err(e) => {
                proof {
                    assert(location_from_proto(m@.location[j as int]) is None);
                }
                return Err(e);
            },
        }
        j += 1;
    }
    proof {
        assert(row_views(row@) =~= row_from_proto(m@));
    }
    Ok(row)
}

} // verus!
