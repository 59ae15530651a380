//! The shuffle nodes of a distributed plan, as scheduler and executors hold
//! them.
//!
//! The plan below a shuffle writer belongs to the execution engine. The
//! nodes here are generic in it: `P` is whatever stands for a plan.

use crate::serde::scheduler::PartitionLocation;
use datafusion::arrow::datatypes::Schema;
use datafusion::physical_plan::Partitioning;
use std::sync::Arc;
use vstd::prelude::*;

verus! {

/// Writes the output of `plan`, partitioned, for later stages to read.
#[derive(Clone, Debug, PartialEq)]
pub struct ShuffleWriterExec<P> {
    /// The job that this stage belongs to.
    pub job_id: String,
    /// The place of this stage in the job.
    pub stage_id: usize,
    /// The plan whose output is written.
    pub plan: P,
    /// Where on the executor the shuffle files go. The executor fills this
    /// in; it never travels.
    pub work_dir: String,
    /// How the output is partitioned: by hash, or not at all.
    pub shuffle_output_partitioning: Option<Partitioning>,
}

/// Reads what shuffle writers of an earlier stage have written.
#[derive(Clone, Debug, PartialEq)]
pub struct ShuffleReaderExec {
    /// The stage to read from.
    pub stage_id: usize,
    /// For each output partition, the locations that feed it.
    pub partition: Vec<Vec<PartitionLocation>>,
    /// The schema of what is read.
    pub schema: Arc<Schema>,
}

/// Stands for a shuffle read while the locations to read from are not known.
/// A plan that still holds one must not go to an executor.
#[derive(Clone, Debug, PartialEq)]
pub struct UnresolvedShuffleExec {
    /// The stage to read from.
    pub stage_id: usize,
    /// The schema of what will be read.
    pub schema: Arc<Schema>,
    /// How many output partitions the read will have.
    pub output_partition_count: usize,
}

/// A plan node as the shuffle codec sees it: one of its three, or another.
#[derive(Clone, Debug, PartialEq)]
pub enum ShufflePlan<P> {
    ShuffleWriter(ShuffleWriterExec<P>),
    ShuffleReader(ShuffleReaderExec),
    UnresolvedShuffle(UnresolvedShuffleExec),
    /// A node of the execution engine, which the shuffle codec does not
    /// serialize.
    Other(P),
}

/// A child of the node that is being decoded: the child's plan, which was
/// decoded before its parent, and the schema of what it gives.
#[derive(Clone, Debug, PartialEq)]
pub struct ResolvedInput<P> {
    pub plan: P,
    pub schema: Arc<Schema>,
}

impl<P> ShuffleWriterExec<P> {
    /// A shuffle writer over `plan`.
    pub fn new(
        job_id: String,
        stage_id: usize,
        plan: P,
        work_dir: String,
        shuffle_output_partitioning: Option<Partitioning>,
    ) -> (exec: Self)
        ensures
            exec == (ShuffleWriterExec {
                job_id,
                stage_id,
                plan,
                work_dir,
                shuffle_output_partitioning,
            }),
    {
        ShuffleWriterExec { job_id, stage_id, plan, work_dir, shuffle_output_partitioning }
    }
}

impl ShuffleReaderExec {
    /// A shuffle reader of `stage_id` over the given locations.
    pub fn new(
        stage_id: usize,
        partition: Vec<Vec<PartitionLocation>>,
        schema: Arc<Schema>,
    ) -> (exec: Self)
        ensures
            exec == (ShuffleReaderExec { stage_id, partition, schema }),
    {
        ShuffleReaderExec { stage_id, partition, schema }
    }
}

impl UnresolvedShuffleExec {
    /// What stands for a shuffle read of `stage_id` until its locations are known.
    pub fn new(stage_id: usize, schema: Arc<Schema>, output_partition_count: usize) -> (exec: Self)
        ensures
            exec == (UnresolvedShuffleExec { stage_id, schema, output_partition_count }),
    {
        UnresolvedShuffleExec { stage_id, schema, output_partition_count }
    }
}

} // verus!
