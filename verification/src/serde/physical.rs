//! The codec for the three shuffle nodes.
//!
//! To encode, a node becomes its message, and the message becomes bytes. To
//! decode, bytes become a message, and the message, with the children that
//! were decoded before it, becomes a node. The plan below a shuffle writer
//! never travels inside the writer's message, and neither does the directory
//! that the writer works in.
//!
//! A message holds a schema or hash expressions as the engine serialized
//! them. Turning those back is the engine's work and is done by the caller:
//! `engine_request` says what to hand to the engine, and `try_decode` takes
//! what the engine answered.

use crate::error::{BallistaError, InternalFault, Malformed, SchemaFault};
use crate::execution_plans::{
    ResolvedInput, ShufflePlan, ShuffleReaderExec, ShuffleWriterExec, UnresolvedShuffleExec,
};
use crate::serde::engine::{
    expr_blob_of, expr_node, expr_node_bytes, expr_node_read, hash_expr_nodes,
    hash_exprs_serialized, partitioning_shape, schema_blob_of, schema_bytes, schema_message,
    schema_message_read, schema_refusal, shape_of, PartitioningShape,
};
use crate::serde::protobuf::{
    opt_view, parse_plan_node, BallistaPhysicalPlanNode, BallistaPhysicalPlanNodeView,
    PhysicalHashRepartition, PhysicalHashRepartitionView, PhysicalPlanType, PhysicalPlanTypeView,
    ShuffleReaderExecNode, ShuffleReaderExecNodeView, ShuffleReaderPartition,
    ShuffleReaderPartitionView, ShuffleWriterExecNode, ShuffleWriterExecNodeView,
    UnresolvedShuffleExecNode, UnresolvedShuffleExecNodeView,
};
use crate::serde::scheduler::{
    locations_from_proto, locations_to_proto, row_converts, row_from_proto, row_reads,
    row_to_proto, row_views, PartitionLocation, PartitionLocationView,
};
use crate::serde::wire::views;
use datafusion::arrow::datatypes::Schema;
use datafusion::common::DataFusionError;
use datafusion::physical_plan::Partitioning;
use datafusion_proto::protobuf::PhysicalExprNode;
use datafusion_proto::protobuf::Schema as SchemaMessage;
use std::sync::Arc;
use vstd::prelude::*;

verus! {

/// What the engine is asked to make before a node can be put together.
#[derive(Debug)]
pub enum EngineRequest {
    /// Nothing: the node needs nothing from the engine, or does not decode.
    Nothing,
    /// The schema that this schema message stands for.
    Schema(SchemaMessage),
    /// Hash partitioning over these expressions, in this order, into
    /// `partition_count` buckets, parsed against the schema of the writer's
    /// child.
    HashPartitioning { hash_expr: Vec<PhysicalExprNode>, partition_count: usize },
}

/// What an `EngineRequest` holds.
pub enum EngineRequestView {
    Nothing,
    Schema(SchemaMessage),
    HashPartitioning { hash_expr: Seq<PhysicalExprNode>, partition_count: usize },
}

impl View for EngineRequest {
    type V = EngineRequestView;

    open spec fn view(&self) -> EngineRequestView {
        match self {
            EngineRequest::Nothing => EngineRequestView::Nothing,
            EngineRequest::Schema(message) => EngineRequestView::Schema(*message),
            EngineRequest::HashPartitioning { hash_expr, partition_count } => {
                EngineRequestView::HashPartitioning {
                    hash_expr: hash_expr@,
                    partition_count: *partition_count,
                }
            },
        }
    }
}

/// What the engine made of an `EngineRequest`.
#[derive(Debug)]
pub enum EngineAnswer {
    /// Nothing was asked.
    Nothing,
    /// The schema that the message stands for, or why it stands for none.
    Schema(Result<Arc<Schema>, DataFusionError>),
    /// The partitioning that the expressions and the bucket count give, or
    /// why they give none.
    HashPartitioning(Result<Option<Partitioning>, DataFusionError>),
}

/// The schema that the schema field of a node holds, given what the engine
/// answered: `Missing` where the field is absent, `Unreadable` where its
/// bytes are no schema message, `Invalid` where the engine could not build
/// what the message names, `UnfitAnswer` where the answer is not about a
/// schema.
pub open spec fn schema_of(blob: Option<Seq<u8>>, answer: EngineAnswer) -> Result<
    Arc<Schema>,
    BallistaError,
> {
    match blob {
        None => Err(BallistaError::SchemaMismatch(SchemaFault::Missing)),
        Some(b) => match schema_message_read(b) {
            Err(_) => Err(BallistaError::SchemaMismatch(SchemaFault::Unreadable)),
            Ok(_) => match answer {
                EngineAnswer::Schema(Ok(schema)) => Ok(schema),
                EngineAnswer::Schema(Err(e)) => Err(
                    BallistaError::SchemaMismatch(SchemaFault::Invalid(e)),
                ),
                _ => Err(BallistaError::Internal(InternalFault::UnfitAnswer)),
            },
        },
    }
}

/// Why a leaf with this schema field does not decode when `inputs` children
/// come with it: a leaf has none, and it needs its schema.
pub open spec fn leaf_failure(
    blob: Option<Seq<u8>>,
    inputs: int,
    answer: EngineAnswer,
) -> Option<BallistaError> {
    if inputs != 0 {
        Some(BallistaError::MissingChild { expected: 0, found: inputs as usize })
    } else {
        match schema_of(blob, answer) {
            Err(e) => Some(e),
            Ok(_) => None,
        }
    }
}

/// What the engine is asked for a leaf with this schema field: the schema of
/// the message that the field holds, where the leaf comes without children
/// and the field holds a message.
pub open spec fn leaf_request(blob: Option<Seq<u8>>, inputs: int) -> EngineRequestView {
    if inputs != 0 {
        EngineRequestView::Nothing
    } else {
        match blob {
            None => EngineRequestView::Nothing,
            Some(b) => match schema_message_read(b) {
                Ok(message) => EngineRequestView::Schema(message),
                Err(_) => EngineRequestView::Nothing,
            },
        }
    }
}

/// The expression messages that the blobs hold, each in its place.
pub open spec fn exprs_read(blobs: Seq<Seq<u8>>) -> Seq<PhysicalExprNode> {
    Seq::new(blobs.len(), |i: int| expr_node_read(blobs[i])->Ok_0)
}

/// What the engine is asked for the writer message `m`: hash partitioning
/// over the expression messages that `m` holds, in their order, and over its
/// bucket count, where the writer comes with one child and `m` holds
/// partitioning that can be handed on.
pub open spec fn writer_request(m: ShuffleWriterExecNodeView, inputs: int) -> EngineRequestView {
    if inputs != 1 {
        EngineRequestView::Nothing
    } else {
        match m.output_partitioning {
            None => EngineRequestView::Nothing,
            Some(h) => if h.partition_count > usize::MAX || !all_exprs_read(h.hash_expr) {
                EngineRequestView::Nothing
            } else {
                EngineRequestView::HashPartitioning {
                    hash_expr: exprs_read(h.hash_expr),
                    partition_count: h.partition_count as usize,
                }
            },
        }
    }
}

/// What the engine is asked before `buf` can be decoded with `inputs`
/// children.
pub open spec fn requested(buf: Seq<u8>, inputs: int) -> EngineRequestView {
    match parse_plan_node(buf) {
        None => EngineRequestView::Nothing,
        Some(n) => match n.physical_plan_type {
            None => EngineRequestView::Nothing,
            Some(PhysicalPlanTypeView::ShuffleWriter(m)) => writer_request(m, inputs),
            Some(PhysicalPlanTypeView::ShuffleReader(m)) => leaf_request(m.schema, inputs),
            Some(PhysicalPlanTypeView::UnresolvedShuffle(m)) => leaf_request(m.schema, inputs),
        },
    }
}

/// The locations of a shuffle reader, by output partition.
pub open spec fn partition_rows(partition: Seq<Vec<PartitionLocation>>) -> Seq<
    Seq<PartitionLocationView>,
> {
    Seq::new(partition.len(), |i: int| row_views(partition[i]@))
}

/// Whether every location of every output partition converts to a message.
pub open spec fn all_rows_convert(rows: Seq<Seq<PartitionLocationView>>) -> bool {
    forall|i: int| 0 <= i < rows.len() ==> row_converts(#[trigger] rows[i])
}

/// The messages for the locations of every output partition.
pub open spec fn rows_to_proto(rows: Seq<Seq<PartitionLocationView>>) -> Seq<
    ShuffleReaderPartitionView,
> {
    Seq::new(rows.len(), |i: int| row_to_proto(rows[i]))
}

/// Whether every location of every partition message converts back.
pub open spec fn all_rows_read(messages: Seq<ShuffleReaderPartitionView>) -> bool {
    forall|i: int| 0 <= i < messages.len() ==> row_reads(#[trigger] messages[i])
}

/// The locations that the partition messages stand for.
pub open spec fn rows_from_proto(messages: Seq<ShuffleReaderPartitionView>) -> Seq<
    Seq<PartitionLocationView>,
> {
    Seq::new(messages.len(), |i: int| row_from_proto(messages[i]))
}

/// The error of a reader whose locations do not all convert: that a location
/// does not convert, and why.
pub open spec fn location_fault() -> BallistaError {
    BallistaError::Internal(
        InternalFault::Location(Box::new(BallistaError::Internal(InternalFault::OutOfRange))),
    )
}

/// Whether every blob is an expression message.
pub open spec fn all_exprs_read(blobs: Seq<Seq<u8>>) -> bool {
    forall|i: int| 0 <= i < blobs.len() ==> (#[trigger] expr_node_read(blobs[i])) is Ok
}

/// Why an unresolved shuffle does not encode; `None` where it does.
pub open spec fn unresolved_encode_failure(exec: UnresolvedShuffleExec) -> Option<BallistaError> {
    if exec.stage_id > u32::MAX || exec.output_partition_count > u32::MAX {
        Some(BallistaError::Internal(InternalFault::OutOfRange))
    } else {
        match schema_refusal(*exec.schema) {
            Some(e) => Some(BallistaError::Internal(InternalFault::Engine(e))),
            None => None,
        }
    }
}

/// Whether `m` is a message for `exec`: it carries the stage, the count, and
/// bytes that the engine wrote for the schema.
pub open spec fn unresolved_represents(
    m: UnresolvedShuffleExecNodeView,
    exec: UnresolvedShuffleExec,
) -> bool {
    &&& m.stage_id == exec.stage_id
    &&& m.schema matches Some(b) && schema_blob_of(*exec.schema, b)
    &&& m.output_partition_count == exec.output_partition_count
}

/// Whether `r` is what decoding the message `m` with `inputs` children
/// gives, where the engine answered `answer`.
pub open spec fn unresolved_decoded(
    m: UnresolvedShuffleExecNodeView,
    inputs: int,
    answer: EngineAnswer,
    r: Result<UnresolvedShuffleExec, BallistaError>,
) -> bool {
    match r {
        Ok(exec) => {
            &&& leaf_failure(m.schema, inputs, answer) is None
            &&& schema_of(m.schema, answer) matches Ok(schema) && schema == exec.schema
            &&& exec.stage_id == m.stage_id
            &&& exec.output_partition_count == m.output_partition_count
        },
        Err(e) => leaf_failure(m.schema, inputs, answer) == Some(e),
    }
}

/// Why a shuffle reader does not encode; `None` where it does.
pub open spec fn reader_encode_failure(exec: ShuffleReaderExec) -> Option<BallistaError> {
    if exec.stage_id > u32::MAX {
        Some(BallistaError::Internal(InternalFault::OutOfRange))
    } else if !all_rows_convert(partition_rows(exec.partition@)) {
        Some(location_fault())
    } else {
        match schema_refusal(*exec.schema) {
            Some(e) => Some(BallistaError::Internal(InternalFault::Engine(e))),
            None => None,
        }
    }
}

/// Whether `m` is a message for `exec`: it carries the stage, every location
/// in its place, and bytes that the engine wrote for the schema.
pub open spec fn reader_represents(m: ShuffleReaderExecNodeView, exec: ShuffleReaderExec) -> bool {
    &&& m.stage_id == exec.stage_id
    &&& m.schema matches Some(b) && schema_blob_of(*exec.schema, b)
    &&& m.partition == rows_to_proto(partition_rows(exec.partition@))
}

/// Why the reader message `m` does not decode with `inputs` children, where
/// the engine answered `answer`.
pub open spec fn reader_decode_failure(
    m: ShuffleReaderExecNodeView,
    inputs: int,
    answer: EngineAnswer,
) -> Option<BallistaError> {
    match leaf_failure(m.schema, inputs, answer) {
        Some(e) => Some(e),
        None => if all_rows_read(m.partition) {
            None
        } else {
            Some(location_fault())
        },
    }
}

/// Whether `r` is what decoding the message `m` with `inputs` children
/// gives, where the engine answered `answer`.
pub open spec fn reader_decoded(
    m: ShuffleReaderExecNodeView,
    inputs: int,
    answer: EngineAnswer,
    r: Result<ShuffleReaderExec, BallistaError>,
) -> bool {
    match r {
        Ok(exec) => {
            &&& reader_decode_failure(m, inputs, answer) is None
            &&& schema_of(m.schema, answer) matches Ok(schema) && schema == exec.schema
            &&& exec.stage_id == m.stage_id
            &&& partition_rows(exec.partition@) == rows_from_proto(m.partition)
        },
        Err(e) => reader_decode_failure(m, inputs, answer) == Some(e),
    }
}

/// Why a shuffle writer does not encode; `None` where it does. A writer
/// partitions by hash or not at all.
pub open spec fn writer_encode_failure<P>(exec: ShuffleWriterExec<P>) -> Option<BallistaError> {
    match exec.shuffle_output_partitioning {
        Some(p) => if !(shape_of(p) is Hash) {
            Some(BallistaError::Internal(InternalFault::InvalidPartitioning(shape_of(p))))
        } else if hash_exprs_serialized(p) is Err {
            Some(BallistaError::Internal(InternalFault::Engine(hash_exprs_serialized(p)->Err_0)))
        } else if exec.stage_id > u32::MAX {
            Some(BallistaError::Internal(InternalFault::OutOfRange))
        } else {
            None
        },
        None => if exec.stage_id > u32::MAX {
            Some(BallistaError::Internal(InternalFault::OutOfRange))
        } else {
            None
        },
    }
}

/// Whether the hash partitioning `h` of a message has the shape of `p`: as
/// many expressions, as many buckets.
pub open spec fn same_shape(h: PhysicalHashRepartitionView, p: Partitioning) -> bool {
    shape_of(p) matches PartitioningShape::Hash { exprs, partitions } && h.hash_expr.len() == exprs
        && h.partition_count == partitions
}

/// Whether each of `blobs` holds bytes that were written for the message at
/// its place in `nodes`.
pub open spec fn blobs_of(nodes: Seq<PhysicalExprNode>, blobs: Seq<Seq<u8>>) -> bool {
    &&& nodes.len() == blobs.len()
    &&& forall|i: int| 0 <= i < blobs.len() ==> expr_blob_of(nodes[i], #[trigger] blobs[i])
}

/// Whether `h` is a message for the hash partitioning `p`: it has the bucket
/// count of `p`, and at each place bytes that were written for the message
/// that the engine makes of the hash expression of `p` at that place.
pub open spec fn hash_represents(h: PhysicalHashRepartitionView, p: Partitioning) -> bool {
    &&& same_shape(h, p)
    &&& hash_exprs_serialized(p) matches Ok(nodes) && blobs_of(nodes, h.hash_expr)
}

/// Whether `m` is a message for `exec`: it carries the job and the stage,
/// leaves the reserved input absent, and holds a message for the shuffle
/// partitioning of `exec` exactly where `exec` has one.
pub open spec fn writer_represents<P>(
    m: ShuffleWriterExecNodeView,
    exec: ShuffleWriterExec<P>,
) -> bool {
    &&& m.job_id == exec.job_id@
    &&& m.stage_id == exec.stage_id
    &&& m.input is None
    &&& match exec.shuffle_output_partitioning {
        Some(p) => m.output_partitioning matches Some(h) && hash_represents(h, p),
        None => m.output_partitioning is None,
    }
}

/// Whether `exec` holds what the message `m` carries, over `plan`, with no
/// working directory yet.
pub open spec fn writer_carries<P>(
    exec: ShuffleWriterExec<P>,
    m: ShuffleWriterExecNodeView,
    plan: P,
) -> bool {
    &&& exec.job_id@ == m.job_id
    &&& exec.stage_id == m.stage_id
    &&& exec.plan == plan
    &&& exec.work_dir@.len() == 0
}

/// Whether `r` is what decoding the message `m` with the children `inputs`
/// gives, where the engine answered `answer`. A writer has one child. Where
/// the message holds no partitioning, the writer has none and the answer is
/// not looked at. Where it holds one, the writer has the partitioning that
/// the engine answered, as long as that is hash partitioning of the shape
/// that the message gives.
pub open spec fn writer_decoded<P>(
    m: ShuffleWriterExecNodeView,
    inputs: Seq<ResolvedInput<P>>,
    answer: EngineAnswer,
    r: Result<ShuffleWriterExec<P>, BallistaError>,
) -> bool {
    if inputs.len() != 1 {
        r == Err::<ShuffleWriterExec<P>, BallistaError>(
            BallistaError::MissingChild { expected: 1, found: inputs.len() as usize },
        )
    } else {
        match m.output_partitioning {
            None => {
                &&& r matches Ok(exec)
                &&& writer_carries(exec, m, inputs[0].plan)
                &&& exec.shuffle_output_partitioning is None
            },
            Some(h) => if h.partition_count > usize::MAX {
                r == Err::<ShuffleWriterExec<P>, BallistaError>(
                    BallistaError::Internal(InternalFault::OutOfRange),
                )
            } else if !all_exprs_read(h.hash_expr) {
                r == Err::<ShuffleWriterExec<P>, BallistaError>(
                    BallistaError::Malformed(Malformed::Envelope),
                )
            } else {
                match answer {
                    EngineAnswer::HashPartitioning(Ok(Some(p))) => if same_shape(h, p) {
                        &&& r matches Ok(exec)
                        &&& writer_carries(exec, m, inputs[0].plan)
                        &&& exec.shuffle_output_partitioning == Some(p)
                    } else {
                        r == Err::<ShuffleWriterExec<P>, BallistaError>(
                            BallistaError::Internal(InternalFault::UnfitAnswer),
                        )
                    },
                    EngineAnswer::HashPartitioning(Err(e)) => r == Err::<
                        ShuffleWriterExec<P>,
                        BallistaError,
                    >(BallistaError::Internal(InternalFault::Engine(e))),
                    _ => r == Err::<ShuffleWriterExec<P>, BallistaError>(
                        BallistaError::Internal(InternalFault::UnfitAnswer),
                    ),
                }
            },
        }
    }
}

/// Why `node` does not encode; `None` where it does.
pub open spec fn encode_failure<P>(node: ShufflePlan<P>) -> Option<BallistaError> {
    match node {
        ShufflePlan::ShuffleWriter(exec) => writer_encode_failure(exec),
        ShufflePlan::ShuffleReader(exec) => reader_encode_failure(exec),
        ShufflePlan::UnresolvedShuffle(exec) => unresolved_encode_failure(exec),
        ShufflePlan::Other(_) => Some(BallistaError::Internal(InternalFault::UnsupportedPlan)),
    }
}

/// Whether the envelope `n` holds a message for `node`.
pub open spec fn represents<P>(n: BallistaPhysicalPlanNodeView, node: ShufflePlan<P>) -> bool {
    match node {
        ShufflePlan::ShuffleWriter(exec) => n.physical_plan_type matches Some(
            PhysicalPlanTypeView::ShuffleWriter(m),
        ) && writer_represents(m, exec),
        ShufflePlan::ShuffleReader(exec) => n.physical_plan_type matches Some(
            PhysicalPlanTypeView::ShuffleReader(m),
        ) && reader_represents(m, exec),
        ShufflePlan::UnresolvedShuffle(exec) => n.physical_plan_type matches Some(
            PhysicalPlanTypeView::UnresolvedShuffle(m),
        ) && unresolved_represents(m, exec),
        ShufflePlan::Other(_) => false,
    }
}

/// Whether `r` is what decoding the envelope `n` with the children `inputs`
/// gives, where the engine answered `answer`.
pub open spec fn envelope_decoded<P>(
    n: BallistaPhysicalPlanNodeView,
    inputs: Seq<ResolvedInput<P>>,
    answer: EngineAnswer,
    r: Result<ShufflePlan<P>, BallistaError>,
) -> bool {
    match n.physical_plan_type {
        None => r == Err::<ShufflePlan<P>, BallistaError>(
            BallistaError::Internal(InternalFault::MissingPlanType),
        ),
        Some(PhysicalPlanTypeView::ShuffleWriter(m)) => match r {
            Ok(ShufflePlan::ShuffleWriter(exec)) => writer_decoded(m, inputs, answer, Ok(exec)),
            Err(e) => writer_decoded(m, inputs, answer, Err(e)),
            _ => false,
        },
        Some(PhysicalPlanTypeView::ShuffleReader(m)) => match r {
            Ok(ShufflePlan::ShuffleReader(exec)) => reader_decoded(
                m,
                inputs.len() as int,
                answer,
                Ok(exec),
            ),
            Err(e) => reader_decoded(m, inputs.len() as int, answer, Err(e)),
            _ => false,
        },
        Some(PhysicalPlanTypeView::UnresolvedShuffle(m)) => match r {
            Ok(ShufflePlan::UnresolvedShuffle(exec)) => unresolved_decoded(
                m,
                inputs.len() as int,
                answer,
                Ok(exec),
            ),
            Err(e) => unresolved_decoded(m, inputs.len() as int, answer, Err(e)),
            _ => false,
        },
    }
}

/// Whether `r` is what decoding `buf` with the children `inputs` gives, where
/// the engine answered `answer`.
pub open spec fn decoded<P>(
    buf: Seq<u8>,
    inputs: Seq<ResolvedInput<P>>,
    answer: EngineAnswer,
    r: Result<ShufflePlan<P>, BallistaError>,
) -> bool {
    match parse_plan_node(buf) {
        None => r == Err::<ShufflePlan<P>, BallistaError>(
            BallistaError::Malformed(Malformed::Envelope),
        ),
        Some(n) => envelope_decoded(n, inputs, answer, r),
    }
}

/// The schema of a leaf: what the engine answered, where the schema field
/// holds a schema message.
pub fn schema_from_blob(blob: &Option<Vec<u8>>, answer: EngineAnswer) -> (r: Result<
    Arc<Schema>,
    BallistaError,
>)
    ensures
        r matches Ok(schema) ==> schema_of(opt_view(*blob), answer) matches Ok(s) && s == schema,
        r matches Err(e) ==> schema_of(opt_view(*blob), answer) matches Err(x) && x == e,
{
    match blob {
        None => Err(BallistaError::SchemaMismatch(SchemaFault::Missing)),
        Some(bytes) => match schema_message(bytes.as_slice()) {
            Err(_) => Err(BallistaError::SchemaMismatch(SchemaFault::Unreadable)),
            Ok(_) => match answer {
                EngineAnswer::Schema(Ok(schema)) => Ok(schema),
                EngineAnswer::Schema(Err(e)) => Err(
                    BallistaError::SchemaMismatch(SchemaFault::Invalid(e)),
                ),
                _ => Err(BallistaError::Internal(InternalFault::UnfitAnswer)),
            },
        },
    }
}

/// What the engine is asked for a leaf with this schema field.
pub fn leaf_engine_request(blob: &Option<Vec<u8>>, inputs: usize) -> (r: EngineRequest)
    ensures
        r@ == leaf_request(opt_view(*blob), inputs as int),
{
    if inputs != 0 {
        return EngineRequest::Nothing;
    }
    match blob {
        None => EngineRequest::Nothing,
        Some(bytes) => match schema_message(bytes.as_slice()) {
            Ok(message) => EngineRequest::Schema(message),
            Err(_) => EngineRequest::Nothing,
        },
    }
}

/// Serializes a schema for the schema field of a node.
pub fn schema_to_blob(schema: &Arc<Schema>) -> (r: Result<Vec<u8>, BallistaError>)
    ensures
        r is Ok <==> schema_refusal(**schema) is None,
        r matches Err(e) ==> schema_refusal(**schema) matches Some(x) && e
            == BallistaError::Internal(InternalFault::Engine(x)),
        r matches Ok(bytes) ==> schema_blob_of(**schema, bytes@),
{
    match schema_bytes(schema) {
        Ok(bytes) => Ok(bytes),
        Err(e) => Err(BallistaError::Internal(InternalFault::Engine(e))),
    }
}

/// The message for an unresolved shuffle.
pub fn unresolved_to_proto(exec: &UnresolvedShuffleExec) -> (r: Result<
    UnresolvedShuffleExecNode,
    BallistaError,
>)
    ensures
        r matches Ok(m) ==> unresolved_encode_failure(*exec) is None && unresolved_represents(
            m@,
            *exec,
        ),
        r matches Err(e) ==> unresolved_encode_failure(*exec) == Some(e),
{
    if exec.stage_id > u32::MAX as usize || exec.output_partition_count > u32::MAX as usize {
        return Err(BallistaError::Internal(InternalFault::OutOfRange));
    }
    let schema = schema_to_blob(&exec.schema)?;
    Ok(
        UnresolvedShuffleExecNode {
            stage_id: exec.stage_id as u32,
            schema: Some(schema),
            output_partition_count: exec.output_partition_count as u32,
        },
    )
}

/// The unresolved shuffle that a message stands for. A leaf: it comes with
/// no children. Its schema is what the engine answered.
pub fn unresolved_from_proto(
    node: &UnresolvedShuffleExecNode,
    inputs: usize,
    answer: EngineAnswer,
) -> (r: Result<UnresolvedShuffleExec, BallistaError>)
    ensures
        unresolved_decoded(node@, inputs as int, answer, r),
{
    if inputs != 0 {
        return Err(BallistaError::MissingChild { expected: 0, found: inputs });
    }
    let schema = schema_from_blob(&node.schema, answer)?;
    Ok(
        UnresolvedShuffleExec {
            stage_id: node.stage_id as usize,
            schema,
            output_partition_count: node.output_partition_count as usize,
        },
    )
}

/// The message for a shuffle reader. No location is left out: where one does
/// not convert, there is no message.
pub fn reader_to_proto(exec: &ShuffleReaderExec) -> (r: Result<
    ShuffleReaderExecNode,
    BallistaError,
>)
    ensures
        r matches Ok(m) ==> reader_encode_failure(*exec) is None && reader_represents(m@, *exec),
        r matches Err(e) ==> reader_encode_failure(*exec) == Some(e),
{
    if exec.stage_id > u32::MAX as usize {
        return Err(BallistaError::Internal(InternalFault::OutOfRange));
    }
    let ghost rows = partition_rows(exec.partition@);
    let mut partition: Vec<ShuffleReaderPartition> = Vec::new();
    let mut i: usize = 0;
    while i < exec.partition.len()
        invariant
            i <= exec.partition@.len(),
            partition@.len() == i,
            exec.stage_id <= u32::MAX,
            rows == partition_rows(exec.partition@),
            forall|k: int| 0 <= k < i ==> row_converts(#[trigger] rows[k]),
            forall|k: int| 0 <= k < i ==> (#[trigger] partition@[k])@ == row_to_proto(rows[k]),
        decreases exec.partition@.len() - i,
    {
        match locations_to_proto(&exec.partition[i]) {
            Ok(m) => {
                partition.push(m);
            },
            Err(e) => {
                proof {
                    assert(!row_converts(rows[i as int]));
                }
                return Err(BallistaError::Internal(InternalFault::Location(Box::new(e))));
            },
        }
        i += 1;
    }
    let schema = schema_to_blob(&exec.schema)?;
    let found = ShuffleReaderExecNode {
        partition,
        schema: Some(schema),
        stage_id: exec.stage_id as u32,
    };
    proof {
        assert(found@.partition =~= rows_to_proto(rows));
    }
    Ok(found)
}

/// The shuffle reader that a message stands for. A leaf: it comes with no
/// children. The schema comes first, then the locations, up to the first
/// that does not convert.
pub fn reader_from_proto(node: &ShuffleReaderExecNode, inputs: usize, answer: EngineAnswer) -> (r:
    Result<ShuffleReaderExec, BallistaError>)
    ensures
        reader_decoded(node@, inputs as int, answer, r),
{
    if inputs != 0 {
        return Err(BallistaError::MissingChild { expected: 0, found: inputs });
    }
    let schema = schema_from_blob(&node.schema, answer)?;
    let mut partition: Vec<Vec<PartitionLocation>> = Vec::new();
    let mut i: usize = 0;
    while i < node.partition.len()
        invariant
            i <= node.partition@.len(),
            partition@.len() == i,
            leaf_failure(node@.schema, inputs as int, answer) is None,
            forall|k: int| 0 <= k < i ==> row_reads(#[trigger] node@.partition[k]),
            forall|k: int|
                0 <= k < i ==> row_views((#[trigger] partition@[k])@) == row_from_proto(
                    node@.partition[k],
                ),
        decreases node.partition@.len() - i,
    {
        match locations_from_proto(&node.partition[i]) {
            Ok(row) => {
                partition.push(row);
            },
            Err(e) => {
                proof {
                    assert(!row_reads(node@.partition[i as int]));
                }
                return Err(BallistaError::Internal(InternalFault::Location(Box::new(e))));
            },
        }
        i += 1;
    }
    proof {
        assert(partition_rows(partition@) =~= rows_from_proto(node@.partition));
    }
    Ok(ShuffleReaderExec { stage_id: node.stage_id as usize, partition, schema })
}

/// The hash partitioning message for the shuffle partitioning of a writer;
/// `None` where the writer has none. Each hash expression is written in its
/// place, as the engine serializes it.
pub fn partitioning_to_proto(partitioning: &Option<Partitioning>) -> (r: Result<
    Option<PhysicalHashRepartition>,
    BallistaError,
>)
    ensures
        match *partitioning {
            None => r matches Ok(None),
            Some(p) => if !(shape_of(p) is Hash) {
                r matches Err(e) && e == BallistaError::Internal(
                    InternalFault::InvalidPartitioning(shape_of(p)),
                )
            } else {
                match hash_exprs_serialized(p) {
                    Err(x) => r matches Err(e) && e == BallistaError::Internal(
                        InternalFault::Engine(x),
                    ),
                    Ok(_) => r matches Ok(Some(h)) && hash_represents(h@, p),
                }
            },
        },
{
    match partitioning {
        None => Ok(None),
        Some(p) => match partitioning_shape(p) {
            PartitioningShape::Hash { exprs, partitions } => {
                let nodes = match hash_expr_nodes(p) {
                    Ok(nodes) => nodes,
                    Err(e) => {
                        return Err(BallistaError::Internal(InternalFault::Engine(e)));
                    },
                };
                let mut hash_expr: Vec<Vec<u8>> = Vec::new();
                let mut i: usize = 0;
                while i < nodes.len()
                    invariant
                        i <= nodes@.len(),
                        hash_expr@.len() == i,
                        forall|k: int|
                            0 <= k < i ==> expr_blob_of(nodes@[k], #[trigger] views(hash_expr@)[k]),
                    decreases nodes@.len() - i,
                {
                    let blob = expr_node_bytes(&nodes[i]);
                    let ghost before = hash_expr@;
                    hash_expr.push(blob);
                    proof {
                        assert forall|k: int| 0 <= k < i + 1 implies expr_blob_of(
                            nodes@[k],
                            #[trigger] views(hash_expr@)[k],
                        ) by {
                            if k < i {
                                assert(views(hash_expr@)[k] == views(before)[k]);
                            }
                        }
                    }
                    i += 1;
                }
                Ok(Some(PhysicalHashRepartition { hash_expr, partition_count: partitions as u64 }))
            },
            other => Err(BallistaError::Internal(InternalFault::InvalidPartitioning(other))),
        },
    }
}

/// The message for a shuffle writer. The plan below the writer is not part
/// of it: the reserved input stays absent.
pub fn writer_to_proto<P>(exec: &ShuffleWriterExec<P>) -> (r: Result<
    ShuffleWriterExecNode,
    BallistaError,
>)
    ensures
        r matches Ok(m) ==> writer_encode_failure(*exec) is None && writer_represents(m@, *exec),
        r matches Err(e) ==> writer_encode_failure(*exec) == Some(e),
{
    let output_partitioning = partitioning_to_proto(&exec.shuffle_output_partitioning)?;
    if exec.stage_id > u32::MAX as usize {
        return Err(BallistaError::Internal(InternalFault::OutOfRange));
    }
    Ok(
        ShuffleWriterExecNode {
            job_id: exec.job_id.clone(),
            stage_id: exec.stage_id as u32,
            input: None,
            output_partitioning,
        },
    )
}

/// The expression messages that the blobs of a hash partitioning hold, each
/// in the place of its blob; `None` where a blob holds none.
pub fn read_hash_exprs(blobs: &Vec<Vec<u8>>) -> (r: Option<Vec<PhysicalExprNode>>)
    ensures
        r is Some <==> all_exprs_read(views(blobs@)),
        r matches Some(nodes) ==> nodes@ == exprs_read(views(blobs@)),
{
    let mut nodes: Vec<PhysicalExprNode> = Vec::new();
    let mut i: usize = 0;
    while i < blobs.len()
        invariant
            i <= blobs@.len(),
            nodes@.len() == i,
            forall|k: int|
                0 <= k < i ==> ((#[trigger] expr_node_read(views(blobs@)[k])) matches Ok(node)
                    && node == nodes@[k]),
        decreases blobs@.len() - i,
    {
        match expr_node(blobs[i].as_slice()) {
            Ok(node) => {
                nodes.push(node);
            },
            Err(_) => {
                proof {
                    assert(expr_node_read(views(blobs@)[i as int]) is Err);
                }
                return None;
            },
        }
        i += 1;
    }
    proof {
        assert(nodes@ =~= exprs_read(views(blobs@)));
    }
    Some(nodes)
}

/// What the engine is asked for a writer message.
pub fn writer_engine_request(node: &ShuffleWriterExecNode, inputs: usize) -> (r: EngineRequest)
    ensures
        r@ == writer_request(node@, inputs as int),
{
    if inputs != 1 {
        return EngineRequest::Nothing;
    }
    match &node.output_partitioning {
        None => EngineRequest::Nothing,
        Some(h) => {
            if h.partition_count > usize::MAX as u64 {
                return EngineRequest::Nothing;
            }
            match read_hash_exprs(&h.hash_expr) {
                Some(hash_expr) => EngineRequest::HashPartitioning {
                    hash_expr,
                    partition_count: h.partition_count as usize,
                },
                None => EngineRequest::Nothing,
            }
        },
    }
}

/// Puts a shuffle writer together from its message, its child and what the
/// engine made of the partitioning. The working directory stays empty: the
/// executor fills it in.
pub fn writer_with_partitioning<P>(
    node: &ShuffleWriterExecNode,
    plan: P,
    parsed: Result<Option<Partitioning>, DataFusionError>,
) -> (r: Result<ShuffleWriterExec<P>, BallistaError>)
    ensures
        match parsed {
            Ok(partitioning) => r matches Ok(exec) && writer_carries(exec, node@, plan)
                && exec.shuffle_output_partitioning == partitioning,
            Err(x) => r matches Err(e) && e == BallistaError::Internal(InternalFault::Engine(x)),
        },
{
    match parsed {
        Ok(shuffle_output_partitioning) => Ok(
            ShuffleWriterExec {
                job_id: node.job_id.clone(),
                stage_id: node.stage_id as usize,
                plan,
                work_dir: String::new(),
                shuffle_output_partitioning,
            },
        ),
        Err(e) => Err(BallistaError::Internal(InternalFault::Engine(e))),
    }
}

/// Whether `p` is hash partitioning over as many expressions and buckets as
/// the message `h` holds.
pub fn fits_message(h: &PhysicalHashRepartition, p: &Partitioning) -> (fits: bool)
    ensures
        fits == same_shape(h@, *p),
{
    match partitioning_shape(p) {
        PartitioningShape::Hash { exprs, partitions } => exprs == h.hash_expr.len()
            && partitions as u64 == h.partition_count,
        _ => false,
    }
}

/// The shuffle writer that a message stands for, over its one child. Where
/// the message holds partitioning, the writer has what the engine answered.
pub fn writer_from_proto<P>(
    node: &ShuffleWriterExecNode,
    inputs: Vec<ResolvedInput<P>>,
    answer: EngineAnswer,
) -> (r: Result<ShuffleWriterExec<P>, BallistaError>)
    ensures
        writer_decoded(node@, inputs@, answer, r),
{
    let mut children = inputs;
    if children.len() != 1 {
        return Err(BallistaError::MissingChild { expected: 1, found: children.len() });
    }
    let input = match children.pop() {
        Some(input) => input,
        None => {
            return Err(BallistaError::MissingChild { expected: 1, found: 0 });
        },
    };
    match &node.output_partitioning {
        None => writer_with_partitioning(node, input.plan, Ok(None)),
        Some(h) => {
            if h.partition_count > usize::MAX as u64 {
                return Err(BallistaError::Internal(InternalFault::OutOfRange));
            }
            if read_hash_exprs(&h.hash_expr).is_none() {
                return Err(BallistaError::Malformed(Malformed::Envelope));
            }
            match answer {
                EngineAnswer::HashPartitioning(Ok(Some(p))) => {
                    if fits_message(h, &p) {
                        writer_with_partitioning(node, input.plan, Ok(Some(p)))
                    } else {
                        Err(BallistaError::Internal(InternalFault::UnfitAnswer))
                    }
                },
                EngineAnswer::HashPartitioning(Err(e)) => writer_with_partitioning(
                    node,
                    input.plan,
                    Err(e),
                ),
                _ => Err(BallistaError::Internal(InternalFault::UnfitAnswer)),
            }
        },
    }
}

/// The codec for the three shuffle nodes. It holds nothing: every call
/// stands for itself.
#[derive(Debug, Default)]
pub struct BallistaPhysicalExtensionCodec {}

impl BallistaPhysicalExtensionCodec {
    /// What the engine is asked to make before `buf` can be decoded with
    /// `inputs` children: a schema of a schema message, or hash partitioning
    /// of expression messages, which are those that `buf` holds, in their
    /// order. Nothing is asked where `buf` does not decode anyway.
    pub fn engine_request(&self, buf: &[u8], inputs: usize) -> (r: EngineRequest)
        ensures
            r@ == requested(buf@, inputs as int),
    {
        match BallistaPhysicalPlanNode::decode(buf) {
            Err(_) => EngineRequest::Nothing,
            Ok(ballista_plan) => match &ballista_plan.physical_plan_type {
                None => EngineRequest::Nothing,
                Some(PhysicalPlanType::ShuffleWriter(shuffle_writer)) => writer_engine_request(
                    shuffle_writer,
                    inputs,
                ),
                Some(PhysicalPlanType::ShuffleReader(shuffle_reader)) => leaf_engine_request(
                    &shuffle_reader.schema,
                    inputs,
                ),
                Some(PhysicalPlanType::UnresolvedShuffle(unresolved_shuffle)) => {
                    leaf_engine_request(&unresolved_shuffle.schema, inputs)
                },
            },
        }
    }

    /// Rebuilds the node that `buf` holds, over the children `inputs`, which
    /// were decoded before it, and with what the engine answered to
    /// `engine_request`. A shuffle writer has exactly one child, a shuffle
    /// reader and an unresolved shuffle have none.
    pub fn try_decode<P>(
        &self,
        buf: &[u8],
        inputs: Vec<ResolvedInput<P>>,
        answer: EngineAnswer,
    ) -> (r: Result<ShufflePlan<P>, BallistaError>)
        ensures
            decoded(buf@, inputs@, answer, r),
    {
        let ballista_plan = BallistaPhysicalPlanNode::decode(buf)?;
        match &ballista_plan.physical_plan_type {
            None => Err(BallistaError::Internal(InternalFault::MissingPlanType)),
            Some(PhysicalPlanType::ShuffleWriter(shuffle_writer)) => {
                match writer_from_proto(shuffle_writer, inputs, answer) {
                    Ok(exec) => Ok(ShufflePlan::ShuffleWriter(exec)),
                    Err(e) => Err(e),
                }
            },
            Some(PhysicalPlanType::ShuffleReader(shuffle_reader)) => {
                match reader_from_proto(shuffle_reader, inputs.len(), answer) {
                    Ok(exec) => Ok(ShufflePlan::ShuffleReader(exec)),
                    Err(e) => Err(e),
                }
            },
            Some(PhysicalPlanType::UnresolvedShuffle(unresolved_shuffle)) => {
                match unresolved_from_proto(unresolved_shuffle, inputs.len(), answer) {
                    Ok(exec) => Ok(ShufflePlan::UnresolvedShuffle(exec)),
                    Err(e) => Err(e),
                }
            },
        }
    }

    /// Appends the bytes of `node` to `buf`. Where it fails, `buf` is as it
    /// was. Where it succeeds, `buf` has grown by the envelope of a message
    /// for `node`.
    pub fn try_encode<P>(&self, node: &ShufflePlan<P>, buf: &mut Vec<u8>) -> (r: Result<
        (),
        BallistaError,
    >)
        ensures
            r is Ok <==> encode_failure(*node) is None,
            r matches Err(e) ==> encode_failure(*node) == Some(e) && final(buf)@ == old(buf)@,
            r is Ok ==> exists|n: BallistaPhysicalPlanNodeView| #[trigger]
                represents(n, *node) && n.fits() && final(buf)@ == old(buf)@ + n.wire(),
    {
        let physical_plan_type = match node {
            ShufflePlan::ShuffleWriter(exec) => PhysicalPlanType::ShuffleWriter(
                writer_to_proto(exec)?,
            ),
            ShufflePlan::ShuffleReader(exec) => PhysicalPlanType::ShuffleReader(
                reader_to_proto(exec)?,
            ),
            ShufflePlan::UnresolvedShuffle(exec) => PhysicalPlanType::UnresolvedShuffle(
                unresolved_to_proto(exec)?,
            ),
            ShufflePlan::Other(_) => {
                return Err(BallistaError::Internal(InternalFault::UnsupportedPlan));
            },
        };
        let proto = BallistaPhysicalPlanNode { physical_plan_type: Some(physical_plan_type) };
        proto.encode(buf);
        proof {
            assert(represents(proto@, *node));
        }
        Ok(())
    }
}

/// The locations of a shuffle reader that convert to messages convert back
/// to themselves.
pub proof fn lemma_rows_round_trip(rows: Seq<Seq<PartitionLocationView>>)
    requires
        all_rows_convert(rows),
    ensures
        all_rows_read(rows_to_proto(rows)),
        rows_from_proto(rows_to_proto(rows)) == rows,
{
    let messages = rows_to_proto(rows);
    assert forall|i: int| 0 <= i < messages.len() implies row_reads(#[trigger] messages[i])
        && row_from_proto(messages[i]) == rows[i] by {
        assert(row_converts(rows[i]));
        crate::serde::scheduler::lemma_row_round_trip(rows[i]);
    }
    assert(rows_from_proto(messages) =~= rows);
}

/// Whether the engine reads a schema message from the bytes `blob`.
pub open spec fn holds_schema_message(blob: Option<Seq<u8>>) -> bool {
    blob matches Some(b) && schema_message_read(b) is Ok
}

/// Decoding what was encoded for an unresolved shuffle asks the engine for
/// the schema of the message that was written, and gives the node back
/// where the engine answers with the node's schema.
pub proof fn lemma_unresolved_codec_round_trip<P>(
    exec: UnresolvedShuffleExec,
    n: BallistaPhysicalPlanNodeView,
    r: Result<ShufflePlan<P>, BallistaError>,
)
    requires
        represents::<P>(n, ShufflePlan::UnresolvedShuffle(exec)),
        n.fits(),
        n.physical_plan_type matches Some(PhysicalPlanTypeView::UnresolvedShuffle(m))
            && holds_schema_message(m.schema),
        decoded(
            n.wire(),
            Seq::<ResolvedInput<P>>::empty(),
            EngineAnswer::Schema(Ok(exec.schema)),
            r,
        ),
    ensures
        requested(n.wire(), 0) == EngineRequestView::Schema(
            schema_message_read(
                n.physical_plan_type->Some_0->UnresolvedShuffle_0.schema->Some_0,
            )->Ok_0,
        ),
        r matches Ok(ShufflePlan::UnresolvedShuffle(back)) && back == exec,
{
    crate::serde::protobuf::lemma_plan_node_round_trip(n);
}

/// Decoding what was encoded for a shuffle reader asks the engine for the
/// schema of the message that was written, and gives the stage, the schema
/// and every location back where the engine answers with the node's schema.
pub proof fn lemma_reader_codec_round_trip<P>(
    exec: ShuffleReaderExec,
    n: BallistaPhysicalPlanNodeView,
    r: Result<ShufflePlan<P>, BallistaError>,
)
    requires
        encode_failure::<P>(ShufflePlan::ShuffleReader(exec)) is None,
        represents::<P>(n, ShufflePlan::ShuffleReader(exec)),
        n.fits(),
        n.physical_plan_type matches Some(PhysicalPlanTypeView::ShuffleReader(m))
            && holds_schema_message(m.schema),
        decoded(
            n.wire(),
            Seq::<ResolvedInput<P>>::empty(),
            EngineAnswer::Schema(Ok(exec.schema)),
            r,
        ),
    ensures
        requested(n.wire(), 0) == EngineRequestView::Schema(
            schema_message_read(n.physical_plan_type->Some_0->ShuffleReader_0.schema->Some_0)->Ok_0,
        ),
        r matches Ok(ShufflePlan::ShuffleReader(back)) && back.stage_id == exec.stage_id
            && back.schema == exec.schema && partition_rows(back.partition@) == partition_rows(
            exec.partition@,
        ),
{
    crate::serde::protobuf::lemma_plan_node_round_trip(n);
    lemma_rows_round_trip(partition_rows(exec.partition@));
}

/// Whether each blob reads back as the message that it was written for.
pub open spec fn read_back(nodes: Seq<PhysicalExprNode>, blobs: Seq<Seq<u8>>) -> bool {
    &&& nodes.len() == blobs.len()
    &&& forall|i: int|
        0 <= i < blobs.len() ==> ((#[trigger] expr_node_read(blobs[i])) matches Ok(node) && node
            == nodes[i])
}

/// Decoding what was encoded for a shuffle writer with hash partitioning
/// asks the engine for hash partitioning over the messages that the engine
/// made of the writer's hash expressions, in their order, and over the
/// writer's bucket count, as long as each message reads back from the bytes
/// that were written for it.
pub proof fn lemma_writer_request<P>(
    exec: ShuffleWriterExec<P>,
    p: Partitioning,
    n: BallistaPhysicalPlanNodeView,
)
    requires
        exec.shuffle_output_partitioning == Some(p),
        represents(n, ShufflePlan::ShuffleWriter(exec)),
        n.fits(),
        n.physical_plan_type matches Some(PhysicalPlanTypeView::ShuffleWriter(m))
            && m.output_partitioning matches Some(h) && read_back(
            hash_exprs_serialized(p)->Ok_0,
            h.hash_expr,
        ),
    ensures
        requested(n.wire(), 1) == (EngineRequestView::HashPartitioning {
            hash_expr: hash_exprs_serialized(p)->Ok_0,
            partition_count: shape_of(p)->partitions,
        }),
{
    crate::serde::protobuf::lemma_plan_node_round_trip(n);
    let m = n.physical_plan_type->Some_0->ShuffleWriter_0;
    let h = m.output_partitioning->Some_0;
    let nodes = hash_exprs_serialized(p)->Ok_0;
    assert(all_exprs_read(h.hash_expr));
    assert(exprs_read(h.hash_expr) =~= nodes);
}

/// Decoding what was encoded for a shuffle writer, over the child that the
/// writer had, gives the job, the stage and the child back, and no working
/// directory. A writer without partitioning comes back without, whatever
/// the engine is said to have answered. A writer with hash partitioning
/// comes back with the partitioning that the engine answered, where that
/// has the writer's shape and the expression messages can be read: with its
/// own, where the engine parses back what it serialized.
pub proof fn lemma_writer_codec_round_trip<P>(
    exec: ShuffleWriterExec<P>,
    schema: Arc<Schema>,
    n: BallistaPhysicalPlanNodeView,
    answer: EngineAnswer,
    r: Result<ShufflePlan<P>, BallistaError>,
)
    requires
        encode_failure(ShufflePlan::ShuffleWriter(exec)) is None,
        represents(n, ShufflePlan::ShuffleWriter(exec)),
        n.fits(),
        decoded(n.wire(), seq![ResolvedInput { plan: exec.plan, schema }], answer, r),
        exec.shuffle_output_partitioning matches Some(p) ==> {
            &&& answer matches EngineAnswer::HashPartitioning(Ok(Some(q))) && shape_of(q)
                == shape_of(p)
            &&& n.physical_plan_type matches Some(PhysicalPlanTypeView::ShuffleWriter(m))
                && m.output_partitioning matches Some(h) && all_exprs_read(h.hash_expr)
        },
    ensures
        r matches Ok(ShufflePlan::ShuffleWriter(back)) && {
            &&& back.job_id@ == exec.job_id@
            &&& back.stage_id == exec.stage_id
            &&& back.plan == exec.plan
            &&& back.work_dir@.len() == 0
            &&& exec.shuffle_output_partitioning is None
                ==> back.shuffle_output_partitioning is None
            &&& exec.shuffle_output_partitioning is Some ==> (answer
                matches EngineAnswer::HashPartitioning(Ok(found))
                && back.shuffle_output_partitioning == found)
        },
{
    crate::serde::protobuf::lemma_plan_node_round_trip(n);
}

/// No two nodes share their bytes unless they are of one kind and carry the
/// same job, stage, counts and locations, and the same serialized schema
/// and hash expressions.
pub proof fn lemma_encoding_injective<P>(
    a: ShufflePlan<P>,
    b: ShufflePlan<P>,
    na: BallistaPhysicalPlanNodeView,
    nb: BallistaPhysicalPlanNodeView,
)
    requires
        represents(na, a),
        represents(nb, b),
        na.fits(),
        nb.fits(),
        na.wire() == nb.wire(),
    ensures
        na == nb,
        a matches ShufflePlan::ShuffleWriter(x) ==> b matches ShufflePlan::ShuffleWriter(y)
            && x.job_id@ == y.job_id@ && x.stage_id == y.stage_id
            && (x.shuffle_output_partitioning is Some <==> y.shuffle_output_partitioning is Some),
        a matches ShufflePlan::ShuffleReader(x) ==> b matches ShufflePlan::ShuffleReader(y)
            && x.stage_id == y.stage_id && rows_to_proto(partition_rows(x.partition@))
            == rows_to_proto(partition_rows(y.partition@)),
        a matches ShufflePlan::UnresolvedShuffle(x) ==> b matches ShufflePlan::UnresolvedShuffle(y)
            && x.stage_id == y.stage_id && x.output_partition_count == y.output_partition_count,
{
    crate::serde::protobuf::lemma_plan_node_wire_injective(na, nb);
}

/// A shuffle writer decodes with exactly one child, a shuffle reader and an
/// unresolved shuffle with none: every other number of children is refused,
/// whatever the message holds and whatever the engine answered.
pub proof fn lemma_arity<P>(
    n: BallistaPhysicalPlanNodeView,
    inputs: Seq<ResolvedInput<P>>,
    answer: EngineAnswer,
    r: Result<ShufflePlan<P>, BallistaError>,
)
    requires
        envelope_decoded(n, inputs, answer, r),
    ensures
        (n.physical_plan_type matches Some(PhysicalPlanTypeView::ShuffleWriter(_)))
            && inputs.len() != 1 ==> r == Err::<ShufflePlan<P>, BallistaError>(
            BallistaError::MissingChild { expected: 1, found: inputs.len() as usize },
        ),
        (n.physical_plan_type matches Some(PhysicalPlanTypeView::ShuffleReader(_)))
            && inputs.len() != 0 ==> r == Err::<ShufflePlan<P>, BallistaError>(
            BallistaError::MissingChild { expected: 0, found: inputs.len() as usize },
        ),
        (n.physical_plan_type matches Some(PhysicalPlanTypeView::UnresolvedShuffle(_)))
            && inputs.len() != 0 ==> r == Err::<ShufflePlan<P>, BallistaError>(
            BallistaError::MissingChild { expected: 0, found: inputs.len() as usize },
        ),
{
}

} // verus!
