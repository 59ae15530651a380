//! What the execution engine does for the physical codec.
//!
//! Schemas and hash expressions belong to the engine, and so does their
//! serialized form. Every function below hands its arguments to the engine
//! and is believed, not proved. What the engine reads from given bytes, and
//! which messages it makes of given expressions, depends on those alone and
//! has a name. The bytes that it writes for a message have no such name: a
//! schema's metadata is written in the order a hash map walks it. Of them
//! only a relation is named, which holds of every value and the bytes
//! written for it. An error of the engine is the same for the same value as
//! long as the engine is built without backtraces in its errors, as it is
//! here.
//!
//! Nothing here turns a message back into a schema or an expression. The
//! engine does so outside this library, on what `EngineRequest` hands it.

use datafusion::arrow::datatypes::Schema;
use datafusion::common::DataFusionError;
use datafusion::physical_plan::Partitioning;
use datafusion_proto::protobuf::PhysicalExprNode;
use datafusion_proto::protobuf::Schema as SchemaMessage;
use prost::DecodeError;
use std::sync::Arc;
use vstd::prelude::*;

verus! {

/// The error of `prost` for bytes that it cannot read. Nothing of it is
/// looked at here.
#[verifier::external_type_specification]
#[verifier::external_body]
pub struct ExDecodeError(DecodeError);

/// A schema of the engine. It is carried, never looked into.
#[verifier::external_type_specification]
#[verifier::external_body]
pub struct ExSchema(Schema);

/// The message of a serialized schema. It is carried, never looked into.
#[verifier::external_type_specification]
#[verifier::external_body]
pub struct ExSchemaMessage(SchemaMessage);

/// A partitioning scheme of the engine. Its variants are told apart by
/// `partitioning_shape`.
#[verifier::external_type_specification]
#[verifier::external_body]
pub struct ExPartitioning(Partitioning);

/// The message of a serialized expression. It is carried, never looked into.
#[verifier::external_type_specification]
#[verifier::external_body]
pub struct ExPhysicalExprNode(PhysicalExprNode);

/// Which partitioning scheme a `Partitioning` is, with its numbers.
#[derive(Clone, Copy, Debug, PartialEq, Eq)]
pub enum PartitioningShape {
    /// Batches go round robin to this many partitions.
    RoundRobinBatch(usize),
    /// Rows go by the hash of `exprs` expressions to `partitions` buckets.
    Hash { exprs: usize, partitions: usize },
    /// This many partitions, made nobody knows how.
    UnknownPartitioning(usize),
}

/// The scheme of `p`.
pub uninterp spec fn shape_of(p: Partitioning) -> PartitioningShape;

/// The messages that the engine makes of the hash expressions of `p`, one
/// for each in order, or the error with which it refuses the first that it
/// cannot serialize.
pub uninterp spec fn hash_exprs_serialized(p: Partitioning) -> Result<
    Seq<PhysicalExprNode>,
    DataFusionError,
>;

/// Whether `bytes` are bytes that were written for the expression message
/// `node`.
pub uninterp spec fn expr_blob_of(node: PhysicalExprNode, bytes: Seq<u8>) -> bool;

/// The expression message that `bytes` hold.
pub uninterp spec fn expr_node_read(bytes: Seq<u8>) -> Result<PhysicalExprNode, DecodeError>;

/// The error with which the engine refuses to serialize `schema`; `None`
/// where it serializes it.
pub uninterp spec fn schema_refusal(schema: Schema) -> Option<DataFusionError>;

/// Whether `bytes` are bytes that were written for `schema`.
pub uninterp spec fn schema_blob_of(schema: Schema, bytes: Seq<u8>) -> bool;

/// The schema message that `bytes` hold.
pub uninterp spec fn schema_message_read(bytes: Seq<u8>) -> Result<
    SchemaMessage,
    DecodeError,
>;

/// Trusted: tells the three variants of `Partitioning` apart and hands out
/// their numbers; of the hash expressions, how many there are.
#[verifier::external_body]
pub(crate) fn partitioning_shape(p: &Partitioning) -> (r: PartitioningShape)
    ensures
        r == shape_of(*p),
{
    match p {
        Partitioning::RoundRobinBatch(n) => PartitioningShape::RoundRobinBatch(*n),
        Partitioning::Hash(exprs, n) => PartitioningShape::Hash {
            exprs: exprs.len(),
            partitions: *n,
        },
        Partitioning::UnknownPartitioning(n) => PartitioningShape::UnknownPartitioning(*n),
    }
}

/// Trusted: `datafusion_proto::physical_plan::to_proto::serialize_physical_exprs`
/// with the default codec, on the hash expressions of `p`. It gives one
/// message per expression, in order, or the first error. It is called on
/// hash partitioning only; the other arm is never reached.
#[verifier::external_body]
pub(crate) fn hash_expr_nodes(p: &Partitioning) -> (r: Result<
    Vec<PhysicalExprNode>,
    DataFusionError,
>)
    requires
        shape_of(*p) is Hash,
    ensures
        r matches Ok(nodes) ==> hash_exprs_serialized(*p) matches Ok(s) && s == nodes@,
        r matches Err(e) ==> hash_exprs_serialized(*p) matches Err(x) && x == e,
        r matches Ok(nodes) ==> nodes@.len() == shape_of(*p)->exprs,
{
    match p {
        Partitioning::Hash(exprs, _) => {
            datafusion_proto::physical_plan::to_proto::serialize_physical_exprs(
                exprs,
                &datafusion_proto::physical_plan::DefaultPhysicalExtensionCodec {},
            )
        },
        _ => Ok(Vec::new()),
    }
}

/// Trusted: `prost::Message::encode_to_vec` on an expression message. Of
/// the bytes it is claimed only that they were written for this message.
#[verifier::external_body]
pub(crate) fn expr_node_bytes(node: &PhysicalExprNode) -> (r: Vec<u8>)
    ensures
        expr_blob_of(*node, r@),
{
    prost::Message::encode_to_vec(node)
}

/// Trusted: `prost::Message::decode` for an expression message.
#[verifier::external_body]
pub(crate) fn expr_node(bytes: &[u8]) -> (r: Result<PhysicalExprNode, DecodeError>)
    ensures
        r == expr_node_read(bytes@),
{
    <PhysicalExprNode as prost::Message>::decode(bytes)
}

/// Trusted: the conversion of a `Schema` to its message
/// (`TryFrom<&Schema>` for the schema message of `datafusion_proto`), then
/// `prost::Message::encode_to_vec`. Of the bytes it is claimed only that
/// they were written for this schema.
#[verifier::external_body]
pub(crate) fn schema_bytes(schema: &Arc<Schema>) -> (r: Result<Vec<u8>, DataFusionError>)
    ensures
        r is Ok <==> schema_refusal(**schema) is None,
        r matches Err(e) ==> schema_refusal(**schema) == Some(e),
        r matches Ok(bytes) ==> schema_blob_of(**schema, bytes@),
{
    let message = SchemaMessage::try_from(schema.as_ref())?;
    Ok(prost::Message::encode_to_vec(&message))
}

/// Trusted: `prost::Message::decode` for a schema message.
#[verifier::external_body]
pub(crate) fn schema_message(bytes: &[u8]) -> (r: Result<
    SchemaMessage,
    DecodeError,
>)
    ensures
        r == schema_message_read(bytes@),
{
    <SchemaMessage as prost::Message>::decode(bytes)
}

} // verus!
