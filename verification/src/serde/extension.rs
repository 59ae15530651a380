//! The engine's default codec for the extension nodes of a logical plan.
//!
//! The composed codec owns file-format blobs and nothing else. An extension
//! node goes to the engine's default codec, which serves none: the two
//! functions below hand their arguments to it and are believed, not proved.

use datafusion::common::DataFusionError;
use datafusion::logical_expr::{Extension, LogicalPlan};
use datafusion::prelude::SessionContext;
use vstd::prelude::*;

verus! {

/// An extension node of a logical plan. It is carried, never looked into.
#[verifier::external_type_specification]
#[verifier::external_body]
pub struct ExExtension(Extension);

/// A logical plan of the engine. It is carried, never looked into.
#[verifier::external_type_specification]
#[verifier::external_body]
pub struct ExLogicalPlan(LogicalPlan);

/// Trusted: `DefaultLogicalExtensionCodec::try_decode`, which refuses
/// whatever it is given.
#[verifier::external_body]
pub(crate) fn default_decode(
    buf: &[u8],
    inputs: &[LogicalPlan],
    ctx: &SessionContext,
) -> (r: Result<Extension, DataFusionError>)
    ensures
        r is Err,
{
    datafusion_proto::logical_plan::LogicalExtensionCodec::try_decode(
        &datafusion_proto::logical_plan::DefaultLogicalExtensionCodec {},
        buf,
        inputs,
        ctx,
    )
}

/// Trusted: `DefaultLogicalExtensionCodec::try_encode`, which refuses
/// whatever it is given and writes nothing.
#[verifier::external_body]
pub(crate) fn default_encode(node: &Extension, buf: &mut Vec<u8>) -> (r: Result<
    (),
    DataFusionError,
>)
    ensures
        r is Err,
        final(buf)@ == old(buf)@,
{
    datafusion_proto::logical_plan::LogicalExtensionCodec::try_encode(
        &datafusion_proto::logical_plan::DefaultLogicalExtensionCodec {},
        node,
        buf,
    )
}

} // verus!
