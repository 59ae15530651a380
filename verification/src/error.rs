//! The error type of the codecs.

use crate::serde::engine::PartitioningShape;
use datafusion::common::DataFusionError;
use vstd::prelude::*;

verus! {

/// The error of the execution engine. It is carried, never looked into.
#[verifier::external_type_specification]
#[verifier::external_body]
pub struct ExDataFusionError(DataFusionError);

/// Why a codec would not handle what it was given.
#[derive(Debug)]
pub enum Unsupported {
    /// Every sub-codec was tried and refused; this is what the last one said.
    SubCodec(DataFusionError),
    /// There is no sub-codec to try.
    NoCodec,
    /// The node is an extension of the logical plan, which no codec here
    /// serves; this is what the engine's default codec said.
    Extension(DataFusionError),
    /// The action envelope names no action that is known here.
    Action,
}

/// What is wrong with bytes that do not parse.
#[derive(Debug)]
pub enum Malformed {
    /// A file-format blob must hold at least its position byte.
    EmptyBlob,
    /// The bytes are not the envelope of a plan node.
    Envelope,
    /// The sub-codec that the blob names could not read its payload.
    Payload(DataFusionError),
}

/// What is wrong with a schema that a node carries.
#[derive(Debug)]
pub enum SchemaFault {
    /// The node must carry a schema and carries none.
    Missing,
    /// The bytes are not a schema message.
    Unreadable,
    /// The schema message names a type or field that cannot be built.
    Invalid(DataFusionError),
}

/// An invariant that did not hold.
#[derive(Debug)]
pub enum InternalFault {
    /// The envelope holds no node.
    MissingPlanType,
    /// A shuffle writer partitions by hash or not at all; this is how the
    /// writer partitions.
    InvalidPartitioning(PartitioningShape),
    /// The node is none of the three shuffle nodes.
    UnsupportedPlan,
    /// More sub-codecs than a position byte can tell apart; this is how
    /// many there are.
    TooManyCodecs(usize),
    /// A partition location does not convert; this is why.
    Location(Box<BallistaError>),
    /// A number does not fit the width that the other side gives it.
    OutOfRange,
    /// The bytes are not an action envelope.
    MalformedAction,
    /// The execution engine refused a schema or an expression.
    Engine(DataFusionError),
    /// What the engine was said to have answered is no answer to what it
    /// was asked.
    UnfitAnswer,
}

/// Everything that encoding or decoding can fail with.
#[derive(Debug)]
pub enum BallistaError {
    /// A codec was asked for something it does not own.
    Unsupported(Unsupported),
    /// The bytes do not parse.
    Malformed(Malformed),
    /// A schema is absent where one is needed, or cannot be rebuilt.
    SchemaMismatch(SchemaFault),
    /// The node needs `expected` children and was given `found`.
    MissingChild { expected: usize, found: usize },
    /// The blob names the sub-codec at `position`, and only `registered` are
    /// there.
    UnsupportedCodec { position: u8, registered: usize },
    /// An invariant of the plan does not hold.
    Internal(InternalFault),
}

} // verus!
