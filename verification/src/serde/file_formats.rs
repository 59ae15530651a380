//! The file-format sub-codecs of the execution engine.
//!
//! Each sub-codec writes and reads the options blob of one file format. None
//! of that is done here: every function below hands its arguments to the
//! engine's codec and is believed, not proved. What a sub-codec answers
//! is a function of the node or of the bytes alone, so each answer has a name
//! that contracts can speak of. The bytes that the Parquet encoder writes
//! have none: there a map is written in the order a hash map walks it, and
//! only the relation between a node and bytes written for it is named.
//! An error of a sub-codec is the same for the same node or bytes as long as
//! the engine is built without backtraces in its errors, as it is here.
//! Every encoder starts on an empty buffer of its own. The engine's codecs
//! take and give a factory; here a factory travels inside the
//! `DefaultFileType` that holds it.

use datafusion::common::DataFusionError;
use datafusion::datasource::file_format::DefaultFileType;
use datafusion::prelude::SessionContext;
use vstd::prelude::*;

verus! {

/// A file format as the engine holds it: a factory for the format, with its
/// options. It is carried to the sub-codecs, never looked into.
#[verifier::external_type_specification]
#[verifier::external_body]
pub struct ExDefaultFileType(DefaultFileType);

/// A session of the engine. It is handed on to the engine, never looked into.
#[verifier::external_type_specification]
#[verifier::external_body]
pub struct ExSessionContext(SessionContext);

/// What the CSV codec writes for `node`, or the error with which it refuses
/// it.
pub uninterp spec fn csv_encoded(node: DefaultFileType) -> Result<Seq<u8>, DataFusionError>;

/// What the JSON codec writes for `node`, or the error with which it refuses
/// it.
pub uninterp spec fn json_encoded(node: DefaultFileType) -> Result<Seq<u8>, DataFusionError>;

/// The error with which the Parquet codec refuses to encode `node`; `None`
/// where it accepts.
pub uninterp spec fn parquet_refusal(node: DefaultFileType) -> Option<DataFusionError>;

/// Whether `bytes` are bytes that the Parquet codec wrote for `node`.
pub uninterp spec fn parquet_blob_of(node: DefaultFileType, bytes: Seq<u8>) -> bool;

/// What the CSV codec reads from `payload`.
pub uninterp spec fn csv_decoded(payload: Seq<u8>) -> Result<DefaultFileType, DataFusionError>;

/// What the JSON codec reads from `payload`.
pub uninterp spec fn json_decoded(payload: Seq<u8>) -> Result<DefaultFileType, DataFusionError>;

/// What the Parquet codec reads from `payload`.
pub uninterp spec fn parquet_decoded(payload: Seq<u8>) -> Result<
    DefaultFileType,
    DataFusionError,
>;

/// What the Arrow codec reads from `payload`.
pub uninterp spec fn arrow_decoded(payload: Seq<u8>) -> Result<DefaultFileType, DataFusionError>;

/// What the Avro codec reads from `payload`.
pub uninterp spec fn avro_decoded(payload: Seq<u8>) -> Result<DefaultFileType, DataFusionError>;

/// Trusted: `CsvLogicalExtensionCodec::try_encode_file_format` on an empty
/// buffer. It refuses a factory that is not the CSV one, and else writes the
/// options message, which holds no map: the bytes depend on the node alone.
#[verifier::external_body]
pub(crate) fn csv_encode(node: &DefaultFileType) -> (r: Result<Vec<u8>, DataFusionError>)
    ensures
        r matches Ok(written) ==> csv_encoded(*node) matches Ok(bytes) && bytes == written@,
        r matches Err(e) ==> csv_encoded(*node) matches Err(x) && x == e,
{
    let mut written = Vec::new();
    datafusion_proto::logical_plan::LogicalExtensionCodec::try_encode_file_format(
        &datafusion_proto::logical_plan::file_formats::CsvLogicalExtensionCodec,
        &mut written,
        node.as_format_factory().clone(),
    )?;
    Ok(written)
}

/// Trusted: `JsonLogicalExtensionCodec::try_encode_file_format` on an empty
/// buffer. It refuses a factory that is not the JSON one, and else writes the
/// options message, which holds no map: the bytes depend on the node alone.
#[verifier::external_body]
pub(crate) fn json_encode(node: &DefaultFileType) -> (r: Result<Vec<u8>, DataFusionError>)
    ensures
        r matches Ok(written) ==> json_encoded(*node) matches Ok(bytes) && bytes == written@,
        r matches Err(e) ==> json_encoded(*node) matches Err(x) && x == e,
{
    let mut written = Vec::new();
    datafusion_proto::logical_plan::LogicalExtensionCodec::try_encode_file_format(
        &datafusion_proto::logical_plan::file_formats::JsonLogicalExtensionCodec,
        &mut written,
        node.as_format_factory().clone(),
    )?;
    Ok(written)
}

/// Trusted: `ParquetLogicalExtensionCodec::try_encode_file_format` on an
/// empty buffer. It refuses a factory that is not the Parquet one, and else
/// writes the options message. Of the bytes it is claimed only that they
/// were written for this node: the options of single columns are written in
/// the order a hash map walks them.
#[verifier::external_body]
pub(crate) fn parquet_encode(node: &DefaultFileType) -> (r: Result<Vec<u8>, DataFusionError>)
    ensures
        r is Ok <==> parquet_refusal(*node) is None,
        r matches Err(e) ==> parquet_refusal(*node) == Some(e),
        r matches Ok(written) ==> parquet_blob_of(*node, written@),
{
    let mut written = Vec::new();
    datafusion_proto::logical_plan::LogicalExtensionCodec::try_encode_file_format(
        &datafusion_proto::logical_plan::file_formats::ParquetLogicalExtensionCodec,
        &mut written,
        node.as_format_factory().clone(),
    )?;
    Ok(written)
}

/// Trusted: `ArrowLogicalExtensionCodec::try_encode_file_format` on an empty
/// buffer. It accepts every factory and writes nothing.
#[verifier::external_body]
pub(crate) fn arrow_encode(node: &DefaultFileType) -> (r: Result<Vec<u8>, DataFusionError>)
    ensures
        r is Ok,
        r matches Ok(written) ==> written@.len() == 0,
{
    let mut written = Vec::new();
    datafusion_proto::logical_plan::LogicalExtensionCodec::try_encode_file_format(
        &datafusion_proto::logical_plan::file_formats::ArrowLogicalExtensionCodec,
        &mut written,
        node.as_format_factory().clone(),
    )?;
    Ok(written)
}

/// Trusted: `AvroLogicalExtensionCodec::try_encode_file_format` on an empty
/// buffer. It accepts every factory and writes nothing.
#[verifier::external_body]
pub(crate) fn avro_encode(node: &DefaultFileType) -> (r: Result<Vec<u8>, DataFusionError>)
    ensures
        r is Ok,
        r matches Ok(written) ==> written@.len() == 0,
{
    let mut written = Vec::new();
    datafusion_proto::logical_plan::LogicalExtensionCodec::try_encode_file_format(
        &datafusion_proto::logical_plan::file_formats::AvroLogicalExtensionCodec,
        &mut written,
        node.as_format_factory().clone(),
    )?;
    Ok(written)
}

/// Trusted: `CsvLogicalExtensionCodec::try_decode_file_format`, which reads
/// an options message from `payload` and does not look at the session.
#[verifier::external_body]
pub(crate) fn csv_decode(payload: &[u8], ctx: &SessionContext) -> (r: Result<
    DefaultFileType,
    DataFusionError,
>)
    ensures
        r == csv_decoded(payload@),
{
    datafusion_proto::logical_plan::LogicalExtensionCodec::try_decode_file_format(
        &datafusion_proto::logical_plan::file_formats::CsvLogicalExtensionCodec,
        payload,
        ctx,
    ).map(DefaultFileType::new)
}

/// Trusted: `JsonLogicalExtensionCodec::try_decode_file_format`, which reads
/// an options message from `payload` and does not look at the session.
#[verifier::external_body]
pub(crate) fn json_decode(payload: &[u8], ctx: &SessionContext) -> (r: Result<
    DefaultFileType,
    DataFusionError,
>)
    ensures
        r == json_decoded(payload@),
{
    datafusion_proto::logical_plan::LogicalExtensionCodec::try_decode_file_format(
        &datafusion_proto::logical_plan::file_formats::JsonLogicalExtensionCodec,
        payload,
        ctx,
    ).map(DefaultFileType::new)
}

/// Trusted: `ParquetLogicalExtensionCodec::try_decode_file_format`, which
/// reads an options message from `payload` and does not look at the session.
#[verifier::external_body]
pub(crate) fn parquet_decode(payload: &[u8], ctx: &SessionContext) -> (r: Result<
    DefaultFileType,
    DataFusionError,
>)
    ensures
        r == parquet_decoded(payload@),
{
    datafusion_proto::logical_plan::LogicalExtensionCodec::try_decode_file_format(
        &datafusion_proto::logical_plan::file_formats::ParquetLogicalExtensionCodec,
        payload,
        ctx,
    ).map(DefaultFileType::new)
}

/// Trusted: `ArrowLogicalExtensionCodec::try_decode_file_format`, which
/// gives the Arrow factory whatever the payload and the session hold.
#[verifier::external_body]
pub(crate) fn arrow_decode(payload: &[u8], ctx: &SessionContext) -> (r: Result<
    DefaultFileType,
    DataFusionError,
>)
    ensures
        r is Ok,
        r == arrow_decoded(payload@),
        r == arrow_decoded(Seq::empty()),
{
    datafusion_proto::logical_plan::LogicalExtensionCodec::try_decode_file_format(
        &datafusion_proto::logical_plan::file_formats::ArrowLogicalExtensionCodec,
        payload,
        ctx,
    ).map(DefaultFileType::new)
}

/// Trusted: `AvroLogicalExtensionCodec::try_decode_file_format`, which gives
/// the Arrow factory whatever the payload and the session hold.
#[verifier::external_body]
pub(crate) fn avro_decode(payload: &[u8], ctx: &SessionContext) -> (r: Result<
    DefaultFileType,
    DataFusionError,
>)
    ensures
        r is Ok,
        r == avro_decoded(payload@),
        r == arrow_decoded(Seq::empty()),
{
    datafusion_proto::logical_plan::LogicalExtensionCodec::try_decode_file_format(
        &datafusion_proto::logical_plan::file_formats::AvroLogicalExtensionCodec,
        payload,
        ctx,
    ).map(DefaultFileType::new)
}

} // verus!
