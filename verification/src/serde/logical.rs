//! The composed codec for file-format blobs.
//!
//! It holds an ordered list of sub-codecs. To encode, it tries them in order
//! and writes the position of the first that accepts in front of what that
//! one wrote. To decode, it reads the position and hands the rest to exactly
//! that sub-codec. Both ends must hold the same list in the same order.

use crate::error::{BallistaError, InternalFault, Malformed, Unsupported};
use crate::serde::extension::{default_decode, default_encode};
use crate::serde::file_formats::{
    arrow_decode, arrow_decoded, arrow_encode, avro_decode, avro_decoded, avro_encode, csv_decode,
    csv_decoded, csv_encode, csv_encoded, json_decode, json_decoded, json_encode, json_encoded,
    parquet_blob_of, parquet_decode, parquet_decoded, parquet_encode, parquet_refusal,
};
use datafusion::common::DataFusionError;
use datafusion::datasource::file_format::DefaultFileType;
use datafusion::logical_expr::{Extension, LogicalPlan};
use datafusion::prelude::SessionContext;
use vstd::prelude::*;
use vstd::slice::*;

verus! {

/// Most sub-codecs that one position byte can tell apart.
pub const MAX_SUB_CODECS: usize = 256;

/// One sub-codec, by the file format that it serves.
#[derive(Clone, Copy, Debug, PartialEq, Eq)]
pub enum FileFormatCodec {
    /// Delimited text.
    Csv,
    /// Structured records.
    Json,
    /// Columnar.
    Parquet,
    /// Row-columnar.
    Arrow,
    /// Schema-on-read.
    Avro,
}

/// The error with which `codec` refuses to encode `node`; `None` where it
/// accepts.
pub open spec fn encode_refusal(codec: FileFormatCodec, node: DefaultFileType) -> Option<
    DataFusionError,
> {
    match codec {
        FileFormatCodec::Csv => match csv_encoded(node) {
            Ok(_) => None,
            Err(e) => Some(e),
        },
        FileFormatCodec::Json => match json_encoded(node) {
            Ok(_) => None,
            Err(e) => Some(e),
        },
        FileFormatCodec::Parquet => parquet_refusal(node),
        FileFormatCodec::Arrow => None,
        FileFormatCodec::Avro => None,
    }
}

/// Whether `payload` is what `codec` writes for `node`: for CSV and JSON the
/// bytes that the node determines, for Parquet bytes written for the node,
/// for Arrow and Avro nothing.
pub open spec fn payload_of(
    codec: FileFormatCodec,
    node: DefaultFileType,
    payload: Seq<u8>,
) -> bool {
    match codec {
        FileFormatCodec::Csv => csv_encoded(node) matches Ok(bytes) && bytes == payload,
        FileFormatCodec::Json => json_encoded(node) matches Ok(bytes) && bytes == payload,
        FileFormatCodec::Parquet => parquet_blob_of(node, payload),
        FileFormatCodec::Arrow => payload.len() == 0,
        FileFormatCodec::Avro => payload.len() == 0,
    }
}

/// What `codec` reads from `payload`.
pub open spec fn sub_decoded(codec: FileFormatCodec, payload: Seq<u8>) -> Result<
    DefaultFileType,
    DataFusionError,
> {
    match codec {
        FileFormatCodec::Csv => csv_decoded(payload),
        FileFormatCodec::Json => json_decoded(payload),
        FileFormatCodec::Parquet => parquet_decoded(payload),
        FileFormatCodec::Arrow => arrow_decoded(payload),
        FileFormatCodec::Avro => avro_decoded(payload),
    }
}

/// Whether the sub-codec at `position` accepts `node` and none before it does.
pub open spec fn first_accepting(
    codecs: Seq<FileFormatCodec>,
    node: DefaultFileType,
    position: int,
) -> bool {
    &&& 0 <= position < codecs.len()
    &&& encode_refusal(codecs[position], node) is None
    &&& forall|j: int| 0 <= j < position ==> (#[trigger] encode_refusal(codecs[j], node)) is Some
}

/// Whether every sub-codec refuses `node`.
pub open spec fn all_refuse(codecs: Seq<FileFormatCodec>, node: DefaultFileType) -> bool {
    forall|j: int| 0 <= j < codecs.len() ==> (#[trigger] encode_refusal(codecs[j], node)) is Some
}

/// The error of an encoding that no sub-codec accepted: what the last of them
/// said, or that there was none to ask.
pub open spec fn refusal_of_all(
    codecs: Seq<FileFormatCodec>,
    node: DefaultFileType,
) -> BallistaError {
    if codecs.len() == 0 {
        BallistaError::Unsupported(Unsupported::NoCodec)
    } else {
        BallistaError::Unsupported(
            Unsupported::SubCodec(encode_refusal(codecs.last(), node).unwrap()),
        )
    }
}

/// A file-format blob: the position of the sub-codec, then what it wrote.
pub open spec fn file_format_blob(position: u8, payload: Seq<u8>) -> Seq<u8> {
    seq![position] + payload
}

/// What decoding the blob `buf` against the list `codecs` gives.
pub open spec fn decoded_file_format(codecs: Seq<FileFormatCodec>, buf: Seq<u8>) -> Result<
    DefaultFileType,
    BallistaError,
> {
    if buf.len() == 0 {
        Err(BallistaError::Malformed(Malformed::EmptyBlob))
    } else if buf[0] >= codecs.len() {
        Err(BallistaError::UnsupportedCodec { position: buf[0], registered: codecs.len() as usize })
    } else {
        match sub_decoded(codecs[buf[0] as int], buf.skip(1)) {
            Ok(node) => Ok(node),
            Err(e) => Err(BallistaError::Malformed(Malformed::Payload(e))),
        }
    }
}

/// Which sub-codec a blob names, and the payload that is meant for it.
pub open spec fn selected(codecs: Seq<FileFormatCodec>, buf: Seq<u8>) -> Result<
    (FileFormatCodec, Seq<u8>),
    BallistaError,
> {
    if buf.len() == 0 {
        Err(BallistaError::Malformed(Malformed::EmptyBlob))
    } else if buf[0] >= codecs.len() {
        Err(BallistaError::UnsupportedCodec { position: buf[0], registered: codecs.len() as usize })
    } else {
        Ok((codecs[buf[0] as int], buf.skip(1)))
    }
}

/// Has `codec` encode `node`: what it wrote, or why it refused.
pub fn sub_encode(codec: FileFormatCodec, node: &DefaultFileType) -> (r: Result<
    Vec<u8>,
    DataFusionError,
>)
    ensures
        r is Ok <==> encode_refusal(codec, *node) is None,
        r matches Err(e) ==> encode_refusal(codec, *node) == Some(e),
        r matches Ok(written) ==> payload_of(codec, *node, written@),
{
    match codec {
        FileFormatCodec::Csv => csv_encode(node),
        FileFormatCodec::Json => json_encode(node),
        FileFormatCodec::Parquet => parquet_encode(node),
        FileFormatCodec::Arrow => arrow_encode(node),
        FileFormatCodec::Avro => avro_encode(node),
    }
}

/// Has `codec` decode `payload`.
pub fn sub_decode(codec: FileFormatCodec, payload: &[u8], ctx: &SessionContext) -> (r: Result<
    DefaultFileType,
    DataFusionError,
>)
    ensures
        r == sub_decoded(codec, payload@),
{
    match codec {
        FileFormatCodec::Csv => csv_decode(payload, ctx),
        FileFormatCodec::Json => json_decode(payload, ctx),
        FileFormatCodec::Parquet => parquet_decode(payload, ctx),
        FileFormatCodec::Arrow => arrow_decode(payload, ctx),
        FileFormatCodec::Avro => avro_decode(payload, ctx),
    }
}

/// Writes a file-format blob at the end of `buf`: the position byte, then the
/// payload as it is.
pub fn write_file_format_blob(position: u8, payload: &[u8], buf: &mut Vec<u8>)
    ensures
        final(buf)@ == old(buf)@ + file_format_blob(position, payload@),
{
    let ghost before = buf@;
    buf.push(position);
    crate::serde::wire::append_bytes(buf, payload);
    proof {
        assert(buf@ =~= before + file_format_blob(position, payload@));
    }
}

/// Reads the position byte of a blob and finds the sub-codec that it names.
pub fn select_codec<'a>(codecs: &Vec<FileFormatCodec>, buf: &'a [u8]) -> (r: Result<
    (FileFormatCodec, &'a [u8]),
    BallistaError,
>)
    ensures
        r matches Ok((codec, payload)) ==> selected(codecs@, buf@) == Ok::<
            (FileFormatCodec, Seq<u8>),
            BallistaError,
        >((codec, payload@)),
        r matches Err(e) ==> selected(codecs@, buf@) == Err::<
            (FileFormatCodec, Seq<u8>),
            BallistaError,
        >(e),
{
    if buf.len() == 0 {
        return Err(BallistaError::Malformed(Malformed::EmptyBlob));
    }
    let position = buf[0];
    if position as usize >= codecs.len() {
        return Err(
            BallistaError::UnsupportedCodec { position, registered: codecs.len() },
        );
    }
    let payload = slice_subrange(buf, 1, buf.len());
    Ok((codecs[position as usize], payload))
}

/// The codec for what the logical plan carries beyond the engine's own
/// nodes: file-format blobs, composed from one sub-codec per format.
#[derive(Debug)]
pub struct BallistaLogicalExtensionCodec {
    file_format_codecs: Vec<FileFormatCodec>,
}

impl BallistaLogicalExtensionCodec {
    #[verifier::type_invariant]
    spec fn fits_position_byte(self) -> bool {
        self.file_format_codecs@.len() <= MAX_SUB_CODECS
    }

    /// The sub-codecs, in the order in which they are tried.
    pub closed spec fn codecs(&self) -> Seq<FileFormatCodec> {
        self.file_format_codecs@
    }

    /// The five sub-codecs of the default codec, in their fixed order.
    pub open spec fn default_codecs() -> Seq<FileFormatCodec> {
        seq![
            FileFormatCodec::Csv,
            FileFormatCodec::Json,
            FileFormatCodec::Parquet,
            FileFormatCodec::Arrow,
            FileFormatCodec::Avro,
        ]
    }

    /// A codec over `codecs`, tried in this order. More than 256 are refused:
    /// a position would no longer fit its byte.
    pub fn new(codecs: Vec<FileFormatCodec>) -> (r: Result<Self, BallistaError>)
        ensures
            codecs@.len() <= MAX_SUB_CODECS ==> r is Ok && r.unwrap().codecs() == codecs@,
            codecs@.len() > MAX_SUB_CODECS ==> (r matches Err(e) && e == BallistaError::Internal(
                InternalFault::TooManyCodecs(codecs@.len() as usize),
            )),
    {
        if codecs.len() > MAX_SUB_CODECS {
            Err(BallistaError::Internal(InternalFault::TooManyCodecs(codecs.len())))
        } else {
            Ok(BallistaLogicalExtensionCodec { file_format_codecs: codecs })
        }
    }

    /// The sub-codecs, in the order in which they are tried.
    pub fn file_format_codecs(&self) -> (codecs: &Vec<FileFormatCodec>)
        ensures
            codecs@ == self.codecs(),
            codecs@.len() <= MAX_SUB_CODECS,
    {
        proof {
            use_type_invariant(self);
        }
        &self.file_format_codecs
    }

    /// Reads an extension node of a logical plan. The composed codec owns
    /// none: the node goes to the engine's default codec, without any trial,
    /// and that codec refuses it.
    pub fn try_decode(
        &self,
        buf: &[u8],
        inputs: &[LogicalPlan],
        ctx: &SessionContext,
    ) -> (r: Result<Extension, BallistaError>)
        ensures
            r matches Err(BallistaError::Unsupported(Unsupported::Extension(_))),
    {
        match default_decode(buf, inputs, ctx) {
            Ok(node) => Ok(node),
            Err(e) => Err(BallistaError::Unsupported(Unsupported::Extension(e))),
        }
    }

    /// Writes an extension node of a logical plan. The composed codec owns
    /// none: the node goes to the engine's default codec, without any trial,
    /// and that codec refuses it and leaves `buf` as it was.
    pub fn try_encode(&self, node: &Extension, buf: &mut Vec<u8>) -> (r: Result<(), BallistaError>)
        ensures
            r matches Err(BallistaError::Unsupported(Unsupported::Extension(_))),
            final(buf)@ == old(buf)@,
    {
        match default_encode(node, buf) {
            Ok(()) => Ok(()),
            Err(e) => Err(BallistaError::Unsupported(Unsupported::Extension(e))),
        }
    }

    /// Tries the sub-codecs in order on `node`. Gives the position of the
    /// first that accepts and what it wrote; where none accepts, what the
    /// last one said.
    fn try_any(&self, node: &DefaultFileType) -> (r: Result<(u8, Vec<u8>), BallistaError>)
        ensures
            r matches Ok((position, written)) ==> first_accepting(
                self.codecs(),
                *node,
                position as int,
            ) && payload_of(self.codecs()[position as int], *node, written@),
            self.codecs().len() == 0 ==> r matches Err(
                BallistaError::Unsupported(Unsupported::NoCodec),
            ),
            r matches Err(e) ==> all_refuse(self.codecs(), *node) && e == refusal_of_all(
                self.codecs(),
                *node,
            ),
    {
        proof {
            use_type_invariant(self);
        }
        let mut last_err: Option<DataFusionError> = None;
        let mut position: usize = 0;
        while position < self.file_format_codecs.len()
            invariant
                position <= self.file_format_codecs@.len() <= MAX_SUB_CODECS,
                forall|j: int|
                    0 <= j < position ==> (#[trigger] encode_refusal(
                        self.file_format_codecs@[j],
                        *node,
                    )) is Some,
                position == 0 ==> last_err is None,
                position > 0 ==> last_err == encode_refusal(
                    self.file_format_codecs@[position - 1],
                    *node,
                ),
            decreases self.file_format_codecs@.len() - position,
        {
            match sub_encode(self.file_format_codecs[position], node) {
                Ok(encoded) => {
                    return Ok((position as u8, encoded));
                },
                Err(err) => {
                    last_err = Some(err);
                },
            }
            position += 1;
        }
        match last_err {
            Some(err) => Err(BallistaError::Unsupported(Unsupported::SubCodec(err))),
            None => Err(BallistaError::Unsupported(Unsupported::NoCodec)),
        }
    }

    /// Appends the blob of `node` to `buf`: the position of the first
    /// sub-codec that accepts the node, then what that sub-codec wrote, as it
    /// wrote it.
    /// Where none accepts, `buf` stays as it was and the error is what the
    /// last sub-codec said, or that there is none.
    pub fn try_encode_file_format(&self, buf: &mut Vec<u8>, node: &DefaultFileType) -> (r: Result<
        (),
        BallistaError,
    >)
        ensures
            r is Ok <==> exists|i: int| first_accepting(self.codecs(), *node, i),
            r is Ok ==> {
                &&& final(buf)@.len() > old(buf)@.len()
                &&& old(buf)@.is_prefix_of(final(buf)@)
                &&& first_accepting(
                    self.codecs(),
                    *node,
                    final(buf)@[old(buf)@.len() as int] as int,
                )
            },
            r is Ok ==> exists|position: u8, payload: Seq<u8>|
                first_accepting(self.codecs(), *node, position as int) && final(buf)@ == old(buf)@
                    + #[trigger] file_format_blob(position, payload) && payload_of(
                    self.codecs()[position as int],
                    *node,
                    payload,
                ),
            self.codecs().len() == 0 ==> r matches Err(
                BallistaError::Unsupported(Unsupported::NoCodec),
            ),
            r matches Err(e) ==> {
                &&& final(buf)@ == old(buf)@
                &&& all_refuse(self.codecs(), *node)
                &&& e == refusal_of_all(self.codecs(), *node)
            },
    {
        match self.try_any(node) {
            Ok((codec_number, encoded_format)) => {
                write_file_format_blob(codec_number, encoded_format.as_slice(), buf);
                Ok(())
            },
            Err(e) => Err(e),
        }
    }

    /// Reads a blob: the leading byte names the sub-codec, which alone is
    /// handed what follows. No other sub-codec is tried.
    pub fn try_decode_file_format(&self, buf: &[u8], ctx: &SessionContext) -> (r: Result<
        DefaultFileType,
        BallistaError,
    >)
        ensures
            r == decoded_file_format(self.codecs(), buf@),
    {
        match select_codec(&self.file_format_codecs, buf) {
            Ok((codec, payload)) => match sub_decode(codec, payload, ctx) {
                Ok(node) => Ok(node),
                Err(e) => Err(BallistaError::Malformed(Malformed::Payload(e))),
            },
            Err(e) => Err(e),
        }
    }
}

impl Default for BallistaLogicalExtensionCodec {
    /// The five sub-codecs in their fixed order: CSV, JSON, Parquet, Arrow,
    /// Avro.
    fn default() -> (codec: Self)
        ensures
            codec.codecs() == BallistaLogicalExtensionCodec::default_codecs(),
    {
        let mut codecs: Vec<FileFormatCodec> = Vec::new();
        codecs.push(FileFormatCodec::Csv);
        codecs.push(FileFormatCodec::Json);
        codecs.push(FileFormatCodec::Parquet);
        codecs.push(FileFormatCodec::Arrow);
        codecs.push(FileFormatCodec::Avro);
        proof {
            assert(codecs@ =~= seq![
                FileFormatCodec::Csv,
                FileFormatCodec::Json,
                FileFormatCodec::Parquet,
                FileFormatCodec::Arrow,
                FileFormatCodec::Avro,
            ]);
        }
        BallistaLogicalExtensionCodec { file_format_codecs: codecs }
    }
}

/// At most one position is the first that accepts.
pub proof fn lemma_first_accepting_unique(
    codecs: Seq<FileFormatCodec>,
    node: DefaultFileType,
    i: int,
    j: int,
)
    requires
        first_accepting(codecs, node, i),
        first_accepting(codecs, node, j),
    ensures
        i == j,
{
    if i < j {
        assert(encode_refusal(codecs[i], node) is Some);
    } else if j < i {
        assert(encode_refusal(codecs[j], node) is Some);
    }
}

/// Where one sub-codec alone accepts a node, its position is the one that an
/// encoding records.
pub proof fn lemma_sole_acceptor_is_first(
    codecs: Seq<FileFormatCodec>,
    node: DefaultFileType,
    position: int,
)
    requires
        0 <= position < codecs.len(),
        forall|j: int|
            0 <= j < codecs.len() ==> ((#[trigger] encode_refusal(codecs[j], node)) is None <==> j
                == position),
    ensures
        first_accepting(codecs, node, position),
        forall|i: int| first_accepting(codecs, node, i) ==> i == position,
{
}

/// A blob that records `position` is handed to the sub-codec at `position`
/// and to no other: what decoding gives is what that sub-codec reads from the
/// payload.
pub proof fn lemma_blob_names_its_codec(
    codecs: Seq<FileFormatCodec>,
    position: u8,
    payload: Seq<u8>,
)
    requires
        position < codecs.len(),
    ensures
        selected(codecs, file_format_blob(position, payload)) == Ok::<
            (FileFormatCodec, Seq<u8>),
            BallistaError,
        >((codecs[position as int], payload)),
        decoded_file_format(codecs, file_format_blob(position, payload)) == match sub_decoded(
            codecs[position as int],
            payload,
        ) {
            Ok(node) => Ok::<DefaultFileType, BallistaError>(node),
            Err(e) => Err(BallistaError::Malformed(Malformed::Payload(e))),
        },
{
    assert(file_format_blob(position, payload).skip(1) =~= payload);
}

/// Where the sub-codec at `position` reads `node` back from `payload`,
/// decoding the blob of `position` and `payload` gives `node`.
pub proof fn lemma_file_format_round_trip(
    codecs: Seq<FileFormatCodec>,
    node: DefaultFileType,
    position: u8,
    payload: Seq<u8>,
)
    requires
        position < codecs.len(),
        sub_decoded(codecs[position as int], payload) == Ok::<DefaultFileType, DataFusionError>(
            node,
        ),
    ensures
        decoded_file_format(codecs, file_format_blob(position, payload)) == Ok::<
            DefaultFileType,
            BallistaError,
        >(node),
{
    lemma_blob_names_its_codec(codecs, position, payload);
}

/// With no sub-codec, no node is accepted, and the error says that there is
/// none. An empty blob is malformed whatever the sub-codecs are.
pub proof fn lemma_nothing_to_try(codecs: Seq<FileFormatCodec>, node: DefaultFileType)
    ensures
        codecs.len() == 0 ==> all_refuse(codecs, node) && refusal_of_all(codecs, node)
            == BallistaError::Unsupported(Unsupported::NoCodec),
        codecs.len() == 0 ==> forall|i: int| !first_accepting(codecs, node, i),
        decoded_file_format(codecs, Seq::empty()) == Err::<DefaultFileType, BallistaError>(
            BallistaError::Malformed(Malformed::EmptyBlob),
        ),
{
}

/// A blob whose leading byte is not below the number of sub-codecs is
/// refused, with the byte and the number.
pub proof fn lemma_position_out_of_range(codecs: Seq<FileFormatCodec>, buf: Seq<u8>)
    requires
        buf.len() > 0,
        buf[0] >= codecs.len(),
    ensures
        decoded_file_format(codecs, buf) == Err::<DefaultFileType, BallistaError>(
            BallistaError::UnsupportedCodec {
                position: buf[0],
                registered: codecs.len() as usize,
            },
        ),
{
}

} // verus!
