use ballista_core::error::{BallistaError, InternalFault, Malformed, Unsupported};
use ballista_core::serde::logical::{
    select_codec, sub_decode, sub_encode, write_file_format_blob, FileFormatCodec, MAX_SUB_CODECS,
};
use ballista_core::serde::BallistaLogicalExtensionCodec;
use datafusion::common::config::CsvOptions;
use datafusion::common::DFSchema;
use datafusion::common::GetExt;
use datafusion::datasource::file_format::arrow::ArrowFormatFactory;
use datafusion::datasource::file_format::csv::CsvFormatFactory;
use datafusion::datasource::file_format::json::JsonFormatFactory;
use datafusion::datasource::file_format::parquet::ParquetFormatFactory;
use datafusion::datasource::file_format::{DefaultFileType, FileFormatFactory};
use datafusion::logical_expr::dml::CopyTo;
use datafusion::logical_expr::{EmptyRelation, LogicalPlan};
use datafusion::prelude::SessionContext;
use datafusion_proto::logical_plan::{
    AsLogicalPlan, DefaultLogicalExtensionCodec, LogicalExtensionCodec,
};
use datafusion_proto::protobuf::LogicalPlanNode;
use std::sync::Arc;

fn parquet() -> DefaultFileType {
    DefaultFileType::new(Arc::new(ParquetFormatFactory::new()))
}

fn csv() -> DefaultFileType {
    DefaultFileType::new(Arc::new(CsvFormatFactory::new()))
}

fn json() -> DefaultFileType {
    DefaultFileType::new(Arc::new(JsonFormatFactory::new()))
}

fn arrow() -> DefaultFileType {
    DefaultFileType::new(Arc::new(ArrowFormatFactory::new()))
}

fn codec_of(codecs: Vec<FileFormatCodec>) -> BallistaLogicalExtensionCodec {
    BallistaLogicalExtensionCodec::new(codecs).unwrap()
}

fn encode(codec: &BallistaLogicalExtensionCodec, node: &DefaultFileType) -> Vec<u8> {
    let mut buf = Vec::new();
    codec.try_encode_file_format(&mut buf, node).unwrap();
    buf
}

#[derive(Debug)]
struct Composed(BallistaLogicalExtensionCodec);

fn engine_error(e: BallistaError) -> datafusion::common::DataFusionError {
    datafusion::common::DataFusionError::Internal(format!("{:?}", e))
}

impl LogicalExtensionCodec for Composed {
    fn try_decode(
        &self,
        buf: &[u8],
        inputs: &[LogicalPlan],
        ctx: &SessionContext,
    ) -> datafusion::common::Result<datafusion::logical_expr::Extension> {
        DefaultLogicalExtensionCodec {}.try_decode(buf, inputs, ctx)
    }

    fn try_encode(
        &self,
        node: &datafusion::logical_expr::Extension,
        buf: &mut Vec<u8>,
    ) -> datafusion::common::Result<()> {
        DefaultLogicalExtensionCodec {}.try_encode(node, buf)
    }

    fn try_decode_table_provider(
        &self,
        buf: &[u8],
        table_ref: &datafusion::sql::TableReference,
        schema: datafusion::arrow::datatypes::SchemaRef,
        ctx: &SessionContext,
    ) -> datafusion::common::Result<Arc<dyn datafusion::catalog::TableProvider>> {
        DefaultLogicalExtensionCodec {}.try_decode_table_provider(buf, table_ref, schema, ctx)
    }

    fn try_encode_table_provider(
        &self,
        table_ref: &datafusion::sql::TableReference,
        node: Arc<dyn datafusion::catalog::TableProvider>,
        buf: &mut Vec<u8>,
    ) -> datafusion::common::Result<()> {
        DefaultLogicalExtensionCodec {}.try_encode_table_provider(table_ref, node, buf)
    }

    fn try_decode_file_format(
        &self,
        buf: &[u8],
        ctx: &SessionContext,
    ) -> datafusion::common::Result<Arc<dyn FileFormatFactory>> {
        self.0
            .try_decode_file_format(buf, ctx)
            .map(|file_type| file_type.as_format_factory().clone())
            .map_err(engine_error)
    }

    fn try_encode_file_format(
        &self,
        buf: &mut Vec<u8>,
        node: Arc<dyn FileFormatFactory>,
    ) -> datafusion::common::Result<()> {
        self.0.try_encode_file_format(buf, &DefaultFileType::new(node)).map_err(engine_error)
    }
}

#[test]
fn file_format_serialization_roundtrip() {
    let ctx = SessionContext::new();
    let empty = EmptyRelation { produce_one_row: false, schema: Arc::new(DFSchema::empty()) };
    let file_type = Arc::new(DefaultFileType::new(Arc::new(ParquetFormatFactory::new())));
    let original_plan = LogicalPlan::Copy(CopyTo {
        input: Arc::new(LogicalPlan::EmptyRelation(empty)),
        output_url: "/tmp/file".to_string(),
        partition_by: vec![],
        file_type,
        options: Default::default(),
    });

    let codec = Composed(BallistaLogicalExtensionCodec::default());
    let plan_message = LogicalPlanNode::try_from_logical_plan(&original_plan, &codec).unwrap();

    let mut buf: Vec<u8> = vec![];
    plan_message.try_encode(&mut buf).unwrap();
    println!("{}", original_plan.display_indent());

    let decoded_message = LogicalPlanNode::try_decode(&buf).unwrap();
    let decoded_plan = decoded_message.try_into_logical_plan(&ctx, &codec).unwrap();

    println!("{}", decoded_plan.display_indent());
    let o = original_plan.display_indent();
    let d = decoded_plan.display_indent();

    assert_eq!(o.to_string(), d.to_string())
}

#[test]
fn default_codec_holds_five_sub_codecs_in_order() {
    let codec = BallistaLogicalExtensionCodec::default();
    assert_eq!(
        codec.file_format_codecs(),
        &vec![
            FileFormatCodec::Csv,
            FileFormatCodec::Json,
            FileFormatCodec::Parquet,
            FileFormatCodec::Arrow,
            FileFormatCodec::Avro,
        ]
    );
}

#[test]
fn encoding_records_the_position_of_the_sub_codec_that_accepts() {
    let codec = codec_of(vec![
        FileFormatCodec::Csv,
        FileFormatCodec::Parquet,
        FileFormatCodec::Json,
    ]);
    assert_eq!(encode(&codec, &parquet())[0], 1);
    assert_eq!(encode(&codec, &csv())[0], 0);
    assert_eq!(encode(&codec, &json())[0], 2);
}

#[test]
fn default_positions_are_csv_json_parquet_arrow() {
    let codec = BallistaLogicalExtensionCodec::default();
    assert_eq!(encode(&codec, &csv())[0], 0);
    assert_eq!(encode(&codec, &json())[0], 1);
    assert_eq!(encode(&codec, &parquet())[0], 2);
    assert_eq!(encode(&codec, &arrow()), vec![3]);
}

#[test]
fn encoding_appends_to_what_the_buffer_holds() {
    let codec = BallistaLogicalExtensionCodec::default();
    let alone = encode(&codec, &parquet());
    let mut buf = vec![0xEE, 0xFF];
    codec.try_encode_file_format(&mut buf, &parquet()).unwrap();
    assert_eq!(&buf[..2], &[0xEE, 0xFF]);
    assert_eq!(buf[2], 2);
    assert_eq!(buf.len(), alone.len() + 2);
}

#[test]
fn decoding_goes_to_the_sub_codec_that_the_blob_names() {
    let ctx = SessionContext::new();
    let codec = codec_of(vec![
        FileFormatCodec::Csv,
        FileFormatCodec::Parquet,
        FileFormatCodec::Json,
    ]);
    let blob = encode(&codec, &parquet());
    let back = codec.try_decode_file_format(&blob, &ctx).unwrap();
    assert_eq!(back.get_ext(), "parquet");
    assert!(back.as_format_factory().as_any().downcast_ref::<ParquetFormatFactory>().is_some());
}

#[test]
fn decoding_never_tries_another_sub_codec() {
    let ctx = SessionContext::new();
    let codec = BallistaLogicalExtensionCodec::default();
    let mut blob = encode(&codec, &csv());
    assert_eq!(blob[0], 0);
    blob[0] = 3;
    let back = codec.try_decode_file_format(&blob, &ctx).unwrap();
    assert!(back.as_format_factory().as_any().downcast_ref::<ArrowFormatFactory>().is_some());
    let other_order = codec_of(vec![FileFormatCodec::Arrow, FileFormatCodec::Csv]);
    blob[0] = 1;
    let back = other_order.try_decode_file_format(&blob, &ctx).unwrap();
    assert!(back.as_format_factory().as_any().downcast_ref::<CsvFormatFactory>().is_some());
}

#[test]
fn csv_options_survive_the_round_trip() {
    let ctx = SessionContext::new();
    let options = CsvOptions::default().with_delimiter(b'|').with_has_header(true);
    let node = DefaultFileType::new(Arc::new(CsvFormatFactory::new_with_options(options.clone())));
    let codec = BallistaLogicalExtensionCodec::default();
    let blob = encode(&codec, &node);
    assert_eq!(blob[0], 0);
    assert!(blob.len() > 1);
    let back = codec.try_decode_file_format(&blob, &ctx).unwrap();
    let factory = back.as_format_factory().as_any().downcast_ref::<CsvFormatFactory>().unwrap();
    assert_eq!(factory.options.as_ref().unwrap().delimiter, b'|');
    assert_eq!(factory.options.as_ref().unwrap().has_header, Some(true));
}

#[test]
fn an_empty_list_has_no_codec_available() {
    let codec = codec_of(vec![]);
    let mut buf = vec![7u8];
    let r = codec.try_encode_file_format(&mut buf, &parquet());
    assert!(matches!(r, Err(BallistaError::Unsupported(Unsupported::NoCodec))));
    assert_eq!(buf, vec![7]);
}

#[test]
fn where_all_refuse_the_last_error_comes_out() {
    let codec = codec_of(vec![FileFormatCodec::Csv, FileFormatCodec::Json]);
    let mut buf = vec![7u8];
    let r = codec.try_encode_file_format(&mut buf, &parquet());
    match r {
        Err(BallistaError::Unsupported(Unsupported::SubCodec(e))) => {
            assert!(e.to_string().contains("Unsupported FileFormatFactory type"));
        }
        other => panic!("unexpected {:?}", other),
    }
    assert_eq!(buf, vec![7]);
}

#[test]
fn an_empty_blob_is_malformed() {
    let ctx = SessionContext::new();
    for codec in [BallistaLogicalExtensionCodec::default(), codec_of(vec![])] {
        let r = codec.try_decode_file_format(&[], &ctx);
        assert!(matches!(r, Err(BallistaError::Malformed(Malformed::EmptyBlob))));
    }
}

#[test]
fn a_position_beyond_the_list_is_an_unsupported_codec() {
    let ctx = SessionContext::new();
    let codec = BallistaLogicalExtensionCodec::default();
    let r = codec.try_decode_file_format(&[5], &ctx);
    assert!(matches!(r, Err(BallistaError::UnsupportedCodec { position: 5, registered: 5 })));
    let r = codec.try_decode_file_format(&[255, 1, 2], &ctx);
    assert!(matches!(r, Err(BallistaError::UnsupportedCodec { position: 255, registered: 5 })));
    let r = codec.try_decode_file_format(&[4], &ctx);
    assert!(r.is_ok());
    let r = codec_of(vec![]).try_decode_file_format(&[0], &ctx);
    assert!(matches!(r, Err(BallistaError::UnsupportedCodec { position: 0, registered: 0 })));
}

#[test]
fn a_payload_that_its_sub_codec_cannot_read_is_malformed() {
    let ctx = SessionContext::new();
    let codec = BallistaLogicalExtensionCodec::default();
    let r = codec.try_decode_file_format(&[0, 0xFF, 0xFF, 0xFF], &ctx);
    assert!(matches!(r, Err(BallistaError::Malformed(Malformed::Payload(_)))));
}

#[test]
fn more_than_256_sub_codecs_are_refused() {
    assert_eq!(MAX_SUB_CODECS, 256);
    let full = BallistaLogicalExtensionCodec::new(vec![FileFormatCodec::Csv; 256]).unwrap();
    assert_eq!(full.file_format_codecs().len(), 256);
    let r = BallistaLogicalExtensionCodec::new(vec![FileFormatCodec::Csv; 257]);
    assert!(matches!(r, Err(BallistaError::Internal(InternalFault::TooManyCodecs(257)))));
}

#[test]
fn the_last_of_256_positions_fits_its_byte() {
    let mut codecs = vec![FileFormatCodec::Csv; 255];
    codecs.push(FileFormatCodec::Parquet);
    let codec = codec_of(codecs);
    assert_eq!(encode(&codec, &parquet())[0], 255);
}

#[test]
fn sub_codecs_accept_their_own_format_only() {
    assert!(sub_encode(FileFormatCodec::Csv, &csv()).is_ok());
    assert!(sub_encode(FileFormatCodec::Csv, &parquet()).is_err());
    assert!(sub_encode(FileFormatCodec::Json, &json()).is_ok());
    assert!(sub_encode(FileFormatCodec::Json, &csv()).is_err());
    assert!(sub_encode(FileFormatCodec::Parquet, &parquet()).is_ok());
    assert!(sub_encode(FileFormatCodec::Parquet, &json()).is_err());
    assert_eq!(sub_encode(FileFormatCodec::Arrow, &csv()).unwrap(), Vec::<u8>::new());
    assert_eq!(sub_encode(FileFormatCodec::Avro, &parquet()).unwrap(), Vec::<u8>::new());
}

#[test]
fn sub_codecs_read_their_own_format_back() {
    let ctx = SessionContext::new();
    let written = sub_encode(FileFormatCodec::Json, &json()).unwrap();
    let back = sub_decode(FileFormatCodec::Json, &written, &ctx).unwrap();
    assert!(back.as_format_factory().as_any().downcast_ref::<JsonFormatFactory>().is_some());
    let written = sub_encode(FileFormatCodec::Parquet, &parquet()).unwrap();
    let back = sub_decode(FileFormatCodec::Parquet, &written, &ctx).unwrap();
    assert!(back.as_format_factory().as_any().downcast_ref::<ParquetFormatFactory>().is_some());
    let back = sub_decode(FileFormatCodec::Csv, &[], &ctx).unwrap();
    assert!(back.as_format_factory().as_any().downcast_ref::<CsvFormatFactory>().is_some());
    assert!(sub_decode(FileFormatCodec::Arrow, &[1, 2, 3], &ctx).is_ok());
    assert!(sub_decode(FileFormatCodec::Avro, &[1, 2, 3], &ctx).is_ok());
}

#[test]
fn a_blob_is_the_position_and_then_the_payload() {
    let mut buf = vec![1u8];
    write_file_format_blob(2, &[9, 8], &mut buf);
    assert_eq!(buf, vec![1, 2, 9, 8]);
    let codecs = vec![FileFormatCodec::Csv, FileFormatCodec::Json, FileFormatCodec::Parquet];
    let (codec, payload) = select_codec(&codecs, &buf[1..]).unwrap();
    assert_eq!(codec, FileFormatCodec::Parquet);
    assert_eq!(payload, &[9, 8]);
    assert!(matches!(
        select_codec(&codecs, &[3]),
        Err(BallistaError::UnsupportedCodec { position: 3, registered: 3 })
    ));
    assert!(matches!(
        select_codec(&codecs, &[]),
        Err(BallistaError::Malformed(Malformed::EmptyBlob))
    ));
}

#[test]
fn extension_nodes_go_to_the_default_codec_which_serves_none() {
    let ctx = SessionContext::new();
    let codec = BallistaLogicalExtensionCodec::default();
    let r = codec.try_decode(&[1, 2, 3], &[], &ctx);
    match r {
        Err(BallistaError::Unsupported(Unsupported::Extension(e))) => {
            assert!(e.to_string().contains("LogicalExtensionCodec is not provided"));
        }
        other => panic!("unexpected {:?}", other.map(|_| ())),
    }
}

#[test]
fn csv_and_json_payloads_are_what_their_sub_codec_writes() {
    let codec = BallistaLogicalExtensionCodec::default();
    let blob = encode(&codec, &csv());
    assert_eq!(&blob[1..], &sub_encode(FileFormatCodec::Csv, &csv()).unwrap()[..]);
    let blob = encode(&codec, &json());
    assert_eq!(&blob[1..], &sub_encode(FileFormatCodec::Json, &json()).unwrap()[..]);
    assert_eq!(encode(&codec, &csv()), encode(&codec, &csv()));
}

#[test]
fn arrow_and_avro_read_the_same_whatever_the_payload() {
    let ctx = SessionContext::new();
    for codec in [FileFormatCodec::Arrow, FileFormatCodec::Avro] {
        for payload in [&[][..], &[1u8, 2, 3][..]] {
            let back = sub_decode(codec, payload, &ctx).unwrap();
            let factory = back.as_format_factory();
            assert!(factory.as_any().downcast_ref::<ArrowFormatFactory>().is_some());
        }
    }
}
