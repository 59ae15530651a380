use ballista_core::error::{BallistaError, InternalFault, Unsupported};
use ballista_core::serde::decode_protobuf;
use ballista_core::serde::protobuf;
use ballista_core::serde::scheduler::{
    locations_from_proto, locations_to_proto, Action, PartitionLocation,
};
use ballista_core::serde::{
    BallistaCodec, BallistaLogicalExtensionCodec, BallistaPhysicalExtensionCodec,
};
use std::sync::Arc;

fn location() -> PartitionLocation {
    PartitionLocation {
        job_id: "job".to_string(),
        stage_id: 3,
        partition_id: 11,
        executor_id: "exec".to_string(),
        host: "host".to_string(),
        port: 65535,
        num_rows: 7,
        num_bytes: u64::MAX,
        path: "/shuffle/3/11".to_string(),
    }
}

#[test]
fn a_location_converts_to_its_message_and_back() {
    let l = location();
    let m = l.to_proto().unwrap();
    assert_eq!(m.job_id, "job");
    assert_eq!(m.stage_id, 3);
    assert_eq!(m.partition_id, 11);
    assert_eq!(m.executor_id, "exec");
    assert_eq!(m.host, "host");
    assert_eq!(m.port, 65535);
    assert_eq!(m.num_rows, 7);
    assert_eq!(m.num_bytes, u64::MAX);
    assert_eq!(m.path, "/shuffle/3/11");
    assert_eq!(PartitionLocation::from_proto(&m).unwrap(), l);
}

#[test]
fn a_location_beyond_32_bits_does_not_convert() {
    let mut l = location();
    l.stage_id = u32::MAX as usize;
    assert!(l.to_proto().is_ok());
    l.stage_id = u32::MAX as usize + 1;
    assert!(matches!(l.to_proto(), Err(BallistaError::Internal(InternalFault::OutOfRange))));
    let mut l = location();
    l.partition_id = u32::MAX as usize + 1;
    assert!(matches!(l.to_proto(), Err(BallistaError::Internal(InternalFault::OutOfRange))));
}

#[test]
fn a_message_with_an_impossible_port_does_not_convert() {
    let mut m = location().to_proto().unwrap();
    m.port = 65536;
    assert!(matches!(
        PartitionLocation::from_proto(&m),
        Err(BallistaError::Internal(InternalFault::OutOfRange))
    ));
}

#[test]
fn the_locations_of_a_partition_convert_all_or_not_at_all() {
    let row = vec![location(), location()];
    let m = locations_to_proto(&row).unwrap();
    assert_eq!(m.location.len(), 2);
    assert_eq!(locations_from_proto(&m).unwrap(), row);
    let mut bad = location();
    bad.stage_id = usize::MAX;
    assert!(matches!(
        locations_to_proto(&vec![location(), bad]),
        Err(BallistaError::Internal(InternalFault::OutOfRange))
    ));
    let mut m = m;
    m.location[1].port = 70000;
    assert!(matches!(
        locations_from_proto(&m),
        Err(BallistaError::Internal(InternalFault::OutOfRange))
    ));
    assert_eq!(locations_to_proto(&vec![]).unwrap().location.len(), 0);
}

fn fetch_partition(port: u32) -> Vec<u8> {
    let mut buf = Vec::new();
    protobuf::Action {
        action_type: Some(protobuf::ActionType::FetchPartition(protobuf::FetchPartition {
            job_id: "job".to_string(),
            stage_id: 1,
            partition_id: 2,
            path: "/p".to_string(),
            host: "h".to_string(),
            port,
        })),
    }
    .encode(&mut buf);
    buf
}

#[test]
fn decode_protobuf_reads_a_fetch_partition() {
    let action = decode_protobuf(&fetch_partition(8080)).unwrap();
    assert_eq!(
        action,
        Action::FetchPartition {
            job_id: "job".to_string(),
            stage_id: 1,
            partition_id: 2,
            path: "/p".to_string(),
            host: "h".to_string(),
            port: 8080,
        }
    );
}

#[test]
fn decode_protobuf_reads_these_bytes() {
    let bytes = [0x1A, 0x08, 0x0A, 0x01, b'j', 0x22, 0x01, b'p', 0x30, 0x09];
    let action = decode_protobuf(&bytes).unwrap();
    assert_eq!(
        action,
        Action::FetchPartition {
            job_id: "j".to_string(),
            stage_id: 0,
            partition_id: 0,
            path: "p".to_string(),
            host: String::new(),
            port: 9,
        }
    );
}

#[test]
fn decode_protobuf_refuses_malformed_bytes() {
    let broken =
        [&[0x1Au8][..], &[0x0A, 0x00][..], &[0x1A, 0x01, 0xFF][..], &[0x1A, 0x00, 0x00][..]];
    for bytes in broken {
        assert!(matches!(
            decode_protobuf(bytes),
            Err(BallistaError::Internal(InternalFault::MalformedAction))
        ));
    }
}

#[test]
fn decode_protobuf_refuses_an_envelope_without_action() {
    assert!(matches!(
        decode_protobuf(&[]),
        Err(BallistaError::Unsupported(Unsupported::Action))
    ));
}

#[test]
fn decode_protobuf_refuses_an_impossible_port() {
    assert!(decode_protobuf(&fetch_partition(65535)).is_ok());
    assert!(matches!(
        decode_protobuf(&fetch_partition(65536)),
        Err(BallistaError::Internal(InternalFault::OutOfRange))
    ));
}

#[test]
fn the_bundle_hands_out_the_codecs_that_it_was_given() {
    let logical = Arc::new(
        BallistaLogicalExtensionCodec::new(vec![
            ballista_core::serde::logical::FileFormatCodec::Parquet,
        ])
        .unwrap(),
    );
    let physical = Arc::new(BallistaPhysicalExtensionCodec::default());
    let codec: BallistaCodec<u8, u16> = BallistaCodec::new(logical.clone(), physical);
    assert_eq!(
        codec.logical_extension_codec().file_format_codecs(),
        logical.file_format_codecs()
    );
    let copy = codec.clone();
    assert_eq!(copy.logical_extension_codec().file_format_codecs().len(), 1);
    let _ = copy.physical_extension_codec();
}

#[test]
fn the_default_bundle_holds_the_default_logical_codec() {
    let codec: BallistaCodec<(), ()> = BallistaCodec::default();
    assert_eq!(
        codec.logical_extension_codec().file_format_codecs(),
        BallistaLogicalExtensionCodec::default().file_format_codecs()
    );
}

#[test]
fn the_bundle_takes_any_two_codecs() {
    let logical: Arc<str> = Arc::from("logical");
    let physical: Arc<[u8]> = Arc::from(vec![1u8, 2, 3]);
    let codec: BallistaCodec<(), (), str, [u8]> = BallistaCodec::new(logical, physical);
    assert_eq!(codec.logical_extension_codec(), "logical");
    assert_eq!(codec.physical_extension_codec(), &[1u8, 2, 3][..]);
    let copy = codec.clone();
    assert_eq!(copy.physical_extension_codec(), &[1u8, 2, 3][..]);
}
