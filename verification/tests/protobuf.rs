use ballista_core::error::{BallistaError, Malformed};
use ballista_core::serde::protobuf::{
    Action, ActionType, BallistaPhysicalPlanNode, FetchPartition, PartitionLocation,
    PhysicalHashRepartition, PhysicalPlanType, ShuffleReaderExecNode, ShuffleReaderPartition,
    ShuffleWriterExecNode, UnresolvedShuffleExecNode,
};

fn location(path: &str) -> PartitionLocation {
    PartitionLocation {
        job_id: "job-7".to_string(),
        stage_id: 2,
        partition_id: 5,
        executor_id: "exec-1".to_string(),
        host: "10.0.0.8".to_string(),
        port: 50051,
        num_rows: 1000,
        num_bytes: 1 << 33,
        path: path.to_string(),
    }
}

fn envelope_bytes(node: &BallistaPhysicalPlanNode) -> Vec<u8> {
    let mut buf = Vec::new();
    node.encode(&mut buf);
    buf
}

#[test]
fn unresolved_message_has_these_bytes() {
    let node = UnresolvedShuffleExecNode {
        stage_id: 3,
        schema: Some(vec![0xAA, 0xBB]),
        output_partition_count: 4,
    };
    let mut buf = Vec::new();
    node.encode(&mut buf);
    assert_eq!(buf, vec![0x08, 0x03, 0x12, 0x02, 0xAA, 0xBB, 0x20, 0x04]);
    assert_eq!(UnresolvedShuffleExecNode::decode(&buf), Some(node));
}

#[test]
fn unresolved_envelope_has_these_bytes() {
    let node = BallistaPhysicalPlanNode {
        physical_plan_type: Some(PhysicalPlanType::UnresolvedShuffle(UnresolvedShuffleExecNode {
            stage_id: 3,
            schema: Some(vec![0xAA, 0xBB]),
            output_partition_count: 4,
        })),
    };
    let buf = envelope_bytes(&node);
    assert_eq!(buf, vec![0x1A, 0x08, 0x08, 0x03, 0x12, 0x02, 0xAA, 0xBB, 0x20, 0x04]);
    assert_eq!(BallistaPhysicalPlanNode::decode(&buf).unwrap(), node);
}

#[test]
fn writer_envelope_has_these_bytes() {
    let node = BallistaPhysicalPlanNode {
        physical_plan_type: Some(PhysicalPlanType::ShuffleWriter(ShuffleWriterExecNode {
            job_id: "job".to_string(),
            stage_id: 2,
            input: None,
            output_partitioning: None,
        })),
    };
    let buf = envelope_bytes(&node);
    assert_eq!(buf, vec![0x0A, 0x07, 0x0A, 0x03, b'j', b'o', b'b', 0x10, 0x02]);
    assert_eq!(BallistaPhysicalPlanNode::decode(&buf).unwrap(), node);
}

#[test]
fn encode_appends_and_keeps_what_was_there() {
    let node = UnresolvedShuffleExecNode { stage_id: 1, schema: None, output_partition_count: 0 };
    let mut buf = vec![0xEE];
    node.encode(&mut buf);
    assert_eq!(buf, vec![0xEE, 0x08, 0x01]);
}

#[test]
fn empty_input_is_the_envelope_that_holds_nothing() {
    let node = BallistaPhysicalPlanNode::decode(&[]).unwrap();
    assert_eq!(node.physical_plan_type, None);
    assert!(envelope_bytes(&node).is_empty());
}

#[test]
fn hash_partitioning_with_no_expressions_differs_from_none() {
    let with = ShuffleWriterExecNode {
        job_id: String::new(),
        stage_id: 0,
        input: None,
        output_partitioning: Some(PhysicalHashRepartition {
            hash_expr: vec![],
            partition_count: 0,
        }),
    };
    let without = ShuffleWriterExecNode { output_partitioning: None, ..with.clone() };
    let mut a = Vec::new();
    with.encode(&mut a);
    let mut b = Vec::new();
    without.encode(&mut b);
    assert_eq!(a, vec![0x22, 0x00]);
    assert!(b.is_empty());
    assert_eq!(ShuffleWriterExecNode::decode(&a), Some(with));
    assert_eq!(ShuffleWriterExecNode::decode(&b), Some(without));
}

#[test]
fn writer_message_round_trips_with_partitioning_and_reserved_input() {
    let node = ShuffleWriterExecNode {
        job_id: "j".to_string(),
        stage_id: u32::MAX,
        input: Some(vec![1, 2, 3]),
        output_partitioning: Some(PhysicalHashRepartition {
            hash_expr: vec![vec![0x0A, 0x00], vec![], vec![9; 130]],
            partition_count: u64::MAX,
        }),
    };
    let mut buf = Vec::new();
    node.encode(&mut buf);
    assert_eq!(ShuffleWriterExecNode::decode(&buf), Some(node));
}

#[test]
fn location_message_round_trips() {
    let l = location("/data/shuffle/7/2/5.arrow");
    let mut buf = Vec::new();
    l.encode(&mut buf);
    assert_eq!(PartitionLocation::decode(&buf), Some(l));
    let blank = PartitionLocation {
        job_id: String::new(),
        stage_id: 0,
        partition_id: 0,
        executor_id: String::new(),
        host: String::new(),
        port: 0,
        num_rows: 0,
        num_bytes: 0,
        path: String::new(),
    };
    let mut buf = Vec::new();
    blank.encode(&mut buf);
    assert!(buf.is_empty());
    assert_eq!(PartitionLocation::decode(&buf), Some(blank));
}

#[test]
fn reader_message_round_trips_with_uneven_partitions() {
    let node = ShuffleReaderExecNode {
        partition: vec![
            ShuffleReaderPartition { location: vec![location("a")] },
            ShuffleReaderPartition { location: vec![] },
            ShuffleReaderPartition { location: vec![location("b"), location("c")] },
        ],
        schema: Some(vec![0x0A, 0x03, 1, 2, 3]),
        stage_id: 9,
    };
    let mut buf = Vec::new();
    node.encode(&mut buf);
    let back = ShuffleReaderExecNode::decode(&buf).unwrap();
    assert_eq!(back.partition.len(), 3);
    assert_eq!(back.partition[1].location.len(), 0);
    assert_eq!(back.partition[2].location[1].path, "c");
    assert_eq!(back, node);
}

#[test]
fn envelope_round_trips_for_every_kind() {
    let nodes = vec![
        BallistaPhysicalPlanNode { physical_plan_type: None },
        BallistaPhysicalPlanNode {
            physical_plan_type: Some(PhysicalPlanType::ShuffleWriter(ShuffleWriterExecNode {
                job_id: "abc".to_string(),
                stage_id: 1,
                input: None,
                output_partitioning: Some(PhysicalHashRepartition {
                    hash_expr: vec![vec![1, 2]],
                    partition_count: 4,
                }),
            })),
        },
        BallistaPhysicalPlanNode {
            physical_plan_type: Some(PhysicalPlanType::ShuffleReader(ShuffleReaderExecNode {
                partition: vec![ShuffleReaderPartition { location: vec![location("p")] }],
                schema: None,
                stage_id: 0,
            })),
        },
        BallistaPhysicalPlanNode {
            physical_plan_type: Some(PhysicalPlanType::UnresolvedShuffle(
                UnresolvedShuffleExecNode { stage_id: 0, schema: None, output_partition_count: 0 },
            )),
        },
    ];
    for node in nodes {
        let buf = envelope_bytes(&node);
        assert_eq!(BallistaPhysicalPlanNode::decode(&buf).unwrap(), node);
    }
}

#[test]
fn different_messages_have_different_bytes() {
    let a = BallistaPhysicalPlanNode {
        physical_plan_type: Some(PhysicalPlanType::UnresolvedShuffle(UnresolvedShuffleExecNode {
            stage_id: 1,
            schema: None,
            output_partition_count: 2,
        })),
    };
    let b = BallistaPhysicalPlanNode {
        physical_plan_type: Some(PhysicalPlanType::UnresolvedShuffle(UnresolvedShuffleExecNode {
            stage_id: 2,
            schema: None,
            output_partition_count: 1,
        })),
    };
    let c = BallistaPhysicalPlanNode {
        physical_plan_type: Some(PhysicalPlanType::ShuffleReader(ShuffleReaderExecNode {
            partition: vec![],
            schema: None,
            stage_id: 1,
        })),
    };
    assert_ne!(envelope_bytes(&a), envelope_bytes(&b));
    assert_ne!(envelope_bytes(&a), envelope_bytes(&c));
}

fn is_malformed_envelope(bytes: &[u8]) -> bool {
    matches!(
        BallistaPhysicalPlanNode::decode(bytes),
        Err(BallistaError::Malformed(Malformed::Envelope))
    )
}

#[test]
fn envelope_refuses_unknown_fields_and_leftovers() {
    assert!(is_malformed_envelope(&[0x22, 0x00]));
    assert!(is_malformed_envelope(&[0x08, 0x01]));
    assert!(is_malformed_envelope(&[0x1A, 0x02, 0x08, 0x03, 0x00]));
    assert!(is_malformed_envelope(&[0x1A, 0x00, 0x1A, 0x00]));
}

#[test]
fn envelope_refuses_truncated_and_out_of_order_messages() {
    assert!(is_malformed_envelope(&[0x1A]));
    assert!(is_malformed_envelope(&[0x1A, 0x05, 0x08, 0x03]));
    assert!(is_malformed_envelope(&[0x1A, 0x04, 0x20, 0x04, 0x08, 0x03]));
    assert!(is_malformed_envelope(&[0x1A, 0x04, 0x08, 0x03, 0x08, 0x04]));
}

#[test]
fn envelope_refuses_a_stage_beyond_32_bits() {
    assert!(is_malformed_envelope(&[0x1A, 0x06, 0x08, 0x80, 0x80, 0x80, 0x80, 0x10]));
    let ok = [0x1A, 0x06, 0x08, 0xFF, 0xFF, 0xFF, 0xFF, 0x0F];
    let node = BallistaPhysicalPlanNode::decode(&ok).unwrap();
    match node.physical_plan_type {
        Some(PhysicalPlanType::UnresolvedShuffle(u)) => assert_eq!(u.stage_id, u32::MAX),
        other => panic!("unexpected {:?}", other),
    }
}

#[test]
fn envelope_refuses_a_job_id_that_is_not_utf8() {
    assert!(is_malformed_envelope(&[0x0A, 0x03, 0x0A, 0x01, 0xFF]));
}

#[test]
fn fetch_partition_message_has_these_bytes() {
    let f = FetchPartition {
        job_id: "j".to_string(),
        stage_id: 1,
        partition_id: 2,
        path: "p".to_string(),
        host: "h".to_string(),
        port: 80,
    };
    let mut buf = Vec::new();
    f.encode(&mut buf);
    assert_eq!(
        buf,
        vec![0x0A, 0x01, b'j', 0x10, 0x01, 0x18, 0x02, 0x22, 0x01, b'p', 0x2A, 0x01, b'h', 0x30, 80]
    );
    assert_eq!(FetchPartition::decode(&buf), Some(f));
}

#[test]
fn action_envelope_round_trips() {
    let action = Action {
        action_type: Some(ActionType::FetchPartition(FetchPartition {
            job_id: "job".to_string(),
            stage_id: 4,
            partition_id: 0,
            path: "/tmp/x".to_string(),
            host: "localhost".to_string(),
            port: 50050,
        })),
    };
    let mut buf = Vec::new();
    action.encode(&mut buf);
    assert_eq!(buf[0], 0x1A);
    assert_eq!(Action::decode(&buf), Some(action));
    let nothing = Action { action_type: None };
    let mut buf = Vec::new();
    nothing.encode(&mut buf);
    assert!(buf.is_empty());
    assert_eq!(Action::decode(&buf), Some(nothing));
    assert_eq!(Action::decode(&[0x0A, 0x00]), None);
}
