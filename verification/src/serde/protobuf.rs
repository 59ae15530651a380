//! The messages that travel between scheduler and executor, and their bytes.
//!
//! Every message is a run of fields in ascending field-number order. A
//! decoder here accepts exactly such runs: a field out of order, a field it
//! does not know, or bytes left over make the input malformed.

use crate::error::{BallistaError, Malformed};
use crate::serde::wire::{
    bytes_field, key, leads_with, lemma_bytes_field_round_trip, lemma_concat_assoc,
    lemma_opt_bytes_step, lemma_repeated_field_push, lemma_repeated_step, lemma_string_step,
    lemma_uint_step, opt_bytes_field, parse_bytes_field, parse_repeated_field, parse_string_field,
    parse_u32_field, parse_u64_field, read_bytes_field, read_repeated_field, read_string_field,
    read_u32_field, read_u64_field, repeated_field, starts_above, string_field, uint_field, views,
    write_bytes_field, write_string_field, write_uint_field, LENGTH_DELIMITED, MAX_FIELD,
};
use vstd::prelude::*;
use vstd::slice::*;
use vstd::string::*;
use vstd::utf8::*;

verus! {

/// Where the data of one shuffle output partition lies: the coordinates of
/// the partition, the executor that holds it, how much there is, and the
/// path on that executor.
///
/// The fields are numbered 1 to 9 in the order in which they stand here.
#[derive(Clone, Debug, PartialEq, Eq)]
pub struct PartitionLocation {
    pub job_id: String,
    pub stage_id: u32,
    pub partition_id: u32,
    pub executor_id: String,
    pub host: String,
    pub port: u32,
    pub num_rows: u64,
    pub num_bytes: u64,
    pub path: String,
}

/// What a `PartitionLocation` message holds.
pub struct PartitionLocationView {
    pub job_id: Seq<char>,
    pub stage_id: u32,
    pub partition_id: u32,
    pub executor_id: Seq<char>,
    pub host: Seq<char>,
    pub port: u32,
    pub num_rows: u64,
    pub num_bytes: u64,
    pub path: Seq<char>,
}

impl View for PartitionLocation {
    type V = PartitionLocationView;

    open spec fn view(&self) -> PartitionLocationView {
        PartitionLocationView {
            job_id: self.job_id@,
            stage_id: self.stage_id,
            partition_id: self.partition_id,
            executor_id: self.executor_id@,
            host: self.host@,
            port: self.port,
            num_rows: self.num_rows,
            num_bytes: self.num_bytes,
            path: self.path@,
        }
    }
}

impl PartitionLocationView {
    /// Whether every string is short enough for its length to be written.
    pub open spec fn fits(self) -> bool {
        &&& encode_utf8(self.job_id).len() <= u64::MAX
        &&& encode_utf8(self.executor_id).len() <= u64::MAX
        &&& encode_utf8(self.host).len() <= u64::MAX
        &&& encode_utf8(self.path).len() <= u64::MAX
    }

    /// The fields from `host` on.
    pub open spec fn wire_from_host(self) -> Seq<u8> {
        string_field(5, self.host) + (uint_field(6, self.port as nat) + (uint_field(
            7,
            self.num_rows as nat,
        ) + (uint_field(8, self.num_bytes as nat) + string_field(9, self.path))))
    }

    /// The bytes of the message.
    pub open spec fn wire(self) -> Seq<u8> {
        string_field(1, self.job_id) + (uint_field(2, self.stage_id as nat) + (uint_field(
            3,
            self.partition_id as nat,
        ) + (string_field(4, self.executor_id) + self.wire_from_host())))
    }
}

/// Reads a `PartitionLocation` message.
pub open spec fn parse_location(s: Seq<u8>) -> Option<PartitionLocationView> {
    let job_id = parse_string_field(s, 1);
    let stage_id = parse_u32_field(job_id.unwrap().1, 2);
    let partition_id = parse_u32_field(stage_id.unwrap().1, 3);
    let executor_id = parse_string_field(partition_id.unwrap().1, 4);
    let host = parse_string_field(executor_id.unwrap().1, 5);
    let port = parse_u32_field(host.unwrap().1, 6);
    let num_rows = parse_u64_field(port.unwrap().1, 7);
    let num_bytes = parse_u64_field(num_rows.unwrap().1, 8);
    let path = parse_string_field(num_bytes.unwrap().1, 9);
    if job_id is Some && stage_id is Some && partition_id is Some && executor_id is Some
        && host is Some && port is Some && num_rows is Some && num_bytes is Some && path is Some
        && path.unwrap().1.len() == 0 {
        Some(
            PartitionLocationView {
                job_id: job_id.unwrap().0,
                stage_id: stage_id.unwrap().0,
                partition_id: partition_id.unwrap().0,
                executor_id: executor_id.unwrap().0,
                host: host.unwrap().0,
                port: port.unwrap().0,
                num_rows: num_rows.unwrap().0,
                num_bytes: num_bytes.unwrap().0,
                path: path.unwrap().0,
            },
        )
    } else {
        None
    }
}

/// A location message reads back as it was written.
pub proof fn lemma_location_round_trip(l: PartitionLocationView)
    requires
        l.fits(),
    ensures
        parse_location(l.wire()) == Some(l),
{
    let t9 = Seq::<u8>::empty();
    lemma_string_step(9, l.path, t9);
    let t8 = string_field(9, l.path) + t9;
    assert(t8 =~= string_field(9, l.path));
    lemma_uint_step(8, l.num_bytes as nat, t8);
    let t7 = uint_field(8, l.num_bytes as nat) + t8;
    lemma_uint_step(7, l.num_rows as nat, t7);
    let t6 = uint_field(7, l.num_rows as nat) + t7;
    lemma_uint_step(6, l.port as nat, t6);
    let t5 = uint_field(6, l.port as nat) + t6;
    lemma_string_step(5, l.host, t5);
    let t4 = string_field(5, l.host) + t5;
    assert(t4 == l.wire_from_host());
    lemma_string_step(4, l.executor_id, t4);
    let t3 = string_field(4, l.executor_id) + t4;
    lemma_uint_step(3, l.partition_id as nat, t3);
    let t2 = uint_field(3, l.partition_id as nat) + t3;
    lemma_uint_step(2, l.stage_id as nat, t2);
    let t1 = uint_field(2, l.stage_id as nat) + t2;
    lemma_string_step(1, l.job_id, t1);
    assert(starts_above(t8, 8));
    assert(starts_above(t7, 7));
    assert(starts_above(t6, 6));
    assert(starts_above(t5, 5));
    assert(starts_above(t4, 4));
    assert(starts_above(t3, 3));
    assert(starts_above(t2, 2));
    assert(starts_above(t1, 1));
}

impl PartitionLocation {
    /// Appends the message to `buf`.
    pub fn encode(&self, buf: &mut Vec<u8>)
        ensures
            final(buf)@ == old(buf)@ + self@.wire(),
            self@.fits(),
    {
        let ghost b0 = buf@;
        let ghost v = self@;
        write_string_field(1, self.job_id.as_str(), buf);
        write_uint_field(2, self.stage_id as u64, buf);
        write_uint_field(3, self.partition_id as u64, buf);
        write_string_field(4, self.executor_id.as_str(), buf);
        write_string_field(5, self.host.as_str(), buf);
        write_uint_field(6, self.port as u64, buf);
        write_uint_field(7, self.num_rows, buf);
        write_uint_field(8, self.num_bytes, buf);
        write_string_field(9, self.path.as_str(), buf);
        proof {
            let f1 = string_field(1, v.job_id);
            let f2 = uint_field(2, v.stage_id as nat);
            let f3 = uint_field(3, v.partition_id as nat);
            let f4 = string_field(4, v.executor_id);
            let f5 = string_field(5, v.host);
            let f6 = uint_field(6, v.port as nat);
            let f7 = uint_field(7, v.num_rows as nat);
            let f8 = uint_field(8, v.num_bytes as nat);
            let f9 = string_field(9, v.path);
            assert(buf@ == b0 + f1 + f2 + f3 + f4 + f5 + f6 + f7 + f8 + f9);
            lemma_concat_assoc(b0 + f1 + f2 + f3 + f4 + f5 + f6 + f7, f8, f9);
            lemma_concat_assoc(b0 + f1 + f2 + f3 + f4 + f5 + f6, f7, f8 + f9);
            lemma_concat_assoc(b0 + f1 + f2 + f3 + f4 + f5, f6, f7 + (f8 + f9));
            lemma_concat_assoc(b0 + f1 + f2 + f3 + f4, f5, f6 + (f7 + (f8 + f9)));
            lemma_concat_assoc(b0 + f1 + f2 + f3, f4, v.wire_from_host());
            lemma_concat_assoc(b0 + f1 + f2, f3, f4 + v.wire_from_host());
            lemma_concat_assoc(b0 + f1, f2, f3 + (f4 + v.wire_from_host()));
            lemma_concat_assoc(b0, f1, f2 + (f3 + (f4 + v.wire_from_host())));
        }
    }

    /// Reads the message that `input` holds; `None` where it holds none.
    pub fn decode(input: &[u8]) -> (r: Option<PartitionLocation>)
        ensures
            r is Some <==> parse_location(input@) is Some,
            r matches Some(l) ==> parse_location(input@) == Some(l@),
    {
        let (job_id, rest) = match read_string_field(input, 1) {
            Some(found) => found,
            None => { return None; },
        };
        let (stage_id, rest) = match read_u32_field(rest, 2) {
            Some(found) => found,
            None => { return None; },
        };
        let (partition_id, rest) = match read_u32_field(rest, 3) {
            Some(found) => found,
            None => { return None; },
        };
        let (executor_id, rest) = match read_string_field(rest, 4) {
            Some(found) => found,
            None => { return None; },
        };
        let (host, rest) = match read_string_field(rest, 5) {
            Some(found) => found,
            None => { return None; },
        };
        let (port, rest) = match read_u32_field(rest, 6) {
            Some(found) => found,
            None => { return None; },
        };
        let (num_rows, rest) = match read_u64_field(rest, 7) {
            Some(found) => found,
            None => { return None; },
        };
        let (num_bytes, rest) = match read_u64_field(rest, 8) {
            Some(found) => found,
            None => { return None; },
        };
        let (path, rest) = match read_string_field(rest, 9) {
            Some(found) => found,
            None => { return None; },
        };
        if rest.len() != 0 {
            return None;
        }
        Some(
            PartitionLocation {
                job_id,
                stage_id,
                partition_id,
                executor_id,
                host,
                port,
                num_rows,
                num_bytes,
                path,
            },
        )
    }
}

/// The bytes of each of `locations`.
pub open spec fn location_wires(locations: Seq<PartitionLocationView>) -> Seq<Seq<u8>> {
    Seq::new(locations.len(), |i: int| locations[i].wire())
}

/// The views of `locations`.
pub open spec fn location_views(locations: Seq<PartitionLocation>) -> Seq<PartitionLocationView> {
    Seq::new(locations.len(), |i: int| locations[i]@)
}

/// The locations that feed one output partition of a shuffle read.
///
/// `location` is the repeated field 1.
#[derive(Clone, Debug, PartialEq, Eq)]
pub struct ShuffleReaderPartition {
    pub location: Vec<PartitionLocation>,
}

/// What a `ShuffleReaderPartition` message holds.
pub struct ShuffleReaderPartitionView {
    pub location: Seq<PartitionLocationView>,
}

impl View for ShuffleReaderPartition {
    type V = ShuffleReaderPartitionView;

    open spec fn view(&self) -> ShuffleReaderPartitionView {
        ShuffleReaderPartitionView { location: location_views(self.location@) }
    }
}

impl ShuffleReaderPartitionView {
    /// Whether every part is short enough for its length to be written.
    pub open spec fn fits(self) -> bool {
        forall|i: int|
            0 <= i < self.location.len() ==> (#[trigger] self.location[i]).fits()
                && self.location[i].wire().len() <= u64::MAX
    }

    /// The bytes of the message.
    pub open spec fn wire(self) -> Seq<u8> {
        repeated_field(1, location_wires(self.location))
    }
}

/// Reads a `ShuffleReaderPartition` message.
pub open spec fn parse_partition(s: Seq<u8>) -> Option<ShuffleReaderPartitionView> {
    match parse_repeated_field(s, 1) {
        Some((blobs, rest)) => if rest.len() == 0 && forall|i: int|
            0 <= i < blobs.len() ==> (#[trigger] parse_location(blobs[i])) is Some {
            Some(
                ShuffleReaderPartitionView {
                    location: Seq::new(blobs.len(), |i: int| parse_location(blobs[i]).unwrap()),
                },
            )
        } else {
            None
        },
        None => None,
    }
}

/// A partition message reads back as it was written.
pub proof fn lemma_partition_round_trip(p: ShuffleReaderPartitionView)
    requires
        p.fits(),
    ensures
        parse_partition(p.wire()) == Some(p),
{
    let blobs = location_wires(p.location);
    assert forall|i: int| 0 <= i < blobs.len() implies (#[trigger] blobs[i]).len()
        <= u64::MAX by {
        assert(p.location[i].fits());
    }
    lemma_repeated_step(1, blobs, Seq::<u8>::empty());
    assert(repeated_field(1, blobs) + Seq::<u8>::empty() =~= p.wire());
    assert forall|i: int| 0 <= i < blobs.len() implies #[trigger] parse_location(blobs[i])
        == Some(p.location[i]) by {
        assert(p.location[i].fits());
        lemma_location_round_trip(p.location[i]);
    }
    assert(Seq::new(blobs.len(), |i: int| parse_location(blobs[i]).unwrap()) =~= p.location);
}

impl ShuffleReaderPartition {
    /// Appends the message to `buf`.
    pub fn encode(&self, buf: &mut Vec<u8>)
        ensures
            final(buf)@ == old(buf)@ + self@.wire(),
            self@.fits(),
    {
        let ghost before = buf@;
        let ghost wires = location_wires(self@.location);
        let mut i: usize = 0;
        proof {
            assert(wires.take(0) =~= Seq::<Seq<u8>>::empty());
            assert(buf@ =~= before + repeated_field(1, wires.take(0)));
        }
        while i < self.location.len()
            invariant
                i <= self.location@.len(),
                wires == location_wires(self@.location),
                buf@ == before + repeated_field(1, wires.take(i as int)),
                forall|j: int|
                    0 <= j < i ==> (#[trigger] self@.location[j]).fits()
                        && self@.location[j].wire().len() <= u64::MAX,
            decreases self.location@.len() - i,
        {
            let mut item: Vec<u8> = Vec::new();
            self.location[i].encode(&mut item);
            let size = item.len();
            write_bytes_field(1, item.as_slice(), buf);
            proof {
                assert(item@ =~= wires[i as int]);
                assert(self@.location[i as int] == self.location@[i as int]@);
                lemma_repeated_field_push(1, wires.take(i as int), wires[i as int]);
                assert(wires.take(i as int).push(wires[i as int]) =~= wires.take(i + 1));
                lemma_concat_assoc(
                    before,
                    repeated_field(1, wires.take(i as int)),
                    bytes_field(1, item@),
                );
            }
            i += 1;
        }
        proof {
            assert(wires.take(i as int) =~= wires);
        }
    }

    /// Reads the message that `input` holds; `None` where it holds none.
    pub fn decode(input: &[u8]) -> (r: Option<ShuffleReaderPartition>)
        ensures
            r is Some <==> parse_partition(input@) is Some,
            r matches Some(p) ==> parse_partition(input@) == Some(p@),
    {
        let (blobs, rest) = match read_repeated_field(input, 1) {
            Some(found) => found,
            None => { return None; },
        };
        if rest.len() != 0 {
            return None;
        }
        let mut location: Vec<PartitionLocation> = Vec::new();
        let mut i: usize = 0;
        while i < blobs.len()
            invariant
                i <= blobs@.len(),
                location@.len() == i,
                rest@.len() == 0,
                parse_repeated_field(input@, 1) == Some((views(blobs@), rest@)),
                forall|j: int|
                    0 <= j < i ==> #[trigger] parse_location(views(blobs@)[j]) == Some(
                        location@[j]@,
                    ),
            decreases blobs@.len() - i,
        {
            match PartitionLocation::decode(blobs[i].as_slice()) {
                Some(l) => {
                    location.push(l);
                },
                None => {
                    proof {
                        assert(parse_location(views(blobs@)[i as int]) is None);
                    }
                    return None;
                },
            }
            i += 1;
        }
        let found = ShuffleReaderPartition { location };
        proof {
            let parsed = Seq::new(
                views(blobs@).len(),
                |i: int| parse_location(views(blobs@)[i]).unwrap(),
            );
            assert(parsed =~= found@.location);
        }
        Some(found)
    }
}

/// The bytes of each of `partitions`.
pub open spec fn partition_wires(partitions: Seq<ShuffleReaderPartitionView>) -> Seq<Seq<u8>> {
    Seq::new(partitions.len(), |i: int| partitions[i].wire())
}

/// The views of `partitions`.
pub open spec fn partition_views(partitions: Seq<ShuffleReaderPartition>) -> Seq<
    ShuffleReaderPartitionView,
> {
    Seq::new(partitions.len(), |i: int| partitions[i]@)
}

/// A shuffle read: the stage it reads from, the schema of what it gives, and
/// for each output partition the locations that feed it.
///
/// `partition` is the repeated field 1, `schema` field 2, `stage_id` field 3.
/// The schema is a serialized schema of the execution engine.
#[derive(Clone, Debug, PartialEq, Eq)]
pub struct ShuffleReaderExecNode {
    pub partition: Vec<ShuffleReaderPartition>,
    pub schema: Option<Vec<u8>>,
    pub stage_id: u32,
}

/// What a `ShuffleReaderExecNode` message holds.
pub struct ShuffleReaderExecNodeView {
    pub partition: Seq<ShuffleReaderPartitionView>,
    pub schema: Option<Seq<u8>>,
    pub stage_id: u32,
}

/// The view of bytes that may be absent.
pub open spec fn opt_view(bytes: Option<Vec<u8>>) -> Option<Seq<u8>> {
    match bytes {
        Some(b) => Some(b@),
        None => None,
    }
}

impl View for ShuffleReaderExecNode {
    type V = ShuffleReaderExecNodeView;

    open spec fn view(&self) -> ShuffleReaderExecNodeView {
        ShuffleReaderExecNodeView {
            partition: partition_views(self.partition@),
            schema: opt_view(self.schema),
            stage_id: self.stage_id,
        }
    }
}

impl ShuffleReaderExecNodeView {
    /// Whether every part is short enough for its length to be written.
    pub open spec fn fits(self) -> bool {
        &&& forall|i: int|
            0 <= i < self.partition.len() ==> (#[trigger] self.partition[i]).fits()
                && self.partition[i].wire().len() <= u64::MAX
        &&& self.schema matches Some(b) ==> b.len() <= u64::MAX
    }

    /// The bytes of the message.
    pub open spec fn wire(self) -> Seq<u8> {
        repeated_field(1, partition_wires(self.partition)) + (opt_bytes_field(2, self.schema)
            + uint_field(3, self.stage_id as nat))
    }
}

/// Reads a `ShuffleReaderExecNode` message.
pub open spec fn parse_reader(s: Seq<u8>) -> Option<ShuffleReaderExecNodeView> {
    let partition = parse_repeated_field(s, 1);
    let schema = parse_bytes_field(partition.unwrap().1, 2);
    let stage_id = parse_u32_field(schema.unwrap().1, 3);
    if partition is Some && schema is Some && stage_id is Some && stage_id.unwrap().1.len() == 0
        && forall|i: int|
        0 <= i < partition.unwrap().0.len() ==> (#[trigger] parse_partition(
            partition.unwrap().0[i],
        )) is Some {
        Some(
            ShuffleReaderExecNodeView {
                partition: Seq::new(
                    partition.unwrap().0.len(),
                    |i: int| parse_partition(partition.unwrap().0[i]).unwrap(),
                ),
                schema: schema.unwrap().0,
                stage_id: stage_id.unwrap().0,
            },
        )
    } else {
        None
    }
}

/// A shuffle-read message reads back as it was written.
pub proof fn lemma_reader_round_trip(r: ShuffleReaderExecNodeView)
    requires
        r.fits(),
    ensures
        parse_reader(r.wire()) == Some(r),
{
    let blobs = partition_wires(r.partition);
    let f3 = uint_field(3, r.stage_id as nat);
    let t1 = opt_bytes_field(2, r.schema) + f3;
    assert(parse_u32_field(f3, 3) == Some((r.stage_id, Seq::<u8>::empty())) && starts_above(
        f3,
        2,
    )) by {
        lemma_uint_step(3, r.stage_id as nat, Seq::<u8>::empty());
        assert(f3 + Seq::<u8>::empty() =~= f3);
    }
    assert(parse_bytes_field(t1, 2) == Some((r.schema, f3)) && starts_above(t1, 1)) by {
        lemma_opt_bytes_step(2, r.schema, f3);
    }
    assert(parse_repeated_field(r.wire(), 1) == Some((blobs, t1))) by {
        assert forall|i: int| 0 <= i < blobs.len() implies (#[trigger] blobs[i]).len()
            <= u64::MAX by {
            assert(r.partition[i].fits());
        }
        lemma_repeated_step(1, blobs, t1);
    }
    assert forall|i: int| 0 <= i < blobs.len() implies #[trigger] parse_partition(blobs[i])
        == Some(r.partition[i]) by {
        assert(r.partition[i].fits());
        lemma_partition_round_trip(r.partition[i]);
    }
    assert(Seq::new(blobs.len(), |i: int| parse_partition(blobs[i]).unwrap()) =~= r.partition);
}

impl ShuffleReaderExecNode {
    /// Appends the message to `buf`.
    pub fn encode(&self, buf: &mut Vec<u8>)
        ensures
            final(buf)@ == old(buf)@ + self@.wire(),
            self@.fits(),
    {
        let ghost before = buf@;
        let ghost wires = partition_wires(self@.partition);
        let mut i: usize = 0;
        proof {
            assert(wires.take(0) =~= Seq::<Seq<u8>>::empty());
            assert(buf@ =~= before + repeated_field(1, wires.take(0)));
        }
        while i < self.partition.len()
            invariant
                i <= self.partition@.len(),
                wires == partition_wires(self@.partition),
                buf@ == before + repeated_field(1, wires.take(i as int)),
                forall|j: int|
                    0 <= j < i ==> (#[trigger] self@.partition[j]).fits()
                        && self@.partition[j].wire().len() <= u64::MAX,
            decreases self.partition@.len() - i,
        {
            let mut item: Vec<u8> = Vec::new();
            self.partition[i].encode(&mut item);
            let size = item.len();
            write_bytes_field(1, item.as_slice(), buf);
            proof {
                assert(item@ =~= wires[i as int]);
                assert(self@.partition[i as int] == self.partition@[i as int]@);
                lemma_repeated_field_push(1, wires.take(i as int), wires[i as int]);
                assert(wires.take(i as int).push(wires[i as int]) =~= wires.take(i + 1));
                lemma_concat_assoc(
                    before,
                    repeated_field(1, wires.take(i as int)),
                    bytes_field(1, item@),
                );
            }
            i += 1;
        }
        proof {
            assert(wires.take(i as int) =~= wires);
        }
        let ghost f1 = repeated_field(1, wires);
        match &self.schema {
            Some(schema) => {
                let size = schema.len();
                write_bytes_field(2, schema.as_slice(), buf);
            },
            None => {
                proof {
                    assert(buf@ =~= before + f1 + opt_bytes_field(2, self@.schema));
                }
            },
        }
        write_uint_field(3, self.stage_id as u64, buf);
        proof {
            let f2 = opt_bytes_field(2, self@.schema);
            let f3 = uint_field(3, self.stage_id as nat);
            lemma_concat_assoc(before + f1, f2, f3);
            lemma_concat_assoc(before, f1, f2 + f3);
        }
    }

    /// Reads the message that `input` holds; `None` where it holds none.
    pub fn decode(input: &[u8]) -> (r: Option<ShuffleReaderExecNode>)
        ensures
            r is Some <==> parse_reader(input@) is Some,
            r matches Some(m) ==> parse_reader(input@) == Some(m@),
    {
        let (blobs, rest) = match read_repeated_field(input, 1) {
            Some(found) => found,
            None => { return None; },
        };
        let (schema, rest) = match read_bytes_field(rest, 2) {
            Some((Some(b), rest)) => (Some(slice_to_vec(b)), rest),
            Some((None, rest)) => (None, rest),
            None => { return None; },
        };
        let (stage_id, rest) = match read_u32_field(rest, 3) {
            Some(found) => found,
            None => { return None; },
        };
        if rest.len() != 0 {
            return None;
        }
        let ghost fields = parse_repeated_field(input@, 1);
        let ghost after_schema = parse_bytes_field(fields.unwrap().1, 2);
        let mut partition: Vec<ShuffleReaderPartition> = Vec::new();
        let mut i: usize = 0;
        while i < blobs.len()
            invariant
                i <= blobs@.len(),
                partition@.len() == i,
                rest@.len() == 0,
                fields == parse_repeated_field(input@, 1),
                fields matches Some((items, _)) && items == views(blobs@),
                after_schema == parse_bytes_field(fields.unwrap().1, 2),
                after_schema matches Some((found, _)) && found == opt_view(schema),
                parse_u32_field(after_schema.unwrap().1, 3) == Some((stage_id, rest@)),
                forall|j: int|
                    0 <= j < i ==> #[trigger] parse_partition(views(blobs@)[j]) == Some(
                        partition@[j]@,
                    ),
            decreases blobs@.len() - i,
        {
            match ShuffleReaderPartition::decode(blobs[i].as_slice()) {
                Some(p) => {
                    partition.push(p);
                },
                None => {
                    proof {
                        assert(parse_partition(views(blobs@)[i as int]) is None);
                    }
                    return None;
                },
            }
            i += 1;
        }
        let found = ShuffleReaderExecNode { partition, schema, stage_id };
        proof {
            let parsed = Seq::new(
                views(blobs@).len(),
                |i: int| parse_partition(views(blobs@)[i]).unwrap(),
            );
            assert(parsed =~= found@.partition);
        }
        Some(found)
    }
}

/// Hash partitioning as it travels: the hash expressions, each one a
/// serialized expression of the execution engine, and the number of buckets.
///
/// `hash_expr` is the repeated field 1, `partition_count` field 2.
#[derive(Clone, Debug, PartialEq, Eq)]
pub struct PhysicalHashRepartition {
    pub hash_expr: Vec<Vec<u8>>,
    pub partition_count: u64,
}

/// What a `PhysicalHashRepartition` message holds.
pub struct PhysicalHashRepartitionView {
    pub hash_expr: Seq<Seq<u8>>,
    pub partition_count: u64,
}

impl View for PhysicalHashRepartition {
    type V = PhysicalHashRepartitionView;

    open spec fn view(&self) -> PhysicalHashRepartitionView {
        PhysicalHashRepartitionView {
            hash_expr: views(self.hash_expr@),
            partition_count: self.partition_count,
        }
    }
}

impl PhysicalHashRepartitionView {
    /// Whether every part is short enough for its length to be written.
    pub open spec fn fits(self) -> bool {
        forall|i: int| 0 <= i < self.hash_expr.len() ==> (#[trigger] self.hash_expr[i]).len()
            <= u64::MAX
    }

    /// The bytes of the message.
    pub open spec fn wire(self) -> Seq<u8> {
        repeated_field(1, self.hash_expr) + uint_field(2, self.partition_count as nat)
    }
}

/// Reads a `PhysicalHashRepartition` message.
pub open spec fn parse_hash_repartition(s: Seq<u8>) -> Option<PhysicalHashRepartitionView> {
    let hash_expr = parse_repeated_field(s, 1);
    let partition_count = parse_u64_field(hash_expr.unwrap().1, 2);
    if hash_expr is Some && partition_count is Some && partition_count.unwrap().1.len() == 0 {
        Some(
            PhysicalHashRepartitionView {
                hash_expr: hash_expr.unwrap().0,
                partition_count: partition_count.unwrap().0,
            },
        )
    } else {
        None
    }
}

/// A hash-partitioning message reads back as it was written.
pub proof fn lemma_hash_repartition_round_trip(h: PhysicalHashRepartitionView)
    requires
        h.fits(),
    ensures
        parse_hash_repartition(h.wire()) == Some(h),
{
    let f2 = uint_field(2, h.partition_count as nat);
    assert(parse_u64_field(f2, 2) == Some((h.partition_count, Seq::<u8>::empty()))
        && starts_above(f2, 1)) by {
        lemma_uint_step(2, h.partition_count as nat, Seq::<u8>::empty());
        assert(f2 + Seq::<u8>::empty() =~= f2);
    }
    lemma_repeated_step(1, h.hash_expr, f2);
}

impl PhysicalHashRepartition {
    /// Appends the message to `buf`.
    pub fn encode(&self, buf: &mut Vec<u8>)
        ensures
            final(buf)@ == old(buf)@ + self@.wire(),
            self@.fits(),
    {
        let ghost before = buf@;
        let ghost wires = views(self.hash_expr@);
        let mut i: usize = 0;
        proof {
            assert(wires.take(0) =~= Seq::<Seq<u8>>::empty());
            assert(buf@ =~= before + repeated_field(1, wires.take(0)));
        }
        while i < self.hash_expr.len()
            invariant
                i <= self.hash_expr@.len(),
                wires == views(self.hash_expr@),
                buf@ == before + repeated_field(1, wires.take(i as int)),
                forall|j: int| 0 <= j < i ==> (#[trigger] wires[j]).len() <= u64::MAX,
            decreases self.hash_expr@.len() - i,
        {
            let size = self.hash_expr[i].len();
            write_bytes_field(1, self.hash_expr[i].as_slice(), buf);
            proof {
                lemma_repeated_field_push(1, wires.take(i as int), wires[i as int]);
                assert(wires.take(i as int).push(wires[i as int]) =~= wires.take(i + 1));
                lemma_concat_assoc(
                    before,
                    repeated_field(1, wires.take(i as int)),
                    bytes_field(1, wires[i as int]),
                );
            }
            i += 1;
        }
        proof {
            assert(wires.take(i as int) =~= wires);
        }
        write_uint_field(2, self.partition_count, buf);
        proof {
            lemma_concat_assoc(
                before,
                repeated_field(1, wires),
                uint_field(2, self.partition_count as nat),
            );
        }
    }

    /// Reads the message that `input` holds; `None` where it holds none.
    pub fn decode(input: &[u8]) -> (r: Option<PhysicalHashRepartition>)
        ensures
            r is Some <==> parse_hash_repartition(input@) is Some,
            r matches Some(h) ==> parse_hash_repartition(input@) == Some(h@),
    {
        let (hash_expr, rest) = match read_repeated_field(input, 1) {
            Some(found) => found,
            None => { return None; },
        };
        let (partition_count, rest) = match read_u64_field(rest, 2) {
            Some(found) => found,
            None => { return None; },
        };
        if rest.len() != 0 {
            return None;
        }
        Some(PhysicalHashRepartition { hash_expr, partition_count })
    }
}

/// The view of a hash partitioning that may be absent.
pub open spec fn opt_hash_view(h: Option<PhysicalHashRepartition>) -> Option<
    PhysicalHashRepartitionView,
> {
    match h {
        Some(h) => Some(h@),
        None => None,
    }
}

/// The bytes of a hash partitioning that may be absent.
pub open spec fn opt_hash_wire(h: Option<PhysicalHashRepartitionView>) -> Option<Seq<u8>> {
    match h {
        Some(h) => Some(h.wire()),
        None => None,
    }
}

/// A shuffle write: the job and the stage that it belongs to, and how its
/// output is partitioned. `input` is reserved for the plan below the writer,
/// which travels beside this message and not inside it: it is written
/// absent, and a reader does not look at what it holds.
///
/// `job_id` is field 1, `stage_id` field 2, `input` field 3,
/// `output_partitioning` field 4.
#[derive(Clone, Debug, PartialEq, Eq)]
pub struct ShuffleWriterExecNode {
    pub job_id: String,
    pub stage_id: u32,
    pub input: Option<Vec<u8>>,
    pub output_partitioning: Option<PhysicalHashRepartition>,
}

/// What a `ShuffleWriterExecNode` message holds.
pub struct ShuffleWriterExecNodeView {
    pub job_id: Seq<char>,
    pub stage_id: u32,
    pub input: Option<Seq<u8>>,
    pub output_partitioning: Option<PhysicalHashRepartitionView>,
}

impl View for ShuffleWriterExecNode {
    type V = ShuffleWriterExecNodeView;

    open spec fn view(&self) -> ShuffleWriterExecNodeView {
        ShuffleWriterExecNodeView {
            job_id: self.job_id@,
            stage_id: self.stage_id,
            input: opt_view(self.input),
            output_partitioning: opt_hash_view(self.output_partitioning),
        }
    }
}

impl ShuffleWriterExecNodeView {
    /// Whether every part is short enough for its length to be written.
    pub open spec fn fits(self) -> bool {
        &&& encode_utf8(self.job_id).len() <= u64::MAX
        &&& self.input matches Some(b) ==> b.len() <= u64::MAX
        &&& self.output_partitioning matches Some(h) ==> h.fits() && h.wire().len() <= u64::MAX
    }

    /// The bytes of the message.
    pub open spec fn wire(self) -> Seq<u8> {
        string_field(1, self.job_id) + (uint_field(2, self.stage_id as nat) + (opt_bytes_field(
            3,
            self.input,
        ) + opt_bytes_field(4, opt_hash_wire(self.output_partitioning))))
    }
}

/// Reads the hash partitioning that a blob holds, where there is a blob.
pub open spec fn parse_opt_hash(blob: Option<Seq<u8>>) -> Option<PhysicalHashRepartitionView> {
    match blob {
        Some(b) => parse_hash_repartition(b),
        None => None,
    }
}

/// Reads a `ShuffleWriterExecNode` message.
pub open spec fn parse_writer(s: Seq<u8>) -> Option<ShuffleWriterExecNodeView> {
    let job_id = parse_string_field(s, 1);
    let stage_id = parse_u32_field(job_id.unwrap().1, 2);
    let input = parse_bytes_field(stage_id.unwrap().1, 3);
    let partitioning = parse_bytes_field(input.unwrap().1, 4);
    if job_id is Some && stage_id is Some && input is Some && partitioning is Some
        && partitioning.unwrap().1.len() == 0 && (partitioning.unwrap().0 is Some
        ==> parse_opt_hash(partitioning.unwrap().0) is Some) {
        Some(
            ShuffleWriterExecNodeView {
                job_id: job_id.unwrap().0,
                stage_id: stage_id.unwrap().0,
                input: input.unwrap().0,
                output_partitioning: parse_opt_hash(partitioning.unwrap().0),
            },
        )
    } else {
        None
    }
}

/// A shuffle-write message reads back as it was written.
pub proof fn lemma_writer_round_trip(w: ShuffleWriterExecNodeView)
    requires
        w.fits(),
    ensures
        parse_writer(w.wire()) == Some(w),
{
    let blob = opt_hash_wire(w.output_partitioning);
    let f4 = opt_bytes_field(4, blob);
    let t3 = opt_bytes_field(3, w.input) + f4;
    let t2 = uint_field(2, w.stage_id as nat) + t3;
    assert(parse_bytes_field(f4, 4) == Some((blob, Seq::<u8>::empty())) && starts_above(f4, 3))
        by {
        lemma_opt_bytes_step(4, blob, Seq::<u8>::empty());
        assert(f4 + Seq::<u8>::empty() =~= f4);
    }
    assert(parse_bytes_field(t3, 3) == Some((w.input, f4)) && starts_above(t3, 2)) by {
        lemma_opt_bytes_step(3, w.input, f4);
    }
    assert(parse_u32_field(t2, 2) == Some((w.stage_id, t3)) && starts_above(t2, 1)) by {
        lemma_uint_step(2, w.stage_id as nat, t3);
    }
    assert(parse_string_field(w.wire(), 1) == Some((w.job_id, t2))) by {
        lemma_string_step(1, w.job_id, t2);
    }
    assert(parse_opt_hash(blob) == w.output_partitioning) by {
        if let Some(h) = w.output_partitioning {
            lemma_hash_repartition_round_trip(h);
        }
    }
}

impl ShuffleWriterExecNode {
    /// Appends the message to `buf`.
    pub fn encode(&self, buf: &mut Vec<u8>)
        ensures
            final(buf)@ == old(buf)@ + self@.wire(),
            self@.fits(),
    {
        let ghost b0 = buf@;
        let ghost f1 = string_field(1, self@.job_id);
        let ghost f2 = uint_field(2, self.stage_id as nat);
        let ghost f3 = opt_bytes_field(3, self@.input);
        let ghost f4 = opt_bytes_field(4, opt_hash_wire(self@.output_partitioning));
        write_string_field(1, self.job_id.as_str(), buf);
        write_uint_field(2, self.stage_id as u64, buf);
        match &self.input {
            Some(input) => {
                let size = input.len();
                write_bytes_field(3, input.as_slice(), buf);
            },
            None => {
                proof {
                    assert(buf@ =~= b0 + f1 + f2 + f3);
                }
            },
        }
        match &self.output_partitioning {
            Some(partitioning) => {
                let mut blob: Vec<u8> = Vec::new();
                partitioning.encode(&mut blob);
                let size = blob.len();
                proof {
                    assert(blob@ =~= partitioning@.wire());
                }
                write_bytes_field(4, blob.as_slice(), buf);
            },
            None => {
                proof {
                    assert(buf@ =~= b0 + f1 + f2 + f3 + f4);
                }
            },
        }
        proof {
            assert(buf@ == b0 + f1 + f2 + f3 + f4);
            lemma_concat_assoc(b0 + f1 + f2, f3, f4);
            lemma_concat_assoc(b0 + f1, f2, f3 + f4);
            lemma_concat_assoc(b0, f1, f2 + (f3 + f4));
        }
    }

    /// Reads the message that `input` holds; `None` where it holds none.
    pub fn decode(input: &[u8]) -> (r: Option<ShuffleWriterExecNode>)
        ensures
            r is Some <==> parse_writer(input@) is Some,
            r matches Some(w) ==> parse_writer(input@) == Some(w@),
    {
        let (job_id, rest) = match read_string_field(input, 1) {
            Some(found) => found,
            None => { return None; },
        };
        let (stage_id, rest) = match read_u32_field(rest, 2) {
            Some(found) => found,
            None => { return None; },
        };
        let (reserved, rest) = match read_bytes_field(rest, 3) {
            Some((Some(b), rest)) => (Some(slice_to_vec(b)), rest),
            Some((None, rest)) => (None, rest),
            None => { return None; },
        };
        let (output_partitioning, rest) = match read_bytes_field(rest, 4) {
            Some((Some(b), rest)) => match PhysicalHashRepartition::decode(b) {
                Some(h) => (Some(h), rest),
                None => { return None; },
            },
            Some((None, rest)) => (None, rest),
            None => { return None; },
        };
        if rest.len() != 0 {
            return None;
        }
        Some(ShuffleWriterExecNode { job_id, stage_id, input: reserved, output_partitioning })
    }
}

/// A shuffle read whose locations are not known yet: the stage it will read
/// from, the schema of what it will give, and how many output partitions it
/// will have.
///
/// `stage_id` is field 1, `schema` field 2, `output_partition_count` field 4.
#[derive(Clone, Debug, PartialEq, Eq)]
pub struct UnresolvedShuffleExecNode {
    pub stage_id: u32,
    pub schema: Option<Vec<u8>>,
    pub output_partition_count: u32,
}

/// What an `UnresolvedShuffleExecNode` message holds.
pub struct UnresolvedShuffleExecNodeView {
    pub stage_id: u32,
    pub schema: Option<Seq<u8>>,
    pub output_partition_count: u32,
}

impl View for UnresolvedShuffleExecNode {
    type V = UnresolvedShuffleExecNodeView;

    open spec fn view(&self) -> UnresolvedShuffleExecNodeView {
        UnresolvedShuffleExecNodeView {
            stage_id: self.stage_id,
            schema: opt_view(self.schema),
            output_partition_count: self.output_partition_count,
        }
    }
}

impl UnresolvedShuffleExecNodeView {
    /// Whether every part is short enough for its length to be written.
    pub open spec fn fits(self) -> bool {
        self.schema matches Some(b) ==> b.len() <= u64::MAX
    }

    /// The bytes of the message.
    pub open spec fn wire(self) -> Seq<u8> {
        uint_field(1, self.stage_id as nat) + (opt_bytes_field(2, self.schema) + uint_field(
            4,
            self.output_partition_count as nat,
        ))
    }
}

/// Reads an `UnresolvedShuffleExecNode` message.
pub open spec fn parse_unresolved(s: Seq<u8>) -> Option<UnresolvedShuffleExecNodeView> {
    let stage_id = parse_u32_field(s, 1);
    let schema = parse_bytes_field(stage_id.unwrap().1, 2);
    let count = parse_u32_field(schema.unwrap().1, 4);
    if stage_id is Some && schema is Some && count is Some && count.unwrap().1.len() == 0 {
        Some(
            UnresolvedShuffleExecNodeView {
                stage_id: stage_id.unwrap().0,
                schema: schema.unwrap().0,
                output_partition_count: count.unwrap().0,
            },
        )
    } else {
        None
    }
}

/// An unresolved-shuffle message reads back as it was written.
pub proof fn lemma_unresolved_round_trip(u: UnresolvedShuffleExecNodeView)
    requires
        u.fits(),
    ensures
        parse_unresolved(u.wire()) == Some(u),
{
    let f4 = uint_field(4, u.output_partition_count as nat);
    let t2 = opt_bytes_field(2, u.schema) + f4;
    assert(parse_u32_field(f4, 4) == Some((u.output_partition_count, Seq::<u8>::empty()))
        && starts_above(f4, 2)) by {
        lemma_uint_step(4, u.output_partition_count as nat, Seq::<u8>::empty());
        assert(f4 + Seq::<u8>::empty() =~= f4);
    }
    assert(parse_bytes_field(t2, 2) == Some((u.schema, f4)) && starts_above(t2, 1)) by {
        lemma_opt_bytes_step(2, u.schema, f4);
    }
    lemma_uint_step(1, u.stage_id as nat, t2);
}

impl UnresolvedShuffleExecNode {
    /// Appends the message to `buf`.
    pub fn encode(&self, buf: &mut Vec<u8>)
        ensures
            final(buf)@ == old(buf)@ + self@.wire(),
            self@.fits(),
    {
        let ghost b0 = buf@;
        let ghost f1 = uint_field(1, self.stage_id as nat);
        let ghost f2 = opt_bytes_field(2, self@.schema);
        let ghost f4 = uint_field(4, self.output_partition_count as nat);
        write_uint_field(1, self.stage_id as u64, buf);
        match &self.schema {
            Some(schema) => {
                let size = schema.len();
                write_bytes_field(2, schema.as_slice(), buf);
            },
            None => {
                proof {
                    assert(buf@ =~= b0 + f1 + f2);
                }
            },
        }
        write_uint_field(4, self.output_partition_count as u64, buf);
        proof {
            lemma_concat_assoc(b0 + f1, f2, f4);
            lemma_concat_assoc(b0, f1, f2 + f4);
        }
    }

    /// Reads the message that `input` holds; `None` where it holds none.
    pub fn decode(input: &[u8]) -> (r: Option<UnresolvedShuffleExecNode>)
        ensures
            r is Some <==> parse_unresolved(input@) is Some,
            r matches Some(u) ==> parse_unresolved(input@) == Some(u@),
    {
        let (stage_id, rest) = match read_u32_field(input, 1) {
            Some(found) => found,
            None => { return None; },
        };
        let (schema, rest) = match read_bytes_field(rest, 2) {
            Some((Some(b), rest)) => (Some(slice_to_vec(b)), rest),
            Some((None, rest)) => (None, rest),
            None => { return None; },
        };
        let (output_partition_count, rest) = match read_u32_field(rest, 4) {
            Some(found) => found,
            None => { return None; },
        };
        if rest.len() != 0 {
            return None;
        }
        Some(UnresolvedShuffleExecNode { stage_id, schema, output_partition_count })
    }
}

/// Field number of the shuffle writer in the envelope.
pub const SHUFFLE_WRITER: u8 = 1;

/// Field number of the shuffle reader in the envelope.
pub const SHUFFLE_READER: u8 = 2;

/// Field number of the unresolved shuffle in the envelope.
pub const UNRESOLVED_SHUFFLE: u8 = 3;

/// The node that an envelope holds.
#[derive(Clone, Debug, PartialEq, Eq)]
pub enum PhysicalPlanType {
    ShuffleWriter(ShuffleWriterExecNode),
    ShuffleReader(ShuffleReaderExecNode),
    UnresolvedShuffle(UnresolvedShuffleExecNode),
}

/// What a `PhysicalPlanType` holds.
pub enum PhysicalPlanTypeView {
    ShuffleWriter(ShuffleWriterExecNodeView),
    ShuffleReader(ShuffleReaderExecNodeView),
    UnresolvedShuffle(UnresolvedShuffleExecNodeView),
}

impl View for PhysicalPlanType {
    type V = PhysicalPlanTypeView;

    open spec fn view(&self) -> PhysicalPlanTypeView {
        match self {
            PhysicalPlanType::ShuffleWriter(w) => PhysicalPlanTypeView::ShuffleWriter(w@),
            PhysicalPlanType::ShuffleReader(r) => PhysicalPlanTypeView::ShuffleReader(r@),
            PhysicalPlanType::UnresolvedShuffle(u) => PhysicalPlanTypeView::UnresolvedShuffle(u@),
        }
    }
}

impl PhysicalPlanTypeView {
    /// Whether every part is short enough for its length to be written.
    pub open spec fn fits(self) -> bool {
        match self {
            PhysicalPlanTypeView::ShuffleWriter(w) => w.fits() && w.wire().len() <= u64::MAX,
            PhysicalPlanTypeView::ShuffleReader(r) => r.fits() && r.wire().len() <= u64::MAX,
            PhysicalPlanTypeView::UnresolvedShuffle(u) => u.fits() && u.wire().len() <= u64::MAX,
        }
    }

    /// The bytes of the envelope around this node.
    pub open spec fn wire(self) -> Seq<u8> {
        match self {
            PhysicalPlanTypeView::ShuffleWriter(w) => bytes_field(SHUFFLE_WRITER, w.wire()),
            PhysicalPlanTypeView::ShuffleReader(r) => bytes_field(SHUFFLE_READER, r.wire()),
            PhysicalPlanTypeView::UnresolvedShuffle(u) => bytes_field(
                UNRESOLVED_SHUFFLE,
                u.wire(),
            ),
        }
    }
}

/// The envelope of a plan node: one of the three shuffle nodes, or nothing.
#[derive(Clone, Debug, PartialEq, Eq)]
pub struct BallistaPhysicalPlanNode {
    pub physical_plan_type: Option<PhysicalPlanType>,
}

/// What a `BallistaPhysicalPlanNode` holds.
pub struct BallistaPhysicalPlanNodeView {
    pub physical_plan_type: Option<PhysicalPlanTypeView>,
}

impl View for BallistaPhysicalPlanNode {
    type V = BallistaPhysicalPlanNodeView;

    open spec fn view(&self) -> BallistaPhysicalPlanNodeView {
        BallistaPhysicalPlanNodeView {
            physical_plan_type: match self.physical_plan_type {
                Some(t) => Some(t@),
                None => None,
            },
        }
    }
}

impl BallistaPhysicalPlanNodeView {
    /// Whether every part is short enough for its length to be written.
    pub open spec fn fits(self) -> bool {
        self.physical_plan_type matches Some(t) ==> t.fits()
    }

    /// The bytes of the envelope.
    pub open spec fn wire(self) -> Seq<u8> {
        match self.physical_plan_type {
            Some(t) => t.wire(),
            None => Seq::empty(),
        }
    }
}

/// The payload of an envelope that holds the one field `field` and nothing
/// after it.
pub open spec fn sole_field(s: Seq<u8>, field: u8) -> Option<Seq<u8>> {
    match parse_bytes_field(s, field) {
        Some((Some(payload), rest)) => if rest.len() == 0 {
            Some(payload)
        } else {
            None
        },
        _ => None,
    }
}

/// Reads an envelope. Empty input is the envelope that holds nothing.
pub open spec fn parse_plan_node(s: Seq<u8>) -> Option<BallistaPhysicalPlanNodeView> {
    if s.len() == 0 {
        Some(BallistaPhysicalPlanNodeView { physical_plan_type: None })
    } else if leads_with(s, key(SHUFFLE_WRITER, LENGTH_DELIMITED)) {
        match sole_field(s, SHUFFLE_WRITER) {
            Some(payload) => match parse_writer(payload) {
                Some(w) => Some(
                    BallistaPhysicalPlanNodeView {
                        physical_plan_type: Some(PhysicalPlanTypeView::ShuffleWriter(w)),
                    },
                ),
                None => None,
            },
            None => None,
        }
    } else if leads_with(s, key(SHUFFLE_READER, LENGTH_DELIMITED)) {
        match sole_field(s, SHUFFLE_READER) {
            Some(payload) => match parse_reader(payload) {
                Some(r) => Some(
                    BallistaPhysicalPlanNodeView {
                        physical_plan_type: Some(PhysicalPlanTypeView::ShuffleReader(r)),
                    },
                ),
                None => None,
            },
            None => None,
        }
    } else if leads_with(s, key(UNRESOLVED_SHUFFLE, LENGTH_DELIMITED)) {
        match sole_field(s, UNRESOLVED_SHUFFLE) {
            Some(payload) => match parse_unresolved(payload) {
                Some(u) => Some(
                    BallistaPhysicalPlanNodeView {
                        physical_plan_type: Some(PhysicalPlanTypeView::UnresolvedShuffle(u)),
                    },
                ),
                None => None,
            },
            None => None,
        }
    } else {
        None
    }
}

/// A field alone in an envelope reads back as its payload.
pub proof fn lemma_sole_field(field: u8, payload: Seq<u8>)
    requires
        1 <= field <= MAX_FIELD,
        payload.len() <= u64::MAX,
    ensures
        sole_field(bytes_field(field, payload), field) == Some(payload),
        leads_with(bytes_field(field, payload), key(field, LENGTH_DELIMITED)),
{
    lemma_bytes_field_round_trip(field, payload, Seq::<u8>::empty());
    assert(bytes_field(field, payload) + Seq::<u8>::empty() =~= bytes_field(field, payload));
}

/// An envelope reads back as it was written.
pub proof fn lemma_plan_node_round_trip(n: BallistaPhysicalPlanNodeView)
    requires
        n.fits(),
    ensures
        parse_plan_node(n.wire()) == Some(n),
{
    match n.physical_plan_type {
        Some(PhysicalPlanTypeView::ShuffleWriter(w)) => {
            lemma_sole_field(SHUFFLE_WRITER, w.wire());
            lemma_writer_round_trip(w);
        },
        Some(PhysicalPlanTypeView::ShuffleReader(r)) => {
            lemma_sole_field(SHUFFLE_READER, r.wire());
            lemma_reader_round_trip(r);
        },
        Some(PhysicalPlanTypeView::UnresolvedShuffle(u)) => {
            lemma_sole_field(UNRESOLVED_SHUFFLE, u.wire());
            lemma_unresolved_round_trip(u);
        },
        None => {},
    }
}

/// No two envelopes have the same bytes.
pub proof fn lemma_plan_node_wire_injective(
    a: BallistaPhysicalPlanNodeView,
    b: BallistaPhysicalPlanNodeView,
)
    requires
        a.fits(),
        b.fits(),
        a.wire() == b.wire(),
    ensures
        a == b,
{
    lemma_plan_node_round_trip(a);
    lemma_plan_node_round_trip(b);
}

/// Takes from `input` the payload of the one field `field`, where `input`
/// holds that field and nothing after it.
pub fn read_sole_field<'a>(input: &'a [u8], field: u8) -> (r: Option<&'a [u8]>)
    requires
        field <= MAX_FIELD,
    ensures
        r is Some <==> sole_field(input@, field) is Some,
        r matches Some(payload) ==> sole_field(input@, field) == Some(payload@),
{
    match read_bytes_field(input, field) {
        Some((Some(payload), rest)) => if rest.len() == 0 {
            Some(payload)
        } else {
            None
        },
        Some((None, _)) => None,
        None => None,
    }
}

impl BallistaPhysicalPlanNode {
    /// Appends the envelope to `buf`.
    pub fn encode(&self, buf: &mut Vec<u8>)
        ensures
            final(buf)@ == old(buf)@ + self@.wire(),
            self@.fits(),
    {
        let ghost before = buf@;
        let mut payload: Vec<u8> = Vec::new();
        match &self.physical_plan_type {
            Some(PhysicalPlanType::ShuffleWriter(w)) => {
                w.encode(&mut payload);
                let size = payload.len();
                proof {
                    assert(payload@ =~= w@.wire());
                }
                write_bytes_field(SHUFFLE_WRITER, payload.as_slice(), buf);
            },
            Some(PhysicalPlanType::ShuffleReader(r)) => {
                r.encode(&mut payload);
                let size = payload.len();
                proof {
                    assert(payload@ =~= r@.wire());
                }
                write_bytes_field(SHUFFLE_READER, payload.as_slice(), buf);
            },
            Some(PhysicalPlanType::UnresolvedShuffle(u)) => {
                u.encode(&mut payload);
                let size = payload.len();
                proof {
                    assert(payload@ =~= u@.wire());
                }
                write_bytes_field(UNRESOLVED_SHUFFLE, payload.as_slice(), buf);
            },
            None => {
                proof {
                    assert(buf@ =~= before + self@.wire());
                }
            },
        }
    }

    /// Reads the envelope that `input` holds. Fails with `Malformed` on
    /// exactly the inputs that hold none.
    pub fn decode(input: &[u8]) -> (r: Result<BallistaPhysicalPlanNode, BallistaError>)
        ensures
            r is Ok <==> parse_plan_node(input@) is Some,
            r matches Ok(n) ==> parse_plan_node(input@) == Some(n@),
            r matches Err(e) ==> e == BallistaError::Malformed(Malformed::Envelope),
    {
        if input.len() == 0 {
            return Ok(BallistaPhysicalPlanNode { physical_plan_type: None });
        }
        let first = input[0];
        let found = if first == key_of(SHUFFLE_WRITER) {
            match read_sole_field(input, SHUFFLE_WRITER) {
                Some(payload) => match ShuffleWriterExecNode::decode(payload) {
                    Some(w) => Some(PhysicalPlanType::ShuffleWriter(w)),
                    None => None,
                },
                None => None,
            }
        } else if first == key_of(SHUFFLE_READER) {
            match read_sole_field(input, SHUFFLE_READER) {
                Some(payload) => match ShuffleReaderExecNode::decode(payload) {
                    Some(r) => Some(PhysicalPlanType::ShuffleReader(r)),
                    None => None,
                },
                None => None,
            }
        } else if first == key_of(UNRESOLVED_SHUFFLE) {
            match read_sole_field(input, UNRESOLVED_SHUFFLE) {
                Some(payload) => match UnresolvedShuffleExecNode::decode(payload) {
                    Some(u) => Some(PhysicalPlanType::UnresolvedShuffle(u)),
                    None => None,
                },
                None => None,
            }
        } else {
            None
        };
        match found {
            Some(t) => Ok(BallistaPhysicalPlanNode { physical_plan_type: Some(t) }),
            None => Err(BallistaError::Malformed(Malformed::Envelope)),
        }
    }
}

/// The key byte of the length-prefixed field `field`.
pub fn key_of(field: u8) -> (k: u8)
    requires
        field <= MAX_FIELD,
    ensures
        k == key(field, LENGTH_DELIMITED),
{
    crate::serde::wire::key_byte(field, LENGTH_DELIMITED)
}

/// The request to hand over one shuffle partition: its coordinates, its
/// path, and the executor that is asked.
///
/// The fields are numbered 1 to 6 in the order in which they stand here.
#[derive(Clone, Debug, PartialEq, Eq)]
pub struct FetchPartition {
    pub job_id: String,
    pub stage_id: u32,
    pub partition_id: u32,
    pub path: String,
    pub host: String,
    pub port: u32,
}

/// What a `FetchPartition` message holds.
pub struct FetchPartitionView {
    pub job_id: Seq<char>,
    pub stage_id: u32,
    pub partition_id: u32,
    pub path: Seq<char>,
    pub host: Seq<char>,
    pub port: u32,
}

impl View for FetchPartition {
    type V = FetchPartitionView;

    open spec fn view(&self) -> FetchPartitionView {
        FetchPartitionView {
            job_id: self.job_id@,
            stage_id: self.stage_id,
            partition_id: self.partition_id,
            path: self.path@,
            host: self.host@,
            port: self.port,
        }
    }
}

impl FetchPartitionView {
    /// Whether every string is short enough for its length to be written.
    pub open spec fn fits(self) -> bool {
        &&& encode_utf8(self.job_id).len() <= u64::MAX
        &&& encode_utf8(self.path).len() <= u64::MAX
        &&& encode_utf8(self.host).len() <= u64::MAX
    }

    /// The bytes of the message.
    pub open spec fn wire(self) -> Seq<u8> {
        string_field(1, self.job_id) + (uint_field(2, self.stage_id as nat) + (uint_field(
            3,
            self.partition_id as nat,
        ) + (string_field(4, self.path) + (string_field(5, self.host) + uint_field(
            6,
            self.port as nat,
        )))))
    }
}

/// Reads a `FetchPartition` message.
pub open spec fn parse_fetch_partition(s: Seq<u8>) -> Option<FetchPartitionView> {
    let job_id = parse_string_field(s, 1);
    let stage_id = parse_u32_field(job_id.unwrap().1, 2);
    let partition_id = parse_u32_field(stage_id.unwrap().1, 3);
    let path = parse_string_field(partition_id.unwrap().1, 4);
    let host = parse_string_field(path.unwrap().1, 5);
    let port = parse_u32_field(host.unwrap().1, 6);
    if job_id is Some && stage_id is Some && partition_id is Some && path is Some && host is Some
        && port is Some && port.unwrap().1.len() == 0 {
        Some(
            FetchPartitionView {
                job_id: job_id.unwrap().0,
                stage_id: stage_id.unwrap().0,
                partition_id: partition_id.unwrap().0,
                path: path.unwrap().0,
                host: host.unwrap().0,
                port: port.unwrap().0,
            },
        )
    } else {
        None
    }
}

/// A fetch-partition message reads back as it was written.
pub proof fn lemma_fetch_partition_round_trip(f: FetchPartitionView)
    requires
        f.fits(),
    ensures
        parse_fetch_partition(f.wire()) == Some(f),
{
    let f6 = uint_field(6, f.port as nat);
    let t5 = string_field(5, f.host) + f6;
    let t4 = string_field(4, f.path) + t5;
    let t3 = uint_field(3, f.partition_id as nat) + t4;
    let t2 = uint_field(2, f.stage_id as nat) + t3;
    assert(parse_u32_field(f6, 6) == Some((f.port, Seq::<u8>::empty())) && starts_above(f6, 5))
        by {
        lemma_uint_step(6, f.port as nat, Seq::<u8>::empty());
        assert(f6 + Seq::<u8>::empty() =~= f6);
    }
    assert(parse_string_field(t5, 5) == Some((f.host, f6)) && starts_above(t5, 4)) by {
        lemma_string_step(5, f.host, f6);
    }
    assert(parse_string_field(t4, 4) == Some((f.path, t5)) && starts_above(t4, 3)) by {
        lemma_string_step(4, f.path, t5);
    }
    assert(parse_u32_field(t3, 3) == Some((f.partition_id, t4)) && starts_above(t3, 2)) by {
        lemma_uint_step(3, f.partition_id as nat, t4);
    }
    assert(parse_u32_field(t2, 2) == Some((f.stage_id, t3)) && starts_above(t2, 1)) by {
        lemma_uint_step(2, f.stage_id as nat, t3);
    }
    lemma_string_step(1, f.job_id, t2);
}

impl FetchPartition {
    /// Appends the message to `buf`.
    pub fn encode(&self, buf: &mut Vec<u8>)
        ensures
            final(buf)@ == old(buf)@ + self@.wire(),
            self@.fits(),
    {
        let ghost b0 = buf@;
        let ghost f1 = string_field(1, self@.job_id);
        let ghost f2 = uint_field(2, self.stage_id as nat);
        let ghost f3 = uint_field(3, self.partition_id as nat);
        let ghost f4 = string_field(4, self@.path);
        let ghost f5 = string_field(5, self@.host);
        let ghost f6 = uint_field(6, self.port as nat);
        write_string_field(1, self.job_id.as_str(), buf);
        write_uint_field(2, self.stage_id as u64, buf);
        write_uint_field(3, self.partition_id as u64, buf);
        write_string_field(4, self.path.as_str(), buf);
        write_string_field(5, self.host.as_str(), buf);
        write_uint_field(6, self.port as u64, buf);
        proof {
            assert(buf@ == b0 + f1 + f2 + f3 + f4 + f5 + f6);
            lemma_concat_assoc(b0 + f1 + f2 + f3 + f4, f5, f6);
            lemma_concat_assoc(b0 + f1 + f2 + f3, f4, f5 + f6);
            lemma_concat_assoc(b0 + f1 + f2, f3, f4 + (f5 + f6));
            lemma_concat_assoc(b0 + f1, f2, f3 + (f4 + (f5 + f6)));
            lemma_concat_assoc(b0, f1, f2 + (f3 + (f4 + (f5 + f6))));
        }
    }

    /// Reads the message that `input` holds; `None` where it holds none.
    pub fn decode(input: &[u8]) -> (r: Option<FetchPartition>)
        ensures
            r is Some <==> parse_fetch_partition(input@) is Some,
            r matches Some(f) ==> parse_fetch_partition(input@) == Some(f@),
    {
        let (job_id, rest) = match read_string_field(input, 1) {
            Some(found) => found,
            None => { return None; },
        };
        let (stage_id, rest) = match read_u32_field(rest, 2) {
            Some(found) => found,
            None => { return None; },
        };
        let (partition_id, rest) = match read_u32_field(rest, 3) {
            Some(found) => found,
            None => { return None; },
        };
        let (path, rest) = match read_string_field(rest, 4) {
            Some(found) => found,
            None => { return None; },
        };
        let (host, rest) = match read_string_field(rest, 5) {
            Some(found) => found,
            None => { return None; },
        };
        let (port, rest) = match read_u32_field(rest, 6) {
            Some(found) => found,
            None => { return None; },
        };
        if rest.len() != 0 {
            return None;
        }
        Some(FetchPartition { job_id, stage_id, partition_id, path, host, port })
    }
}

/// Field number of the fetch-partition action in the action envelope.
pub const FETCH_PARTITION: u8 = 3;

/// The action that an action envelope holds.
#[derive(Clone, Debug, PartialEq, Eq)]
pub enum ActionType {
    FetchPartition(FetchPartition),
}

/// What an `ActionType` holds.
pub enum ActionTypeView {
    FetchPartition(FetchPartitionView),
}

impl View for ActionType {
    type V = ActionTypeView;

    open spec fn view(&self) -> ActionTypeView {
        match self {
            ActionType::FetchPartition(f) => ActionTypeView::FetchPartition(f@),
        }
    }
}

/// The envelope of a remote action: a tag and the action's own message, or
/// nothing.
#[derive(Clone, Debug, PartialEq, Eq)]
pub struct Action {
    pub action_type: Option<ActionType>,
}

/// What an `Action` envelope holds.
pub struct ActionView {
    pub action_type: Option<ActionTypeView>,
}

impl View for Action {
    type V = ActionView;

    open spec fn view(&self) -> ActionView {
        ActionView {
            action_type: match self.action_type {
                Some(t) => Some(t@),
                None => None,
            },
        }
    }
}

impl ActionView {
    /// Whether every part is short enough for its length to be written.
    pub open spec fn fits(self) -> bool {
        self.action_type matches Some(ActionTypeView::FetchPartition(f)) ==> f.fits()
            && f.wire().len() <= u64::MAX
    }

    /// The bytes of the envelope.
    pub open spec fn wire(self) -> Seq<u8> {
        match self.action_type {
            Some(ActionTypeView::FetchPartition(f)) => bytes_field(FETCH_PARTITION, f.wire()),
            None => Seq::empty(),
        }
    }
}

/// Reads an action envelope. Empty input is the envelope that holds nothing.
pub open spec fn parse_action(s: Seq<u8>) -> Option<ActionView> {
    if s.len() == 0 {
        Some(ActionView { action_type: None })
    } else {
        match sole_field(s, FETCH_PARTITION) {
            Some(payload) => match parse_fetch_partition(payload) {
                Some(f) => Some(
                    ActionView { action_type: Some(ActionTypeView::FetchPartition(f)) },
                ),
                None => None,
            },
            None => None,
        }
    }
}

/// An action envelope reads back as it was written.
pub proof fn lemma_action_round_trip(a: ActionView)
    requires
        a.fits(),
    ensures
        parse_action(a.wire()) == Some(a),
{
    match a.action_type {
        Some(ActionTypeView::FetchPartition(f)) => {
            lemma_sole_field(FETCH_PARTITION, f.wire());
            lemma_fetch_partition_round_trip(f);
        },
        None => {},
    }
}

impl Action {
    /// Appends the envelope to `buf`.
    pub fn encode(&self, buf: &mut Vec<u8>)
        ensures
            final(buf)@ == old(buf)@ + self@.wire(),
            self@.fits(),
    {
        let ghost before = buf@;
        match &self.action_type {
            Some(ActionType::FetchPartition(f)) => {
                let mut payload: Vec<u8> = Vec::new();
                f.encode(&mut payload);
                let size = payload.len();
                proof {
                    assert(payload@ =~= f@.wire());
                }
                write_bytes_field(FETCH_PARTITION, payload.as_slice(), buf);
            },
            None => {
                proof {
                    assert(buf@ =~= before + self@.wire());
                }
            },
        }
    }

    /// Reads the envelope that `input` holds; `None` where it holds none.
    pub fn decode(input: &[u8]) -> (r: Option<Action>)
        ensures
            r is Some <==> parse_action(input@) is Some,
            r matches Some(a) ==> parse_action(input@) == Some(a@),
    {
        if input.len() == 0 {
            return Some(Action { action_type: None });
        }
        match read_sole_field(input, FETCH_PARTITION) {
            Some(payload) => match FetchPartition::decode(payload) {
                Some(f) => Some(Action { action_type: Some(ActionType::FetchPartition(f)) }),
                None => None,
            },
            None => None,
        }
    }
}

} // verus!
