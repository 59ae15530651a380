//! Tag-length-value framing: LEB128 varints, keyed integer fields, keyed
//! length-prefixed fields, and repeated fields.
//!
//! A message is a run of fields in ascending field-number order. A field that
//! holds its default (zero, the empty string, nothing) is left out. Every
//! reader here takes a field from the front of the input if it is there and
//! hands back what follows it.

use vstd::prelude::*;
use vstd::slice::*;
use vstd::string::*;
use vstd::utf8::*;

verus! {

/// Wire type of a varint field.
pub const VARINT: u8 = 0;

/// Wire type of a length-prefixed field.
pub const LENGTH_DELIMITED: u8 = 2;

/// Largest field number whose key fits one byte.
pub const MAX_FIELD: u8 = 15;

/// The LEB128 encoding of `v`: seven bits per byte, low bits first, the high
/// bit set on every byte but the last.
pub open spec fn varint(v: nat) -> Seq<u8>
    decreases v,
{
    if v < 128 {
        seq![v as u8]
    } else {
        seq![(v % 128 + 128) as u8] + varint(v / 128)
    }
}

/// Reads a varint from the front of `s`, `done` bytes of it having been read
/// before `s` starts. Gives the value and the number of bytes taken from `s`.
/// Nothing is read past the tenth byte, and the tenth byte may only be 0 or 1,
/// so a value always fits 64 bits.
pub open spec fn parse_varint_at(s: Seq<u8>, done: nat) -> Option<(nat, nat)>
    decreases 10 - done,
{
    if done >= 10 || s.len() == 0 {
        None
    } else if s[0] < 128 {
        if done == 9 && s[0] >= 2 {
            None
        } else {
            Some((s[0] as nat, 1))
        }
    } else {
        match parse_varint_at(s.skip(1), done + 1) {
            Some((v, n)) => Some(((s[0] - 128) as nat + 128 * v, n + 1)),
            None => None,
        }
    }
}

/// Reads a varint from the front of `s`: the value and the bytes consumed.
pub open spec fn parse_varint(s: Seq<u8>) -> Option<(nat, nat)> {
    parse_varint_at(s, 0)
}

/// One more than the largest value that a varint may still hold when `done`
/// of its bytes have been read.
pub open spec fn varint_room(done: nat) -> nat
    decreases 10 - done,
{
    if done >= 9 {
        2
    } else {
        128 * varint_room(done + 1)
    }
}

/// The key byte of field `field` with wire type `wire_type`.
pub open spec fn key(field: u8, wire_type: u8) -> u8 {
    (field * 8 + wire_type) as u8
}

/// Whether `s` starts with the byte `k`.
pub open spec fn leads_with(s: Seq<u8>, k: u8) -> bool {
    s.len() > 0 && s[0] == k
}

/// Whether `s` is empty or starts with the key of a field above `field`.
pub open spec fn starts_above(s: Seq<u8>, field: u8) -> bool {
    s.len() > 0 ==> s[0] >= 8 * (field + 1)
}

/// An integer field: left out when zero, else its key and the varint.
pub open spec fn uint_field(field: u8, v: nat) -> Seq<u8> {
    if v == 0 {
        Seq::empty()
    } else {
        seq![key(field, VARINT)] + varint(v)
    }
}

/// A length-prefixed field: its key, the payload's length, the payload.
pub open spec fn bytes_field(field: u8, payload: Seq<u8>) -> Seq<u8> {
    seq![key(field, LENGTH_DELIMITED)] + (varint(payload.len()) + payload)
}

/// A length-prefixed field that may be absent.
pub open spec fn opt_bytes_field(field: u8, payload: Option<Seq<u8>>) -> Seq<u8> {
    match payload {
        Some(p) => bytes_field(field, p),
        None => Seq::empty(),
    }
}

/// A string field: left out when empty, else its UTF-8 bytes, length-prefixed.
pub open spec fn string_field(field: u8, s: Seq<char>) -> Seq<u8> {
    if s.len() == 0 {
        Seq::empty()
    } else {
        bytes_field(field, encode_utf8(s))
    }
}

/// A repeated length-prefixed field: one field per item, in order.
pub open spec fn repeated_field(field: u8, items: Seq<Seq<u8>>) -> Seq<u8>
    decreases items.len(),
{
    if items.len() == 0 {
        Seq::empty()
    } else {
        bytes_field(field, items[0]) + repeated_field(field, items.skip(1))
    }
}

/// Takes an integer field from the front of `s`: its value (zero when the
/// field is not there) and what follows. `None` where the key is there and no
/// varint follows it.
pub open spec fn parse_uint_field(s: Seq<u8>, field: u8) -> Option<(nat, Seq<u8>)> {
    if leads_with(s, key(field, VARINT)) {
        match parse_varint(s.skip(1)) {
            Some((v, n)) => Some((v, s.skip(1 + n as int))),
            None => None,
        }
    } else {
        Some((0, s))
    }
}

/// Takes a 32-bit integer field from the front of `s`. `None` where the field
/// is broken or holds more than 32 bits.
pub open spec fn parse_u32_field(s: Seq<u8>, field: u8) -> Option<(u32, Seq<u8>)> {
    match parse_uint_field(s, field) {
        Some((v, rest)) => if v <= u32::MAX {
            Some((v as u32, rest))
        } else {
            None
        },
        None => None,
    }
}

/// Takes a 64-bit integer field from the front of `s`.
pub open spec fn parse_u64_field(s: Seq<u8>, field: u8) -> Option<(u64, Seq<u8>)> {
    match parse_uint_field(s, field) {
        Some((v, rest)) => if v <= u64::MAX {
            Some((v as u64, rest))
        } else {
            None
        },
        None => None,
    }
}

/// Takes a length-prefixed field from the front of `s`: its payload (nothing
/// when the field is not there) and what follows. `None` where the key is
/// there and the length cannot be read or runs past the end.
pub open spec fn parse_bytes_field(s: Seq<u8>, field: u8) -> Option<(Option<Seq<u8>>, Seq<u8>)> {
    if leads_with(s, key(field, LENGTH_DELIMITED)) {
        match parse_varint(s.skip(1)) {
            Some((len, n)) => if 1 + n + len <= s.len() {
                Some(
                    (
                        Some(s.subrange(1 + n as int, 1 + n as int + len as int)),
                        s.skip(1 + n as int + len as int),
                    ),
                )
            } else {
                None
            },
            None => None,
        }
    } else {
        Some((None, s))
    }
}

/// Takes a string field from the front of `s`: the string (empty when the
/// field is not there) and what follows. `None` where the field is broken or
/// its payload is not UTF-8.
pub open spec fn parse_string_field(s: Seq<u8>, field: u8) -> Option<(Seq<char>, Seq<u8>)> {
    match parse_bytes_field(s, field) {
        Some((Some(payload), rest)) => if valid_utf8(payload) {
            Some((decode_utf8(payload), rest))
        } else {
            None
        },
        Some((None, rest)) => Some((Seq::empty(), rest)),
        None => None,
    }
}

/// Takes every leading occurrence of a length-prefixed field from the front of
/// `s`: the payloads in order and what follows the last of them.
pub open spec fn parse_repeated_field(s: Seq<u8>, field: u8) -> Option<(Seq<Seq<u8>>, Seq<u8>)>
    decreases s.len(),
{
    match parse_bytes_field(s, field) {
        Some((Some(payload), rest)) => if rest.len() < s.len() {
            match parse_repeated_field(rest, field) {
                Some((items, after)) => Some((seq![payload] + items, after)),
                None => None,
            }
        } else {
            None
        },
        Some((None, rest)) => Some((Seq::empty(), rest)),
        None => None,
    }
}

/// The views of a list of byte vectors.
pub open spec fn views(items: Seq<Vec<u8>>) -> Seq<Seq<u8>> {
    Seq::new(items.len(), |i: int| items[i]@)
}

/// Puts `done` in front of the items of a parse result.
pub open spec fn after_items(
    done: Seq<Seq<u8>>,
    found: Option<(Seq<Seq<u8>>, Seq<u8>)>,
) -> Option<(Seq<Seq<u8>>, Seq<u8>)> {
    match found {
        Some((items, rest)) => Some((done + items, rest)),
        None => None,
    }
}

/// `varint_room(0)` is 2^64.
pub proof fn lemma_varint_room_start()
    ensures
        varint_room(0) == 0x1_0000_0000_0000_0000,
{
    assert(varint_room(9) == 2);
    assert(varint_room(8) == 0x100);
    assert(varint_room(7) == 0x8000);
    assert(varint_room(6) == 0x40_0000);
    assert(varint_room(5) == 0x2000_0000);
    assert(varint_room(4) == 0x10_0000_0000);
    assert(varint_room(3) == 0x800_0000_0000);
    assert(varint_room(2) == 0x4_0000_0000_0000);
    assert(varint_room(1) == 0x200_0000_0000_0000);
}

/// `varint_room` is at least 2 everywhere.
pub proof fn lemma_varint_room_positive(done: nat)
    ensures
        varint_room(done) >= 2,
    decreases 10 - done,
{
    if done < 9 {
        lemma_varint_room_positive(done + 1);
    }
}

/// `varint_room` is 128 times what it is one byte later, and never above
/// 2^64.
pub proof fn lemma_varint_room_bound(done: nat)
    requires
        done <= 9,
    ensures
        varint_room(done) <= 0x1_0000_0000_0000_0000,
        done < 9 ==> varint_room(done) == 128 * varint_room(done + 1),
{
    assert(varint_room(9) == 2);
    assert(varint_room(8) == 0x100);
    assert(varint_room(7) == 0x8000);
    assert(varint_room(6) == 0x40_0000);
    assert(varint_room(5) == 0x2000_0000);
    assert(varint_room(4) == 0x10_0000_0000);
    assert(varint_room(3) == 0x800_0000_0000);
    assert(varint_room(2) == 0x4_0000_0000_0000);
    assert(varint_room(1) == 0x200_0000_0000_0000);
    assert(varint_room(0) == 0x1_0000_0000_0000_0000);
}

/// A varint is never empty.
pub proof fn lemma_varint_nonempty(v: nat)
    ensures
        varint(v).len() >= 1,
    decreases v,
{
    if v >= 128 {
        lemma_varint_nonempty(v / 128);
    }
}

/// Whatever `parse_varint_at` accepts, it took at least one byte, no more than
/// there were, and the value is below `varint_room(done)`.
pub proof fn lemma_parse_varint_bounds(s: Seq<u8>, done: nat)
    requires
        parse_varint_at(s, done) is Some,
    ensures
        1 <= parse_varint_at(s, done).unwrap().1 <= s.len(),
        parse_varint_at(s, done).unwrap().1 + done <= 10,
        parse_varint_at(s, done).unwrap().0 < varint_room(done),
    decreases 10 - done,
{
    if s[0] >= 128 {
        lemma_parse_varint_bounds(s.skip(1), done + 1);
    } else if done < 9 {
        lemma_varint_room_positive(done + 1);
    }
}

/// Reading back what `varint` wrote gives the value and leaves what followed.
pub proof fn lemma_varint_round_trip_at(v: nat, tail: Seq<u8>, done: nat)
    requires
        done <= 9,
        v < varint_room(done),
    ensures
        parse_varint_at(varint(v) + tail, done) == Some((v, varint(v).len())),
    decreases v,
{
    let s = varint(v) + tail;
    if v < 128 {
        assert(s[0] == v as u8);
    } else {
        let rest = varint(v / 128);
        assert(s[0] == (v % 128 + 128) as u8);
        assert(s.skip(1) =~= rest + tail);
        if done == 9 {
            assert(v < 2);
        } else {
            assert(v / 128 < varint_room(done + 1));
            lemma_varint_round_trip_at(v / 128, tail, done + 1);
            assert(v == (v % 128) + 128 * (v / 128));
        }
    }
}

/// Reading back what `varint` wrote for a 64-bit value gives the value and
/// leaves what followed.
pub proof fn lemma_varint_round_trip(v: nat, tail: Seq<u8>)
    requires
        v <= u64::MAX,
    ensures
        parse_varint(varint(v) + tail) == Some((v, varint(v).len())),
        (varint(v) + tail).skip(varint(v).len() as int) == tail,
{
    lemma_varint_room_start();
    lemma_varint_round_trip_at(v, tail, 0);
    assert((varint(v) + tail).skip(varint(v).len() as int) =~= tail);
}

/// `(a + b) + c` is `a + (b + c)`.
pub proof fn lemma_concat_assoc(a: Seq<u8>, b: Seq<u8>, c: Seq<u8>)
    ensures
        (a + b) + c == a + (b + c),
{
    assert((a + b) + c =~= a + (b + c));
}

/// A field that was taken from the front leaves strictly less behind.
pub proof fn lemma_bytes_field_consumes(s: Seq<u8>, field: u8)
    requires
        parse_bytes_field(s, field) matches Some((Some(_), _)),
    ensures
        parse_bytes_field(s, field).unwrap().1.len() < s.len(),
        parse_bytes_field(s, field).unwrap().0.unwrap().len() < s.len(),
{
    lemma_parse_varint_bounds(s.skip(1), 0);
}

/// Reading back an integer field gives the value and leaves what followed,
/// as long as what followed does not start with the same key.
pub proof fn lemma_uint_field_round_trip(field: u8, v: nat, tail: Seq<u8>)
    requires
        1 <= field <= MAX_FIELD,
        v <= u64::MAX,
        !leads_with(tail, key(field, VARINT)),
    ensures
        parse_uint_field(uint_field(field, v) + tail, field) == Some((v, tail)),
{
    let s = uint_field(field, v) + tail;
    if v == 0 {
        assert(s =~= tail);
    } else {
        lemma_varint_round_trip(v, tail);
        lemma_varint_nonempty(v);
        assert(s.skip(1) =~= varint(v) + tail);
        assert(s.skip(1 + varint(v).len() as int) =~= tail);
    }
}

/// Reading back a length-prefixed field gives the payload and leaves what
/// followed.
pub proof fn lemma_bytes_field_round_trip(field: u8, payload: Seq<u8>, tail: Seq<u8>)
    requires
        1 <= field <= MAX_FIELD,
        payload.len() <= u64::MAX,
    ensures
        parse_bytes_field(bytes_field(field, payload) + tail, field) == Some(
            (Some(payload), tail),
        ),
{
    let s = bytes_field(field, payload) + tail;
    let n = varint(payload.len()).len() as int;
    lemma_varint_round_trip(payload.len(), payload + tail);
    lemma_varint_nonempty(payload.len());
    assert(s.skip(1) =~= varint(payload.len()) + (payload + tail));
    assert(s.subrange(1 + n, 1 + n + payload.len() as int) =~= payload);
    assert(s.skip(1 + n + payload.len() as int) =~= tail);
}

/// Reading back a field that may be absent gives it back, as long as what
/// followed does not start with the same key.
pub proof fn lemma_opt_bytes_field_round_trip(field: u8, payload: Option<Seq<u8>>, tail: Seq<u8>)
    requires
        1 <= field <= MAX_FIELD,
        payload matches Some(p) ==> p.len() <= u64::MAX,
        !leads_with(tail, key(field, LENGTH_DELIMITED)),
    ensures
        parse_bytes_field(opt_bytes_field(field, payload) + tail, field) == Some((payload, tail)),
{
    match payload {
        Some(p) => {
            lemma_bytes_field_round_trip(field, p, tail);
        },
        None => {
            assert(opt_bytes_field(field, payload) + tail =~= tail);
        },
    }
}

/// Reading back a string field gives the string and leaves what followed, as
/// long as what followed does not start with the same key.
pub proof fn lemma_string_field_round_trip(field: u8, s: Seq<char>, tail: Seq<u8>)
    requires
        1 <= field <= MAX_FIELD,
        encode_utf8(s).len() <= u64::MAX,
        !leads_with(tail, key(field, LENGTH_DELIMITED)),
    ensures
        parse_string_field(string_field(field, s) + tail, field) == Some((s, tail)),
{
    if s.len() == 0 {
        assert(string_field(field, s) + tail =~= tail);
        assert(s =~= Seq::<char>::empty());
    } else {
        lemma_bytes_field_round_trip(field, encode_utf8(s), tail);
        encode_utf8_valid_utf8(s);
        encode_utf8_decode_utf8(s);
    }
}

/// Reading back a repeated field gives the items and leaves what followed, as
/// long as what followed does not start with the same key.
pub proof fn lemma_repeated_field_round_trip(field: u8, items: Seq<Seq<u8>>, tail: Seq<u8>)
    requires
        1 <= field <= MAX_FIELD,
        forall|i: int| 0 <= i < items.len() ==> (#[trigger] items[i]).len() <= u64::MAX,
        !leads_with(tail, key(field, LENGTH_DELIMITED)),
    ensures
        parse_repeated_field(repeated_field(field, items) + tail, field) == Some((items, tail)),
    decreases items.len(),
{
    let s = repeated_field(field, items) + tail;
    if items.len() == 0 {
        assert(s =~= tail);
        assert(items =~= Seq::<Seq<u8>>::empty());
    } else {
        let after = repeated_field(field, items.skip(1)) + tail;
        assert(s =~= bytes_field(field, items[0]) + after);
        lemma_bytes_field_round_trip(field, items[0], after);
        lemma_bytes_field_consumes(s, field);
        assert forall|i: int| 0 <= i < items.skip(1).len() implies (#[trigger] items.skip(
            1,
        )[i]).len() <= u64::MAX by {
            assert(items.skip(1)[i] == items[i + 1]);
        }
        lemma_repeated_field_round_trip(field, items.skip(1), tail);
        assert(seq![items[0]] + items.skip(1) =~= items);
    }
}

/// A repeated field with one more item is the field so far and then the item.
pub proof fn lemma_repeated_field_push(field: u8, items: Seq<Seq<u8>>, item: Seq<u8>)
    ensures
        repeated_field(field, items.push(item)) == repeated_field(field, items) + bytes_field(
            field,
            item,
        ),
    decreases items.len(),
{
    if items.len() == 0 {
        reveal_with_fuel(repeated_field, 2);
        assert(items.push(item).skip(1) =~= Seq::<Seq<u8>>::empty());
        assert(repeated_field(field, items.push(item)) =~= bytes_field(field, item));
        assert(repeated_field(field, items) + bytes_field(field, item) =~= bytes_field(
            field,
            item,
        ));
    } else {
        assert(items.push(item).skip(1) =~= items.skip(1).push(item));
        lemma_repeated_field_push(field, items.skip(1), item);
        assert(repeated_field(field, items.push(item)) =~= repeated_field(field, items)
            + bytes_field(field, item));
    }
}

/// An integer field in front of higher fields reads back, and the whole
/// starts above every lower field.
pub proof fn lemma_uint_step(field: u8, v: nat, tail: Seq<u8>)
    requires
        1 <= field <= MAX_FIELD,
        v <= u64::MAX,
        starts_above(tail, field),
    ensures
        parse_uint_field(uint_field(field, v) + tail, field) == Some((v, tail)),
        forall|below: u8|
            below < field ==> #[trigger] starts_above(uint_field(field, v) + tail, below),
{
    lemma_uint_field_round_trip(field, v, tail);
}

/// A length-prefixed field that may be absent, in front of higher fields,
/// reads back, and the whole starts above every lower field.
pub proof fn lemma_opt_bytes_step(field: u8, payload: Option<Seq<u8>>, tail: Seq<u8>)
    requires
        1 <= field <= MAX_FIELD,
        payload matches Some(p) ==> p.len() <= u64::MAX,
        starts_above(tail, field),
    ensures
        parse_bytes_field(opt_bytes_field(field, payload) + tail, field) == Some((payload, tail)),
        forall|below: u8|
            below < field ==> #[trigger] starts_above(
                opt_bytes_field(field, payload) + tail,
                below,
            ),
{
    lemma_opt_bytes_field_round_trip(field, payload, tail);
}

/// A string field in front of higher fields reads back, and the whole starts
/// above every lower field.
pub proof fn lemma_string_step(field: u8, text: Seq<char>, tail: Seq<u8>)
    requires
        1 <= field <= MAX_FIELD,
        encode_utf8(text).len() <= u64::MAX,
        starts_above(tail, field),
    ensures
        parse_string_field(string_field(field, text) + tail, field) == Some((text, tail)),
        forall|below: u8|
            below < field ==> #[trigger] starts_above(string_field(field, text) + tail, below),
{
    lemma_string_field_round_trip(field, text, tail);
}

/// A repeated field in front of higher fields reads back, and the whole
/// starts above every lower field.
pub proof fn lemma_repeated_step(field: u8, items: Seq<Seq<u8>>, tail: Seq<u8>)
    requires
        1 <= field <= MAX_FIELD,
        forall|i: int| 0 <= i < items.len() ==> (#[trigger] items[i]).len() <= u64::MAX,
        starts_above(tail, field),
    ensures
        parse_repeated_field(repeated_field(field, items) + tail, field) == Some((items, tail)),
        forall|below: u8|
            below < field ==> #[trigger] starts_above(repeated_field(field, items) + tail, below),
{
    lemma_repeated_field_round_trip(field, items, tail);
}

/// Reads `bytes` as UTF-8.
///
/// Trusted: calls `core::str::from_utf8`, which succeeds on exactly the
/// well-formed UTF-8 inputs and then gives a string slice over the same bytes.
#[verifier::external_body]
fn utf8_str<'a>(bytes: &'a [u8]) -> (r: Option<&'a str>)
    ensures
        r is Some <==> valid_utf8(bytes@),
        r matches Some(s) ==> s.spec_bytes() == bytes@,
{
    match core::str::from_utf8(bytes) {
        Ok(s) => Some(s),
        Err(_) => None,
    }
}

/// Appends `value` to `buf` as a varint.
pub fn write_varint(value: u64, buf: &mut Vec<u8>)
    ensures
        final(buf)@ == old(buf)@ + varint(value as nat),
{
    let ghost before = buf@;
    let mut rest: u64 = value;
    while rest >= 128
        invariant
            before + varint(value as nat) == buf@ + varint(rest as nat),
        decreases rest,
    {
        let ghost so_far = buf@;
        buf.push((rest % 128 + 128) as u8);
        proof {
            assert(so_far + varint(rest as nat) =~= buf@ + varint((rest / 128) as nat));
        }
        rest = rest / 128;
    }
    let ghost so_far = buf@;
    buf.push(rest as u8);
    proof {
        assert(so_far + varint(rest as nat) =~= buf@);
    }
}

/// Reads a varint from the front of `input`, `done` bytes of it having been
/// read before `input` starts: the value and the number of bytes taken.
fn read_varint_at(input: &[u8], done: u8) -> (r: Option<(u64, usize)>)
    ensures
        r is Some <==> parse_varint_at(input@, done as nat) is Some,
        r matches Some((v, n)) ==> parse_varint_at(input@, done as nat) == Some(
            (v as nat, n as nat),
        ),
    decreases 10 - done,
{
    if done >= 10 || input.len() == 0 {
        return None;
    }
    let byte = input[0];
    if byte < 128 {
        if done == 9 && byte >= 2 {
            None
        } else {
            Some((byte as u64, 1))
        }
    } else {
        let tail = slice_subrange(input, 1, input.len());
        proof {
            assert(tail@ =~= input@.skip(1));
        }
        match read_varint_at(tail, done + 1) {
            Some((v, n)) => {
                proof {
                    lemma_parse_varint_bounds(tail@, (done + 1) as nat);
                    lemma_varint_room_bound(done as nat);
                }
                Some(((byte - 128) as u64 + 128 * v, n + 1))
            },
            None => None,
        }
    }
}

/// Takes a varint from the front of `input`; `None` where none can be read.
pub fn read_varint<'a>(input: &'a [u8]) -> (r: Option<(u64, &'a [u8])>)
    ensures
        r is Some <==> parse_varint(input@) is Some,
        r matches Some((v, rest)) ==> parse_varint(input@).unwrap().0 == v && rest@ == input@.skip(
            parse_varint(input@).unwrap().1 as int,
        ),
{
    match read_varint_at(input, 0) {
        Some((v, n)) => {
            proof {
                lemma_parse_varint_bounds(input@, 0);
            }
            Some((v, slice_subrange(input, n, input.len())))
        },
        None => None,
    }
}

/// The key byte of field `field` with wire type `wire_type`.
pub fn key_byte(field: u8, wire_type: u8) -> (k: u8)
    requires
        field <= MAX_FIELD,
        wire_type <= 7,
    ensures
        k == key(field, wire_type),
{
    field * 8 + wire_type
}

/// Appends `bytes` to `buf`.
pub fn append_bytes(buf: &mut Vec<u8>, bytes: &[u8])
    ensures
        final(buf)@ == old(buf)@ + bytes@,
{
    let ghost before = buf@;
    let mut i: usize = 0;
    while i < bytes.len()
        invariant
            i <= bytes@.len(),
            buf@ == before + bytes@.take(i as int),
        decreases bytes@.len() - i,
    {
        buf.push(bytes[i]);
        proof {
            assert(bytes@.take(i + 1) =~= bytes@.take(i as int).push(bytes@[i as int]));
            assert(buf@ =~= before + bytes@.take(i + 1));
        }
        i += 1;
    }
    proof {
        assert(bytes@.take(bytes@.len() as int) =~= bytes@);
    }
}

/// Appends an integer field to `buf`; nothing when `value` is zero.
pub fn write_uint_field(field: u8, value: u64, buf: &mut Vec<u8>)
    requires
        field <= MAX_FIELD,
    ensures
        final(buf)@ == old(buf)@ + uint_field(field, value as nat),
{
    let ghost before = buf@;
    if value != 0 {
        buf.push(key_byte(field, VARINT));
        write_varint(value, buf);
        proof {
            assert(buf@ =~= before + uint_field(field, value as nat));
        }
    } else {
        proof {
            assert(buf@ =~= before + uint_field(field, value as nat));
        }
    }
}

/// Appends a length-prefixed field to `buf`.
pub fn write_bytes_field(field: u8, payload: &[u8], buf: &mut Vec<u8>)
    requires
        field <= MAX_FIELD,
    ensures
        final(buf)@ == old(buf)@ + bytes_field(field, payload@),
{
    let ghost before = buf@;
    buf.push(key_byte(field, LENGTH_DELIMITED));
    write_varint(payload.len() as u64, buf);
    append_bytes(buf, payload);
    proof {
        assert(buf@ =~= before + bytes_field(field, payload@));
    }
}

/// Appends a string field to `buf`; nothing when `text` is empty.
pub fn write_string_field(field: u8, text: &str, buf: &mut Vec<u8>)
    requires
        field <= MAX_FIELD,
    ensures
        final(buf)@ == old(buf)@ + string_field(field, text@),
        encode_utf8(text@).len() <= usize::MAX,
{
    let ghost before = buf@;
    let bytes = text.as_bytes();
    let size: usize = bytes.len();
    if !text.is_empty() {
        write_bytes_field(field, bytes, buf);
    } else {
        proof {
            assert(buf@ =~= before + string_field(field, text@));
        }
    }
}

/// Takes an integer field from the front of `input`.
pub fn read_uint_field<'a>(input: &'a [u8], field: u8) -> (r: Option<(u64, &'a [u8])>)
    requires
        field <= MAX_FIELD,
    ensures
        r is Some <==> parse_uint_field(input@, field) is Some,
        r matches Some((v, rest)) ==> parse_uint_field(input@, field) == Some((v as nat, rest@)),
{
    if input.len() > 0 && input[0] == key_byte(field, VARINT) {
        let body = slice_subrange(input, 1, input.len());
        match read_varint(body) {
            Some((v, rest)) => {
                proof {
                    let n = parse_varint(body@).unwrap().1 as int;
                    lemma_parse_varint_bounds(body@, 0);
                    assert(body@ =~= input@.skip(1));
                    assert(rest@ =~= input@.skip(1 + n));
                }
                Some((v, rest))
            },
            None => {
                proof {
                    assert(body@ =~= input@.skip(1));
                }
                None
            },
        }
    } else {
        Some((0, input))
    }
}

/// Takes a 32-bit integer field from the front of `input`.
pub fn read_u32_field<'a>(input: &'a [u8], field: u8) -> (r: Option<(u32, &'a [u8])>)
    requires
        field <= MAX_FIELD,
    ensures
        r is Some <==> parse_u32_field(input@, field) is Some,
        r matches Some((v, rest)) ==> parse_u32_field(input@, field) == Some((v, rest@)),
{
    match read_uint_field(input, field) {
        Some((v, rest)) => if v <= u32::MAX as u64 {
            Some((v as u32, rest))
        } else {
            None
        },
        None => None,
    }
}

/// Takes a 64-bit integer field from the front of `input`.
pub fn read_u64_field<'a>(input: &'a [u8], field: u8) -> (r: Option<(u64, &'a [u8])>)
    requires
        field <= MAX_FIELD,
    ensures
        r is Some <==> parse_u64_field(input@, field) is Some,
        r matches Some((v, rest)) ==> parse_u64_field(input@, field) == Some((v, rest@)),
{
    read_uint_field(input, field)
}

/// Takes a length-prefixed field from the front of `input`.
pub fn read_bytes_field<'a>(input: &'a [u8], field: u8) -> (r: Option<
    (Option<&'a [u8]>, &'a [u8]),
>)
    requires
        field <= MAX_FIELD,
    ensures
        r is Some <==> parse_bytes_field(input@, field) is Some,
        r matches Some((Some(payload), rest)) ==> parse_bytes_field(input@, field) == Some(
            (Some(payload@), rest@),
        ),
        r matches Some((None, rest)) ==> parse_bytes_field(input@, field) == Some(
            (None::<Seq<u8>>, rest@),
        ),
{
    if input.len() > 0 && input[0] == key_byte(field, LENGTH_DELIMITED) {
        let body = slice_subrange(input, 1, input.len());
        proof {
            assert(body@ =~= input@.skip(1));
        }
        match read_varint(body) {
            Some((len, after)) => {
                proof {
                    lemma_parse_varint_bounds(body@, 0);
                }
                let ghost n = parse_varint(body@).unwrap().1 as int;
                if len > after.len() as u64 {
                    None
                } else {
                    let size = len as usize;
                    let payload = slice_subrange(after, 0, size);
                    let rest = slice_subrange(after, size, after.len());
                    proof {
                        assert(payload@ =~= input@.subrange(1 + n, 1 + n + len as int));
                        assert(rest@ =~= input@.skip(1 + n + len as int));
                    }
                    Some((Some(payload), rest))
                }
            },
            None => None,
        }
    } else {
        Some((None, input))
    }
}

/// Takes a string field from the front of `input`.
pub fn read_string_field<'a>(input: &'a [u8], field: u8) -> (r: Option<(String, &'a [u8])>)
    requires
        field <= MAX_FIELD,
    ensures
        r is Some <==> parse_string_field(input@, field) is Some,
        r matches Some((text, rest)) ==> parse_string_field(input@, field) == Some(
            (text@, rest@),
        ),
{
    match read_bytes_field(input, field) {
        Some((Some(payload), rest)) => match utf8_str(payload) {
            Some(text) => {
                proof {
                    encode_utf8_decode_utf8(text@);
                }
                Some((text.to_owned(), rest))
            },
            None => None,
        },
        Some((None, rest)) => Some((String::new(), rest)),
        None => None,
    }
}

/// Takes every leading occurrence of a length-prefixed field from the front
/// of `input`.
pub fn read_repeated_field<'a>(input: &'a [u8], field: u8) -> (r: Option<
    (Vec<Vec<u8>>, &'a [u8]),
>)
    requires
        field <= MAX_FIELD,
    ensures
        r is Some <==> parse_repeated_field(input@, field) is Some,
        r matches Some((items, rest)) ==> parse_repeated_field(input@, field) == Some(
            (views(items@), rest@),
        ),
{
    let mut items: Vec<Vec<u8>> = Vec::new();
    let mut cursor = input;
    proof {
        assert(views(items@) =~= Seq::<Seq<u8>>::empty());
        assert(after_items(views(items@), parse_repeated_field(cursor@, field))
            == parse_repeated_field(cursor@, field)) by {
            match parse_repeated_field(cursor@, field) {
                Some((found, rest)) => {
                    assert(views(items@) + found =~= found);
                },
                None => {},
            }
        }
    }
    loop
        invariant
            field <= MAX_FIELD,
            parse_repeated_field(input@, field) == after_items(
                views(items@),
                parse_repeated_field(cursor@, field),
            ),
        decreases cursor@.len(),
    {
        match read_bytes_field(cursor, field) {
            Some((Some(payload), rest)) => {
                proof {
                    lemma_bytes_field_consumes(cursor@, field);
                }
                let ghost before = views(items@);
                items.push(slice_to_vec(payload));
                proof {
                    assert(views(items@) =~= before.push(payload@));
                    match parse_repeated_field(rest@, field) {
                        Some((found, after)) => {
                            assert(before + (seq![payload@] + found) =~= views(items@) + found);
                        },
                        None => {},
                    }
                }
                cursor = rest;
            },
            Some((None, rest)) => {
                proof {
                    assert(views(items@) + Seq::<Seq<u8>>::empty() =~= views(items@));
                }
                return Some((items, rest));
            },
            None => {
                return None;
            },
        }
    }
}

} // verus!
