//! The wire format that messages travel in: a sequence of tagged fields, each
//! a base-128 integer, a run of bytes with its length in front, a fixed-width
//! number, or a group.
//!
//! The readers here are schema-free. They split a buffer into its fields and
//! leave the meaning of each tag to the message that is being read.
use vstd::prelude::*;
use vstd::slice::slice_subrange;

verus! {

/// How the value of a field is laid out.
#[derive(Clone, Copy, Debug, PartialEq, Eq, Structural)]
pub enum WireType {
    Varint,
    SixtyFourBit,
    LengthDelimited,
    StartGroup,
    EndGroup,
    ThirtyTwoBit,
}

/// The largest tag a field can have.
pub const MAX_TAG: u32 = 0x1FFF_FFFF;

/// How deep groups and messages may nest inside the outermost message.
pub const RECURSION_LIMIT: u32 = 100;

/// One more than the largest value that the bytes of a base-128 integer can
/// add up to from its `i`-th byte on. An integer has at most ten bytes, and its
/// tenth byte holds a single bit.
pub open spec fn varint_limit(i: int) -> int {
    if i >= 9 {
        0x2
    } else if i == 8 {
        0x100
    } else if i == 7 {
        0x8000
    } else if i == 6 {
        0x40_0000
    } else if i == 5 {
        0x2000_0000
    } else if i == 4 {
        0x10_0000_0000
    } else if i == 3 {
        0x800_0000_0000
    } else if i == 2 {
        0x4_0000_0000_0000
    } else if i == 1 {
        0x200_0000_0000_0000
    } else {
        0x1_0000_0000_0000_0000
    }
}

/// Reads a base-128 integer whose `i`-th byte is `b[i]`: the value of the bytes
/// from there on, and how many they are. Each byte gives seven bits, lowest
/// first; a byte below 128 is the last. `None` where the buffer ends first,
/// where there is no last byte among the first ten, or where the tenth byte
/// would push the value beyond 64 bits.
pub open spec fn parse_varint_from(b: Seq<u8>, i: int) -> Option<(int, int)>
    decreases 10 - i,
{
    if i < 0 || i >= 10 || i >= b.len() {
        None
    } else if b[i] < 128 {
        if i == 9 && b[i] >= 2 {
            None
        } else {
            Some((b[i] as int, 1))
        }
    } else {
        match parse_varint_from(b, i + 1) {
            Some((v, n)) => Some(((b[i] - 128) + 128 * v, n + 1)),
            None => None,
        }
    }
}

/// Reads the base-128 integer at the front of `b`: its value and its length.
pub open spec fn parse_varint(b: Seq<u8>) -> Option<(int, int)> {
    parse_varint_from(b, 0)
}

/// The shortest base-128 form of `v`.
pub open spec fn encode_varint(v: int) -> Seq<u8>
    decreases v,
{
    if v < 128 {
        seq![v as u8]
    } else {
        seq![(v % 128 + 128) as u8] + encode_varint(v / 128)
    }
}

/// What a base-128 integer that was read looks like: it fits its bytes.
pub proof fn lemma_parse_varint_bounds(b: Seq<u8>, i: int)
    ensures
        parse_varint_from(b, i) matches Some((v, n)) ==> 0 <= v < varint_limit(i) && 1 <= n
            && i + n <= 10 && i + n <= b.len(),
    decreases 10 - i,
{
    if 0 <= i < 10 && i < b.len() && b[i] >= 128 {
        lemma_parse_varint_bounds(b, i + 1);
    }
}

/// The shortest form of a value below `varint_limit(i)` has no more than `10 - i` bytes.
pub proof fn lemma_encode_varint_len(v: int, i: int)
    requires
        0 <= i <= 9,
        0 <= v < varint_limit(i),
    ensures
        1 <= encode_varint(v).len() <= 10 - i,
    decreases v,
{
    if v >= 128 {
        lemma_encode_varint_len(v / 128, i + 1);
    }
}

/// Writing a value and reading it back gives the value, whatever follows it.
pub proof fn lemma_varint_roundtrip_from(v: int, i: int, b: Seq<u8>)
    requires
        0 <= i <= 9,
        0 <= v < varint_limit(i),
        b.len() >= i + encode_varint(v).len(),
        forall|k: int| 0 <= k < encode_varint(v).len() ==> b[i + k] == encode_varint(v)[k],
    ensures
        parse_varint_from(b, i) == Some((v, encode_varint(v).len() as int)),
    decreases v,
{
    let enc = encode_varint(v);
    assert(b[i] == enc[0]);
    if v >= 128 {
        let tail = encode_varint(v / 128);
        assert(enc =~= seq![(v % 128 + 128) as u8] + tail);
        assert forall|k: int| 0 <= k < tail.len() implies b[i + 1 + k] == tail[k] by {
            assert(b[i + (k + 1)] == enc[k + 1]);
        }
        lemma_varint_roundtrip_from(v / 128, i + 1, b);
    }
}

/// Writing a 64-bit value and reading it back gives the value, whatever follows it.
pub proof fn lemma_varint_roundtrip(v: int, rest: Seq<u8>)
    requires
        0 <= v <= u64::MAX,
    ensures
        parse_varint(encode_varint(v) + rest) == Some((v, encode_varint(v).len() as int)),
        1 <= encode_varint(v).len() <= 10,
{
    lemma_encode_varint_len(v, 0);
    lemma_varint_roundtrip_from(v, 0, encode_varint(v) + rest);
}

/// The wire type with number `n`.
pub open spec fn wire_type_of(n: int) -> Option<WireType> {
    if n == 0 {
        Some(WireType::Varint)
    } else if n == 1 {
        Some(WireType::SixtyFourBit)
    } else if n == 2 {
        Some(WireType::LengthDelimited)
    } else if n == 3 {
        Some(WireType::StartGroup)
    } else if n == 4 {
        Some(WireType::EndGroup)
    } else if n == 5 {
        Some(WireType::ThirtyTwoBit)
    } else {
        None
    }
}

/// The number of a wire type.
pub open spec fn wire_type_number(t: WireType) -> int {
    match t {
        WireType::Varint => 0,
        WireType::SixtyFourBit => 1,
        WireType::LengthDelimited => 2,
        WireType::StartGroup => 3,
        WireType::EndGroup => 4,
        WireType::ThirtyTwoBit => 5,
    }
}

/// The key at the front of a field.
pub struct Key {
    pub tag: int,
    pub wire_type: WireType,
    /// how many bytes the key takes
    pub len: int,
}

/// Reads the key at the front of `b`: a base-128 integer of at most 32 bits
/// whose low three bits name the wire type and whose other bits are the tag.
/// The tag is at least 1.
pub open spec fn parse_key(b: Seq<u8>) -> Option<Key> {
    match parse_varint(b) {
        Some((v, n)) => {
            if v <= u32::MAX && wire_type_of(v % 8) is Some && v / 8 >= 1 {
                Some(Key { tag: v / 8, wire_type: wire_type_of(v % 8)->Some_0, len: n })
            } else {
                None
            }
        },
        None => None,
    }
}

/// The bytes of the key of a field with this tag and wire type.
pub open spec fn encode_key(tag: int, wire_type: WireType) -> Seq<u8> {
    encode_varint(tag * 8 + wire_type_number(wire_type))
}

/// How many bytes the value of a field takes that is passed over unread, read
/// from the front of `b`, the byte after the field's key. `depth` is how much
/// nesting is still allowed; nothing can be passed over at depth 0.
pub open spec fn skip_value(b: Seq<u8>, wire_type: WireType, tag: int, depth: nat) -> Option<int>
    decreases depth, b.len(), 1int,
{
    if depth == 0 {
        None
    } else {
        match wire_type {
            WireType::Varint => match parse_varint(b) {
                Some((_, n)) => Some(n),
                None => None,
            },
            WireType::SixtyFourBit => if b.len() >= 8 {
                Some(8)
            } else {
                None
            },
            WireType::ThirtyTwoBit => if b.len() >= 4 {
                Some(4)
            } else {
                None
            },
            WireType::LengthDelimited => match parse_varint(b) {
                Some((len, n)) => if len <= b.len() - n {
                    Some(n + len)
                } else {
                    None
                },
                None => None,
            },
            WireType::StartGroup => skip_group(b, tag, depth),
            WireType::EndGroup => None,
        }
    }
}

/// How many bytes the rest of a group takes, up to and with the key that ends
/// it. The group was started by a field with tag `tag` and must be ended by a
/// key with the same tag; the fields inside it nest one level deeper.
pub open spec fn skip_group(b: Seq<u8>, tag: int, depth: nat) -> Option<int>
    decreases depth, b.len(), 0int,
{
    if depth == 0 {
        None
    } else {
        match parse_key(b) {
            None => None,
            Some(key) => {
                if key.wire_type == WireType::EndGroup {
                    if key.tag == tag {
                        Some(key.len)
                    } else {
                        None
                    }
                } else if 0 < key.len <= b.len() {
                    match skip_value(
                        b.skip(key.len),
                        key.wire_type,
                        key.tag,
                        (depth - 1) as nat,
                    ) {
                        None => None,
                        Some(n) => {
                            if 0 <= n && key.len + n <= b.len() {
                                match skip_group(b.skip(key.len + n), tag, depth) {
                                    Some(m) => Some(key.len + n + m),
                                    None => None,
                                }
                            } else {
                                None
                            }
                        },
                    }
                } else {
                    None
                }
            },
        }
    }
}

/// What a field holds, as far as any message here reads it.
pub enum FieldValue {
    /// a base-128 integer
    Varint(u64),
    /// a run of bytes: a string or a nested message
    Bytes(Seq<u8>),
    /// a fixed-width number or a group, which no message here has a use for
    Other,
}

/// One field of a message as it stands in the buffer.
pub struct Field {
    pub tag: int,
    pub value: FieldValue,
}

/// Reads the field at the front of `b`: the field and how many bytes it takes.
pub open spec fn parse_field(b: Seq<u8>, depth: nat) -> Option<(Field, int)> {
    match parse_key(b) {
        None => None,
        Some(key) => {
            let rest = b.skip(key.len);
            match key.wire_type {
                WireType::Varint => match parse_varint(rest) {
                    Some((v, n)) => Some(
                        (Field { tag: key.tag, value: FieldValue::Varint(v as u64) }, key.len + n),
                    ),
                    None => None,
                },
                WireType::LengthDelimited => match parse_varint(rest) {
                    Some((len, n)) => if len <= rest.len() - n {
                        Some(
                            (
                                Field {
                                    tag: key.tag,
                                    value: FieldValue::Bytes(rest.subrange(n, n + len)),
                                },
                                key.len + n + len,
                            ),
                        )
                    } else {
                        None
                    },
                    None => None,
                },
                _ => match skip_value(rest, key.wire_type, key.tag, depth) {
                    Some(n) => Some((Field { tag: key.tag, value: FieldValue::Other }, key.len + n)),
                    None => None,
                },
            }
        },
    }
}

/// Splits `b` into its fields, first to last. `None` where some field cannot
/// be read or the last one is cut short.
pub open spec fn parse_fields(b: Seq<u8>, depth: nat) -> Option<Seq<Field>>
    decreases b.len(),
{
    if b.len() == 0 {
        Some(Seq::empty())
    } else {
        match parse_field(b, depth) {
            None => None,
            Some((field, n)) => {
                if 0 < n <= b.len() {
                    match parse_fields(b.skip(n), depth) {
                        Some(fields) => Some(seq![field] + fields),
                        None => None,
                    }
                } else {
                    None
                }
            },
        }
    }
}

/// The field can be written: its tag is in range, and its value is an
/// integer or a run of bytes whose length fits 64 bits.
pub open spec fn encodable(field: Field) -> bool {
    &&& 1 <= field.tag <= MAX_TAG
    &&& match field.value {
        FieldValue::Varint(_) => true,
        FieldValue::Bytes(bytes) => bytes.len() <= u64::MAX,
        FieldValue::Other => false,
    }
}

/// The bytes of one field: its key, then its value.
pub open spec fn encode_field(field: Field) -> Seq<u8> {
    match field.value {
        FieldValue::Varint(v) => encode_key(field.tag, WireType::Varint) + encode_varint(v as int),
        FieldValue::Bytes(bytes) => encode_key(field.tag, WireType::LengthDelimited)
            + encode_varint(bytes.len() as int) + bytes,
        FieldValue::Other => Seq::empty(),
    }
}

/// The bytes of a sequence of fields, one after the other.
pub open spec fn encode_fields(fields: Seq<Field>) -> Seq<u8>
    decreases fields.len(),
{
    if fields.len() == 0 {
        Seq::empty()
    } else {
        encode_field(fields[0]) + encode_fields(fields.skip(1))
    }
}

/// A key that was written is read back as it was, whatever follows it.
pub proof fn lemma_key_roundtrip(tag: int, wire_type: WireType, rest: Seq<u8>)
    requires
        1 <= tag <= MAX_TAG,
    ensures
        parse_key(encode_key(tag, wire_type) + rest) == Some(
            Key { tag, wire_type, len: encode_key(tag, wire_type).len() as int },
        ),
        1 <= encode_key(tag, wire_type).len(),
{
    let v = tag * 8 + wire_type_number(wire_type);
    lemma_varint_roundtrip(v, rest);
}

/// A field that was written is read back as it was, whatever follows it.
pub proof fn lemma_field_roundtrip(field: Field, rest: Seq<u8>, depth: nat)
    requires
        encodable(field),
    ensures
        parse_field(encode_field(field) + rest, depth) == Some(
            (field, encode_field(field).len() as int),
        ),
        encode_field(field).len() >= 1,
{
    let b = encode_field(field) + rest;
    match field.value {
        FieldValue::Varint(v) => {
            let key = encode_key(field.tag, WireType::Varint);
            let value = encode_varint(v as int);
            assert(b =~= key + (value + rest));
            lemma_key_roundtrip(field.tag, WireType::Varint, value + rest);
            assert(b.skip(key.len() as int) =~= value + rest);
            lemma_varint_roundtrip(v as int, rest);
        },
        FieldValue::Bytes(bytes) => {
            let key = encode_key(field.tag, WireType::LengthDelimited);
            let len = encode_varint(bytes.len() as int);
            assert(b =~= key + (len + bytes + rest));
            lemma_key_roundtrip(field.tag, WireType::LengthDelimited, len + bytes + rest);
            let after_key = b.skip(key.len() as int);
            assert(after_key =~= len + (bytes + rest));
            lemma_varint_roundtrip(bytes.len() as int, bytes + rest);
            assert(after_key.subrange(len.len() as int, (len.len() + bytes.len()) as int) =~= bytes);
        },
        FieldValue::Other => {},
    }
}

/// Fields that were written are read back as they were.
pub proof fn lemma_fields_roundtrip(fields: Seq<Field>, depth: nat)
    requires
        forall|i: int| 0 <= i < fields.len() ==> encodable(#[trigger] fields[i]),
    ensures
        parse_fields(encode_fields(fields), depth) == Some(fields),
    decreases fields.len(),
{
    if fields.len() > 0 {
        let first = fields[0];
        let tail = fields.skip(1);
        let rest = encode_fields(tail);
        let b = encode_fields(fields);
        assert(encodable(first));
        lemma_field_roundtrip(first, rest, depth);
        assert forall|i: int| 0 <= i < tail.len() implies encodable(#[trigger] tail[i]) by {
            assert(tail[i] == fields[i + 1]);
        }
        lemma_fields_roundtrip(tail, depth);
        assert(b.skip(encode_field(first).len() as int) =~= rest);
        assert(seq![first] + tail =~= fields);
    }
}

/// Writing two runs of fields one after the other writes their concatenation.
pub proof fn lemma_encode_fields_concat(a: Seq<Field>, b: Seq<Field>)
    ensures
        encode_fields(a + b) == encode_fields(a) + encode_fields(b),
    decreases a.len(),
{
    if a.len() == 0 {
        assert(a + b =~= b);
        assert(encode_fields(a) + encode_fields(b) =~= encode_fields(b));
    } else {
        assert((a + b).skip(1) =~= a.skip(1) + b);
        lemma_encode_fields_concat(a.skip(1), b);
        assert(encode_fields(a + b) =~= encode_fields(a) + encode_fields(b));
    }
}

/// What is passed over lies inside the buffer.
pub proof fn lemma_skip_value_bounds(b: Seq<u8>, wire_type: WireType, tag: int, depth: nat)
    ensures
        skip_value(b, wire_type, tag, depth) matches Some(n) ==> 0 <= n <= b.len(),
    decreases depth, b.len(), 1int,
{
    if depth > 0 {
        match wire_type {
            WireType::Varint => {
                lemma_parse_varint_bounds(b, 0);
            },
            WireType::LengthDelimited => {
                lemma_parse_varint_bounds(b, 0);
            },
            WireType::StartGroup => {
                lemma_skip_group_bounds(b, tag, depth);
            },
            _ => {},
        }
    }
}

/// What a group takes lies inside the buffer and is at least its closing key.
pub proof fn lemma_skip_group_bounds(b: Seq<u8>, tag: int, depth: nat)
    ensures
        skip_group(b, tag, depth) matches Some(n) ==> 1 <= n <= b.len(),
    decreases depth, b.len(), 0int,
{
    if depth > 0 {
        lemma_parse_varint_bounds(b, 0);
        match parse_key(b) {
            None => {},
            Some(key) => {
                if key.wire_type != WireType::EndGroup && 0 < key.len <= b.len() {
                    lemma_skip_value_bounds(
                        b.skip(key.len),
                        key.wire_type,
                        key.tag,
                        (depth - 1) as nat,
                    );
                    match skip_value(b.skip(key.len), key.wire_type, key.tag, (depth - 1) as nat) {
                        None => {},
                        Some(n) => {
                            if 0 <= n && key.len + n <= b.len() {
                                lemma_skip_group_bounds(b.skip(key.len + n), tag, depth);
                            }
                        },
                    }
                }
            },
        }
    }
}

/// A field that was read takes at least one byte and lies inside the buffer,
/// and its tag is in range.
pub proof fn lemma_parse_field_bounds(b: Seq<u8>, depth: nat)
    ensures
        parse_field(b, depth) matches Some((field, n)) ==> 1 <= n <= b.len() && 1 <= field.tag
            <= MAX_TAG,
        parse_key(b) matches Some(key) ==> 1 <= key.len <= b.len() && 1 <= key.tag <= MAX_TAG,
{
    lemma_parse_varint_bounds(b, 0);
    match parse_key(b) {
        None => {},
        Some(key) => {
            let rest = b.skip(key.len);
            lemma_parse_varint_bounds(rest, 0);
            lemma_skip_value_bounds(rest, key.wire_type, key.tag, depth);
        },
    }
}

/// Reads a base-128 integer whose `i`-th byte is `b[i]`.
fn read_varint_from(b: &[u8], i: usize) -> (r: Option<(u64, usize)>)
    requires
        i <= 10,
    ensures
        match parse_varint_from(b@, i as int) {
            Some((v, n)) => r == Some((v as u64, n as usize)) && 0 <= v < varint_limit(i as int)
                && 1 <= n && i + n <= b.len(),
            None => r is None,
        },
    decreases 10 - i,
{
    proof {
        lemma_parse_varint_bounds(b@, i as int);
    }
    if i >= 10 || i >= b.len() {
        return None;
    }
    let byte = b[i];
    if byte < 128 {
        if i == 9 && byte >= 2 {
            None
        } else {
            Some((byte as u64, 1))
        }
    } else {
        match read_varint_from(b, i + 1) {
            Some((v, n)) => {
                proof {
                    lemma_parse_varint_bounds(b@, i + 1);
                }
                Some(((byte - 128) as u64 + 128 * v, n + 1))
            },
            None => None,
        }
    }
}

/// Reads the base-128 integer at the front of `b`: its value and its length.
pub fn read_varint(b: &[u8]) -> (r: Option<(u64, usize)>)
    ensures
        match parse_varint(b@) {
            Some((v, n)) => r == Some((v as u64, n as usize)) && 0 <= v <= u64::MAX && 1 <= n <= 10
                && n <= b.len(),
            None => r is None,
        },
{
    proof {
        lemma_parse_varint_bounds(b@, 0);
    }
    read_varint_from(b, 0)
}

/// The wire type with number `n`.
fn wire_type_from(n: u64) -> (r: Option<WireType>)
    ensures
        r == wire_type_of(n as int),
{
    if n == 0 {
        Some(WireType::Varint)
    } else if n == 1 {
        Some(WireType::SixtyFourBit)
    } else if n == 2 {
        Some(WireType::LengthDelimited)
    } else if n == 3 {
        Some(WireType::StartGroup)
    } else if n == 4 {
        Some(WireType::EndGroup)
    } else if n == 5 {
        Some(WireType::ThirtyTwoBit)
    } else {
        None
    }
}

/// Reads the key at the front of `b`: the tag, the wire type, and the key's length.
pub fn read_key(b: &[u8]) -> (r: Option<(u32, WireType, usize)>)
    ensures
        match parse_key(b@) {
            Some(key) => r == Some((key.tag as u32, key.wire_type, key.len as usize)) && 1
                <= key.tag <= MAX_TAG && 1 <= key.len <= b.len(),
            None => r is None,
        },
{
    match read_varint(b) {
        None => None,
        Some((v, n)) => {
            if v > u32::MAX as u64 {
                return None;
            }
            let tag = v / 8;
            if tag < 1 {
                return None;
            }
            match wire_type_from(v % 8) {
                Some(wire_type) => Some((tag as u32, wire_type, n)),
                None => None,
            }
        },
    }
}

/// The rest of `b` from `from` on.
fn tail(b: &[u8], from: usize) -> (r: &[u8])
    requires
        from <= b.len(),
    ensures
        r@ == b@.skip(from as int),
{
    let r = slice_subrange(b, from, b.len());
    proof {
        assert(r@ =~= b@.skip(from as int));
    }
    r
}

/// How many bytes the value of a field takes that is passed over unread.
fn skip_value_bytes(b: &[u8], wire_type: WireType, tag: u32, depth: u32) -> (r: Option<usize>)
    ensures
        match skip_value(b@, wire_type, tag as int, depth as nat) {
            Some(n) => r == Some(n as usize) && 0 <= n <= b.len(),
            None => r is None,
        },
    decreases depth, 1int,
{
    proof {
        lemma_skip_value_bounds(b@, wire_type, tag as int, depth as nat);
    }
    if depth == 0 {
        return None;
    }
    match wire_type {
        WireType::Varint => match read_varint(b) {
            Some((_, n)) => Some(n),
            None => None,
        },
        WireType::SixtyFourBit => if b.len() >= 8 {
            Some(8)
        } else {
            None
        },
        WireType::ThirtyTwoBit => if b.len() >= 4 {
            Some(4)
        } else {
            None
        },
        WireType::LengthDelimited => match read_varint(b) {
            Some((len, n)) => if len <= (b.len() - n) as u64 {
                Some(n + len as usize)
            } else {
                None
            },
            None => None,
        },
        WireType::StartGroup => skip_group_bytes(b, tag, depth),
        WireType::EndGroup => None,
    }
}

/// How many bytes the rest of a group takes, up to and with the key that ends it.
fn skip_group_bytes(b: &[u8], tag: u32, depth: u32) -> (r: Option<usize>)
    ensures
        match skip_group(b@, tag as int, depth as nat) {
            Some(n) => r == Some(n as usize) && 1 <= n <= b.len(),
            None => r is None,
        },
    decreases depth, 0int,
{
    proof {
        lemma_skip_group_bounds(b@, tag as int, depth as nat);
    }
    if depth == 0 {
        return None;
    }
    let mut pos: usize = 0;
    proof {
        assert(b@.skip(0) =~= b@);
    }
    loop
        invariant
            pos <= b.len(),
            depth >= 1,
            skip_group(b@, tag as int, depth as nat) == (match skip_group(
                b@.skip(pos as int),
                tag as int,
                depth as nat,
            ) {
                Some(m) => Some(pos + m),
                None => None,
            }),
        decreases b.len() - pos,
    {
        let rest = tail(b, pos);
        proof {
            lemma_skip_group_bounds(rest@, tag as int, depth as nat);
        }
        match read_key(rest) {
            None => {
                return None;
            },
            Some((inner_tag, inner_type, key_len)) => {
                if inner_type == WireType::EndGroup {
                    if inner_tag == tag {
                        return Some(pos + key_len);
                    } else {
                        return None;
                    }
                }
                let after_key = tail(rest, key_len);
                match skip_value_bytes(after_key, inner_type, inner_tag, depth - 1) {
                    None => {
                        return None;
                    },
                    Some(n) => {
                        proof {
                            assert(rest@.skip(key_len + n) =~= b@.skip(pos + key_len + n));
                        }
                        pos = pos + key_len + n;
                    },
                }
            },
        }
    }
}

/// What a field holds.
#[derive(Debug, PartialEq, Eq)]
pub enum RawValue {
    /// a base-128 integer
    Varint(u64),
    /// a run of bytes: a string or a nested message
    Bytes(Vec<u8>),
    /// a fixed-width number or a group
    Other,
}

/// One field of a message as it was read from the buffer.
#[derive(Debug, PartialEq, Eq)]
pub struct RawField {
    pub tag: u32,
    pub value: RawValue,
}

impl View for RawField {
    type V = Field;

    open spec fn view(&self) -> Field {
        Field {
            tag: self.tag as int,
            value: match self.value {
                RawValue::Varint(v) => FieldValue::Varint(v),
                RawValue::Bytes(bytes) => FieldValue::Bytes(bytes@),
                RawValue::Other => FieldValue::Other,
            },
        }
    }
}

/// The views of a sequence of fields, in the same order.
pub open spec fn fields_view(fields: Seq<RawField>) -> Seq<Field> {
    fields.map_values(|f: RawField| f@)
}

/// Reads the field at the front of `b`: the field and how many bytes it takes.
pub fn read_field(b: &[u8], depth: u32) -> (r: Option<(RawField, usize)>)
    ensures
        match parse_field(b@, depth as nat) {
            Some((field, n)) => r is Some && r->Some_0.0@ == field && r->Some_0.1 == n && 1 <= n
                <= b.len(),
            None => r is None,
        },
{
    proof {
        lemma_parse_field_bounds(b@, depth as nat);
    }
    match read_key(b) {
        None => None,
        Some((tag, wire_type, key_len)) => {
            let rest = tail(b, key_len);
            match wire_type {
                WireType::Varint => match read_varint(rest) {
                    Some((v, n)) => Some((RawField { tag, value: RawValue::Varint(v) }, key_len + n)),
                    None => None,
                },
                WireType::LengthDelimited => match read_varint(rest) {
                    Some((len, n)) => {
                        if len <= (rest.len() - n) as u64 {
                            let end = n + len as usize;
                            let bytes = vstd::slice::slice_to_vec(slice_subrange(rest, n, end));
                            Some((RawField { tag, value: RawValue::Bytes(bytes) }, key_len + end))
                        } else {
                            None
                        }
                    },
                    None => None,
                },
                _ => match skip_value_bytes(rest, wire_type, tag, depth) {
                    Some(n) => Some((RawField { tag, value: RawValue::Other }, key_len + n)),
                    None => None,
                },
            }
        },
    }
}

/// Splits `b` into its fields, first to last.
pub fn read_fields(b: &[u8], depth: u32) -> (r: Option<Vec<RawField>>)
    ensures
        match parse_fields(b@, depth as nat) {
            Some(fields) => r is Some && fields_view(r->Some_0@) == fields,
            None => r is None,
        },
{
    let mut out: Vec<RawField> = Vec::new();
    let mut pos: usize = 0;
    proof {
        assert(b@.skip(0) =~= b@);
        assert(fields_view(out@) =~= Seq::<Field>::empty());
        match parse_fields(b@, depth as nat) {
            Some(fields) => {
                assert(fields_view(out@) + fields =~= fields);
            },
            None => {},
        }
    }
    while pos < b.len()
        invariant
            pos <= b.len(),
            parse_fields(b@, depth as nat) == (match parse_fields(
                b@.skip(pos as int),
                depth as nat,
            ) {
                Some(fields) => Some(fields_view(out@) + fields),
                None => None,
            }),
        decreases b.len() - pos,
    {
        let rest = tail(b, pos);
        let ghost before = fields_view(out@);
        match read_field(rest, depth) {
            None => {
                return None;
            },
            Some((field, n)) => {
                proof {
                    assert(rest@.skip(n as int) =~= b@.skip(pos + n));
                    match parse_fields(b@.skip(pos + n), depth as nat) {
                        Some(fields) => {
                            assert(before + (seq![field@] + fields) =~= before.push(field@)
                                + fields);
                        },
                        None => {},
                    }
                }
                out.push(field);
                proof {
                    assert(fields_view(out@) =~= before.push(field@));
                }
                pos = pos + n;
            },
        }
    }
    proof {
        assert(fields_view(out@) + Seq::<Field>::empty() =~= fields_view(out@));
    }
    Some(out)
}

/// Appends the shortest base-128 form of `v`.
pub fn write_varint(out: &mut Vec<u8>, v: u64)
    ensures
        final(out)@ == old(out)@ + encode_varint(v as int),
{
    let ghost start = out@;
    let mut x = v;
    while x >= 128
        invariant
            start + encode_varint(v as int) == out@ + encode_varint(x as int),
        decreases x,
    {
        let ghost before = out@;
        out.push((x % 128 + 128) as u8);
        proof {
            assert(before + encode_varint(x as int) =~= before.push((x % 128 + 128) as u8)
                + encode_varint((x / 128) as int));
        }
        x = x / 128;
    }
    let ghost before = out@;
    out.push(x as u8);
    proof {
        assert(before + encode_varint(x as int) =~= before.push(x as u8));
    }
}

/// The number of a wire type.
fn wire_type_code(t: WireType) -> (r: u64)
    ensures
        r == wire_type_number(t),
{
    match t {
        WireType::Varint => 0,
        WireType::SixtyFourBit => 1,
        WireType::LengthDelimited => 2,
        WireType::StartGroup => 3,
        WireType::EndGroup => 4,
        WireType::ThirtyTwoBit => 5,
    }
}

/// Appends the key of a field with this tag and wire type.
pub fn write_key(out: &mut Vec<u8>, tag: u32, wire_type: WireType)
    requires
        1 <= tag <= MAX_TAG,
    ensures
        final(out)@ == old(out)@ + encode_key(tag as int, wire_type),
{
    write_varint(out, (tag as u64) * 8 + wire_type_code(wire_type));
}

/// Appends a field that holds the integer `v`.
pub fn write_varint_field(out: &mut Vec<u8>, tag: u32, v: u64)
    requires
        1 <= tag <= MAX_TAG,
    ensures
        final(out)@ == old(out)@ + encode_field(
            Field { tag: tag as int, value: FieldValue::Varint(v) },
        ),
{
    let ghost start = out@;
    write_key(out, tag, WireType::Varint);
    write_varint(out, v);
    proof {
        assert(out@ =~= start + (encode_key(tag as int, WireType::Varint) + encode_varint(
            v as int,
        )));
    }
}

/// Appends a field that holds the bytes `bytes`.
pub fn write_bytes_field(out: &mut Vec<u8>, tag: u32, bytes: &[u8])
    requires
        1 <= tag <= MAX_TAG,
    ensures
        final(out)@ == old(out)@ + encode_field(
            Field { tag: tag as int, value: FieldValue::Bytes(bytes@) },
        ),
{
    let ghost start = out@;
    write_key(out, tag, WireType::LengthDelimited);
    write_varint(out, bytes.len() as u64);
    out.extend_from_slice(bytes);
    proof {
        assert(out@ =~= start + (encode_key(tag as int, WireType::LengthDelimited)
            + encode_varint(bytes@.len() as int) + bytes@));
    }
}

} // verus!
