//! How the three kinds of message are laid out on the wire, and how a buffer
//! is read as a message of a given kind.
//!
//! An envelope has five fields: the identifier (1, text), the payload (2, a
//! nested message), the nonce (3, integer), the sender (4, text) and the
//! signature (5, text). The payloads number their fields from 1 in the order
//! of their declaration. A field that holds the default of its type, the empty
//! text or zero, is left out when a message is written; the payload is always
//! written. A reader takes the last value where a field occurs twice, passes
//! over tags it does not know, and fails on a known tag with the wrong kind of
//! value or with text that is not UTF-8.
use vstd::prelude::*;
use vstd::utf8::{decode_utf8, encode_utf8, valid_utf8};
use crate::message_types::{
    GraphcastMessage,
    GraphcastMessageView,
    Payload,
    PayloadView,
    PublicPoiMessage,
    PublicPoiView,
    SimpleMessage,
    SimpleView,
    UpgradeIntentMessage,
    UpgradeIntentView,
};
use crate::wire::{
    fields_view,
    parse_fields,
    read_fields,
    Field,
    FieldValue,
    RECURSION_LIMIT,
    RawField,
    RawValue,
};

verus! {

/// The kind of payload that an envelope is read for.
#[derive(Clone, Copy, Debug, PartialEq, Eq, Structural)]
pub enum PayloadKind {
    PublicPoi,
    UpgradeIntent,
    Simple,
}

/// Why a buffer is not a message of the kind it was read for.
#[derive(Clone, Copy, Debug, PartialEq, Eq, Structural)]
pub enum DecodeError {
    /// The bytes do not follow the layout of that kind.
    Malformed,
    /// The payload disagrees with the envelope on a field they share.
    InvalidFields,
    /// The bytes are a message of none of the kinds.
    Unsupported,
}

impl DecodeError {
    pub open spec fn spec_type_string(self) -> Seq<char> {
        match self {
            DecodeError::Malformed => "Malformed"@,
            DecodeError::InvalidFields => "InvalidFields"@,
            DecodeError::Unsupported => "Unsupported"@,
        }
    }

    /// The name under which errors of this kind are counted.
    pub fn type_string(&self) -> (r: &'static str)
        ensures
            r@ == self.spec_type_string(),
    {
        match self {
            DecodeError::Malformed => "Malformed",
            DecodeError::InvalidFields => "InvalidFields",
            DecodeError::Unsupported => "Unsupported",
        }
    }
}

/// The text that `bytes` spell in UTF-8, if they spell one.
pub open spec fn text_of(bytes: Seq<u8>) -> Option<Seq<char>> {
    if valid_utf8(bytes) {
        Some(decode_utf8(bytes))
    } else {
        None
    }
}

/// The value read as text.
pub open spec fn as_text(value: FieldValue) -> Option<Seq<char>> {
    match value {
        FieldValue::Bytes(bytes) => text_of(bytes),
        _ => None,
    }
}

/// The value read as an unsigned integer.
pub open spec fn as_number(value: FieldValue) -> Option<u64> {
    match value {
        FieldValue::Varint(v) => Some(v),
        _ => None,
    }
}

/// A public proof of indexing with every field at its default.
pub open spec fn empty_public_poi() -> PublicPoiView {
    PublicPoiView {
        identifier: Seq::empty(),
        content: Seq::empty(),
        nonce: 0,
        network: Seq::empty(),
        block_number: 0,
        block_hash: Seq::empty(),
        graph_account: Seq::empty(),
    }
}

/// An upgrade intent with every field at its default.
pub open spec fn empty_upgrade_intent() -> UpgradeIntentView {
    UpgradeIntentView {
        deployment: Seq::empty(),
        subgraph_id: Seq::empty(),
        new_hash: Seq::empty(),
        nonce: 0,
        graph_account: Seq::empty(),
    }
}

/// A simple message with every field at its default.
pub open spec fn empty_simple() -> SimpleView {
    SimpleView { identifier: Seq::empty(), content: Seq::empty() }
}

/// The payload of kind `kind` with every field at its default.
pub open spec fn empty_payload(kind: PayloadKind) -> PayloadView {
    match kind {
        PayloadKind::PublicPoi => PayloadView::PublicPoi(empty_public_poi()),
        PayloadKind::UpgradeIntent => PayloadView::UpgradeIntent(empty_upgrade_intent()),
        PayloadKind::Simple => PayloadView::Simple(empty_simple()),
    }
}

/// The envelope for a payload of kind `kind` with every field at its default.
pub open spec fn empty_envelope(kind: PayloadKind) -> GraphcastMessageView {
    GraphcastMessageView {
        identifier: Seq::empty(),
        payload: empty_payload(kind),
        nonce: 0,
        graph_account: Seq::empty(),
        signature: Seq::empty(),
    }
}

/// `m` after the field `f` was read into it.
pub open spec fn merge_public_poi(m: PublicPoiView, f: Field) -> Option<PublicPoiView> {
    if f.tag == 1 {
        match as_text(f.value) {
            Some(t) => Some(PublicPoiView { identifier: t, ..m }),
            None => None,
        }
    } else if f.tag == 2 {
        match as_text(f.value) {
            Some(t) => Some(PublicPoiView { content: t, ..m }),
            None => None,
        }
    } else if f.tag == 3 {
        match as_number(f.value) {
            Some(v) => Some(PublicPoiView { nonce: v, ..m }),
            None => None,
        }
    } else if f.tag == 4 {
        match as_text(f.value) {
            Some(t) => Some(PublicPoiView { network: t, ..m }),
            None => None,
        }
    } else if f.tag == 5 {
        match as_number(f.value) {
            Some(v) => Some(PublicPoiView { block_number: v, ..m }),
            None => None,
        }
    } else if f.tag == 6 {
        match as_text(f.value) {
            Some(t) => Some(PublicPoiView { block_hash: t, ..m }),
            None => None,
        }
    } else if f.tag == 7 {
        match as_text(f.value) {
            Some(t) => Some(PublicPoiView { graph_account: t, ..m }),
            None => None,
        }
    } else {
        Some(m)
    }
}

/// `m` after the field `f` was read into it.
pub open spec fn merge_upgrade_intent(m: UpgradeIntentView, f: Field) -> Option<UpgradeIntentView> {
    if f.tag == 1 {
        match as_text(f.value) {
            Some(t) => Some(UpgradeIntentView { deployment: t, ..m }),
            None => None,
        }
    } else if f.tag == 2 {
        match as_text(f.value) {
            Some(t) => Some(UpgradeIntentView { subgraph_id: t, ..m }),
            None => None,
        }
    } else if f.tag == 3 {
        match as_text(f.value) {
            Some(t) => Some(UpgradeIntentView { new_hash: t, ..m }),
            None => None,
        }
    } else if f.tag == 4 {
        match as_number(f.value) {
            Some(v) => Some(UpgradeIntentView { nonce: v, ..m }),
            None => None,
        }
    } else if f.tag == 5 {
        match as_text(f.value) {
            Some(t) => Some(UpgradeIntentView { graph_account: t, ..m }),
            None => None,
        }
    } else {
        Some(m)
    }
}

/// `m` after the field `f` was read into it.
pub open spec fn merge_simple(m: SimpleView, f: Field) -> Option<SimpleView> {
    if f.tag == 1 {
        match as_text(f.value) {
            Some(t) => Some(SimpleView { identifier: t, ..m }),
            None => None,
        }
    } else if f.tag == 2 {
        match as_text(f.value) {
            Some(t) => Some(SimpleView { content: t, ..m }),
            None => None,
        }
    } else {
        Some(m)
    }
}

/// `p` after the field `f` was read into it.
pub open spec fn merge_payload(p: PayloadView, f: Field) -> Option<PayloadView> {
    match p {
        PayloadView::PublicPoi(m) => match merge_public_poi(m, f) {
            Some(m) => Some(PayloadView::PublicPoi(m)),
            None => None,
        },
        PayloadView::UpgradeIntent(m) => match merge_upgrade_intent(m, f) {
            Some(m) => Some(PayloadView::UpgradeIntent(m)),
            None => None,
        },
        PayloadView::Simple(m) => match merge_simple(m, f) {
            Some(m) => Some(PayloadView::Simple(m)),
            None => None,
        },
    }
}

/// `p` after the fields `fields` were read into it, first to last.
pub open spec fn merge_payload_fields(p: PayloadView, fields: Seq<Field>) -> Option<PayloadView>
    decreases fields.len(),
{
    if fields.len() == 0 {
        Some(p)
    } else {
        match merge_payload(p, fields[0]) {
            Some(next) => merge_payload_fields(next, fields.skip(1)),
            None => None,
        }
    }
}

/// The nesting that is left for the fields of a payload.
pub open spec fn payload_depth() -> nat {
    (RECURSION_LIMIT - 1) as nat
}

/// `e` after the field `f` was read into it. The bytes of a payload field are
/// split into fields of their own and read into the payload that `e` holds.
pub open spec fn merge_envelope(e: GraphcastMessageView, f: Field) -> Option<GraphcastMessageView> {
    if f.tag == 1 {
        match as_text(f.value) {
            Some(t) => Some(GraphcastMessageView { identifier: t, ..e }),
            None => None,
        }
    } else if f.tag == 2 {
        match f.value {
            FieldValue::Bytes(bytes) => match parse_fields(bytes, payload_depth()) {
                Some(fields) => match merge_payload_fields(e.payload, fields) {
                    Some(p) => Some(GraphcastMessageView { payload: p, ..e }),
                    None => None,
                },
                None => None,
            },
            _ => None,
        }
    } else if f.tag == 3 {
        match as_number(f.value) {
            Some(v) => Some(GraphcastMessageView { nonce: v, ..e }),
            None => None,
        }
    } else if f.tag == 4 {
        match as_text(f.value) {
            Some(t) => Some(GraphcastMessageView { graph_account: t, ..e }),
            None => None,
        }
    } else if f.tag == 5 {
        match as_text(f.value) {
            Some(t) => Some(GraphcastMessageView { signature: t, ..e }),
            None => None,
        }
    } else {
        Some(e)
    }
}

/// `e` after the fields `fields` were read into it, first to last.
pub open spec fn merge_envelope_fields(e: GraphcastMessageView, fields: Seq<Field>) -> Option<
    GraphcastMessageView,
>
    decreases fields.len(),
{
    if fields.len() == 0 {
        Some(e)
    } else {
        match merge_envelope(e, fields[0]) {
            Some(next) => merge_envelope_fields(next, fields.skip(1)),
            None => None,
        }
    }
}

/// The envelope that `bytes` hold when its payload is read as `kind`, without
/// the check of payload against envelope.
pub open spec fn parse_envelope(bytes: Seq<u8>, kind: PayloadKind) -> Option<GraphcastMessageView> {
    match parse_fields(bytes, RECURSION_LIMIT as nat) {
        Some(fields) => merge_envelope_fields(empty_envelope(kind), fields),
        None => None,
    }
}

/// The message of kind `kind` that `bytes` hold: the envelope as it is laid
/// out, accepted only where its payload agrees with it.
pub open spec fn decode_as(bytes: Seq<u8>, kind: PayloadKind) -> Result<
    GraphcastMessageView,
    DecodeError,
> {
    match parse_envelope(bytes, kind) {
        Some(e) => if e.consistent() {
            Ok(e)
        } else {
            Err(DecodeError::InvalidFields)
        },
        None => Err(DecodeError::Malformed),
    }
}

/// The message that `bytes` hold: the first of public proof of indexing,
/// upgrade intent and simple message that they can be read as.
pub open spec fn decode_any(bytes: Seq<u8>) -> Result<GraphcastMessageView, DecodeError> {
    if decode_as(bytes, PayloadKind::PublicPoi) is Ok {
        decode_as(bytes, PayloadKind::PublicPoi)
    } else if decode_as(bytes, PayloadKind::UpgradeIntent) is Ok {
        decode_as(bytes, PayloadKind::UpgradeIntent)
    } else if decode_as(bytes, PayloadKind::Simple) is Ok {
        decode_as(bytes, PayloadKind::Simple)
    } else {
        Err(DecodeError::Unsupported)
    }
}

/// Calls `core::str::from_utf8`: the bytes as a string slice where they are
/// valid UTF-8, and `None` where they are not. The slice, where there is one,
/// consists of exactly those bytes.
#[verifier::external_body]
fn str_from_utf8(bytes: &[u8]) -> (r: Option<&str>)
    ensures
        r is Some <==> valid_utf8(bytes@),
        r matches Some(s) ==> encode_utf8(s@) == bytes@,
{
    core::str::from_utf8(bytes).ok()
}

/// The value read as text.
fn read_text(value: &RawValue) -> (r: Option<String>)
    ensures
        match as_text(raw_value_view(*value)) {
            Some(t) => r is Some && r->Some_0@ == t,
            None => r is None,
        },
{
    match value {
        RawValue::Bytes(bytes) => match str_from_utf8(bytes.as_slice()) {
            Some(s) => {
                proof {
                    vstd::utf8::encode_utf8_decode_utf8(s@);
                }
                Some(s.to_owned())
            },
            None => None,
        },
        _ => None,
    }
}

/// The value read as an unsigned integer.
fn read_number(value: &RawValue) -> (r: Option<u64>)
    ensures
        r == as_number(raw_value_view(*value)),
{
    match value {
        RawValue::Varint(v) => Some(*v),
        _ => None,
    }
}

/// The mathematical value of what a field holds.
pub open spec fn raw_value_view(value: RawValue) -> FieldValue {
    match value {
        RawValue::Varint(v) => FieldValue::Varint(v),
        RawValue::Bytes(bytes) => FieldValue::Bytes(bytes@),
        RawValue::Other => FieldValue::Other,
    }
}

/// Reads one field into a public proof of indexing.
fn read_into_public_poi(m: PublicPoiMessage, f: &RawField) -> (r: Option<PublicPoiMessage>)
    ensures
        match merge_public_poi(m@, f@) {
            Some(next) => r is Some && r->Some_0@ == next,
            None => r is None,
        },
{
    if f.tag == 1 {
        match read_text(&f.value) {
            Some(t) => Some(PublicPoiMessage { identifier: t, ..m }),
            None => None,
        }
    } else if f.tag == 2 {
        match read_text(&f.value) {
            Some(t) => Some(PublicPoiMessage { content: t, ..m }),
            None => None,
        }
    } else if f.tag == 3 {
        match read_number(&f.value) {
            Some(v) => Some(PublicPoiMessage { nonce: v, ..m }),
            None => None,
        }
    } else if f.tag == 4 {
        match read_text(&f.value) {
            Some(t) => Some(PublicPoiMessage { network: t, ..m }),
            None => None,
        }
    } else if f.tag == 5 {
        match read_number(&f.value) {
            Some(v) => Some(PublicPoiMessage { block_number: v, ..m }),
            None => None,
        }
    } else if f.tag == 6 {
        match read_text(&f.value) {
            Some(t) => Some(PublicPoiMessage { block_hash: t, ..m }),
            None => None,
        }
    } else if f.tag == 7 {
        match read_text(&f.value) {
            Some(t) => Some(PublicPoiMessage { graph_account: t, ..m }),
            None => None,
        }
    } else {
        Some(m)
    }
}

/// Reads one field into an upgrade intent.
fn read_into_upgrade_intent(m: UpgradeIntentMessage, f: &RawField) -> (r: Option<
    UpgradeIntentMessage,
>)
    ensures
        match merge_upgrade_intent(m@, f@) {
            Some(next) => r is Some && r->Some_0@ == next,
            None => r is None,
        },
{
    if f.tag == 1 {
        match read_text(&f.value) {
            Some(t) => Some(UpgradeIntentMessage { deployment: t, ..m }),
            None => None,
        }
    } else if f.tag == 2 {
        match read_text(&f.value) {
            Some(t) => Some(UpgradeIntentMessage { subgraph_id: t, ..m }),
            None => None,
        }
    } else if f.tag == 3 {
        match read_text(&f.value) {
            Some(t) => Some(UpgradeIntentMessage { new_hash: t, ..m }),
            None => None,
        }
    } else if f.tag == 4 {
        match read_number(&f.value) {
            Some(v) => Some(UpgradeIntentMessage { nonce: v, ..m }),
            None => None,
        }
    } else if f.tag == 5 {
        match read_text(&f.value) {
            Some(t) => Some(UpgradeIntentMessage { graph_account: t, ..m }),
            None => None,
        }
    } else {
        Some(m)
    }
}

/// Reads one field into a simple message.
fn read_into_simple(m: SimpleMessage, f: &RawField) -> (r: Option<SimpleMessage>)
    ensures
        match merge_simple(m@, f@) {
            Some(next) => r is Some && r->Some_0@ == next,
            None => r is None,
        },
{
    if f.tag == 1 {
        match read_text(&f.value) {
            Some(t) => Some(SimpleMessage { identifier: t, ..m }),
            None => None,
        }
    } else if f.tag == 2 {
        match read_text(&f.value) {
            Some(t) => Some(SimpleMessage { content: t, ..m }),
            None => None,
        }
    } else {
        Some(m)
    }
}

/// Reads one field into a payload of whichever kind.
fn read_into_payload(p: Payload, f: &RawField) -> (r: Option<Payload>)
    ensures
        match merge_payload(p@, f@) {
            Some(next) => r is Some && r->Some_0@ == next,
            None => r is None,
        },
{
    match p {
        Payload::PublicPoi(m) => match read_into_public_poi(m, f) {
            Some(m) => Some(Payload::PublicPoi(m)),
            None => None,
        },
        Payload::UpgradeIntent(m) => match read_into_upgrade_intent(m, f) {
            Some(m) => Some(Payload::UpgradeIntent(m)),
            None => None,
        },
        Payload::Simple(m) => match read_into_simple(m, f) {
            Some(m) => Some(Payload::Simple(m)),
            None => None,
        },
    }
}

/// Reads the fields into a payload, first to last.
fn read_fields_into_payload(p: Payload, fields: &Vec<RawField>) -> (r: Option<Payload>)
    ensures
        match merge_payload_fields(p@, fields_view(fields@)) {
            Some(out) => r is Some && r->Some_0@ == out,
            None => r is None,
        },
{
    let ghost all = fields_view(fields@);
    let ghost start = p@;
    let mut acc = p;
    let mut i: usize = 0;
    proof {
        assert(all.skip(0) =~= all);
    }
    while i < fields.len()
        invariant
            i <= fields.len(),
            all == fields_view(fields@),
            start == p@,
            merge_payload_fields(start, all) == merge_payload_fields(acc@, all.skip(i as int)),
        decreases fields.len() - i,
    {
        proof {
            assert(all.skip(i as int)[0] == fields@[i as int]@);
            assert(all.skip(i as int).skip(1) =~= all.skip(i + 1));
        }
        let ghost held = acc@;
        match read_into_payload(acc, &fields[i]) {
            Some(next) => {
                acc = next;
            },
            None => {
                proof {
                    assert(merge_payload_fields(held, all.skip(i as int)) is None);
                }
                return None;
            },
        }
        i += 1;
    }
    Some(acc)
}

/// Reads one field into an envelope.
fn read_into_envelope(e: GraphcastMessage, f: &RawField) -> (r: Option<GraphcastMessage>)
    ensures
        match merge_envelope(e@, f@) {
            Some(next) => r is Some && r->Some_0@ == next,
            None => r is None,
        },
{
    if f.tag == 1 {
        match read_text(&f.value) {
            Some(t) => Some(GraphcastMessage { identifier: t, ..e }),
            None => None,
        }
    } else if f.tag == 2 {
        match &f.value {
            RawValue::Bytes(bytes) => match read_fields(bytes.as_slice(), RECURSION_LIMIT - 1) {
                Some(fields) => {
                    let GraphcastMessage { identifier, payload, nonce, graph_account, signature } =
                        e;
                    match read_fields_into_payload(payload, &fields) {
                        Some(p) => Some(
                            GraphcastMessage {
                                identifier,
                                payload: p,
                                nonce,
                                graph_account,
                                signature,
                            },
                        ),
                        None => None,
                    }
                },
                None => None,
            },
            _ => None,
        }
    } else if f.tag == 3 {
        match read_number(&f.value) {
            Some(v) => Some(GraphcastMessage { nonce: v, ..e }),
            None => None,
        }
    } else if f.tag == 4 {
        match read_text(&f.value) {
            Some(t) => Some(GraphcastMessage { graph_account: t, ..e }),
            None => None,
        }
    } else if f.tag == 5 {
        match read_text(&f.value) {
            Some(t) => Some(GraphcastMessage { signature: t, ..e }),
            None => None,
        }
    } else {
        Some(e)
    }
}

/// The envelope for a payload of kind `kind` with every field at its default.
fn new_envelope(kind: PayloadKind) -> (e: GraphcastMessage)
    ensures
        e@ == empty_envelope(kind),
{
    let payload = match kind {
        PayloadKind::PublicPoi => Payload::PublicPoi(
            PublicPoiMessage {
                identifier: String::new(),
                content: String::new(),
                nonce: 0,
                network: String::new(),
                block_number: 0,
                block_hash: String::new(),
                graph_account: String::new(),
            },
        ),
        PayloadKind::UpgradeIntent => Payload::UpgradeIntent(
            UpgradeIntentMessage {
                deployment: String::new(),
                subgraph_id: String::new(),
                new_hash: String::new(),
                nonce: 0,
                graph_account: String::new(),
            },
        ),
        PayloadKind::Simple => Payload::Simple(
            SimpleMessage { identifier: String::new(), content: String::new() },
        ),
    };
    GraphcastMessage {
        identifier: String::new(),
        payload,
        nonce: 0,
        graph_account: String::new(),
        signature: String::new(),
    }
}

/// Reads `bytes` as an envelope around a payload of kind `kind`, and accepts
/// it only where the payload agrees with the envelope on the fields they share.
pub fn decode(bytes: &[u8], kind: PayloadKind) -> (r: Result<GraphcastMessage, DecodeError>)
    ensures
        match decode_as(bytes@, kind) {
            Ok(e) => r is Ok && r->Ok_0@ == e,
            Err(error) => r == Err::<GraphcastMessage, DecodeError>(error),
        },
{
    let fields = match read_fields(bytes, RECURSION_LIMIT) {
        Some(fields) => fields,
        None => {
            return Err(DecodeError::Malformed);
        },
    };
    let ghost all = fields_view(fields@);
    let mut acc = new_envelope(kind);
    let mut i: usize = 0;
    proof {
        assert(all.skip(0) =~= all);
    }
    while i < fields.len()
        invariant
            i <= fields.len(),
            all == fields_view(fields@),
            parse_fields(bytes@, RECURSION_LIMIT as nat) == Some(all),
            merge_envelope_fields(empty_envelope(kind), all) == merge_envelope_fields(
                acc@,
                all.skip(i as int),
            ),
        decreases fields.len() - i,
    {
        proof {
            assert(all.skip(i as int)[0] == fields@[i as int]@);
            assert(all.skip(i as int).skip(1) =~= all.skip(i + 1));
        }
        let ghost held = acc@;
        match read_into_envelope(acc, &fields[i]) {
            Some(next) => {
                acc = next;
            },
            None => {
                proof {
                    assert(merge_envelope_fields(held, all.skip(i as int)) is None);
                }
                return Err(DecodeError::Malformed);
            },
        }
        i += 1;
    }
    match acc.valid_payload() {
        Ok(()) => Ok(acc),
        Err(_) => Err(DecodeError::InvalidFields),
    }
}

/// Reads `bytes` as a message of the first kind that fits: public proof of
/// indexing, then upgrade intent, then simple message.
pub fn decode_message(bytes: &[u8]) -> (r: Result<GraphcastMessage, DecodeError>)
    ensures
        match decode_any(bytes@) {
            Ok(e) => r is Ok && r->Ok_0@ == e,
            Err(error) => r == Err::<GraphcastMessage, DecodeError>(error),
        },
{
    if let Ok(message) = decode(bytes, PayloadKind::PublicPoi) {
        Ok(message)
    } else if let Ok(message) = decode(bytes, PayloadKind::UpgradeIntent) {
        Ok(message)
    } else if let Ok(message) = decode(bytes, PayloadKind::Simple) {
        Ok(message)
    } else {
        Err(DecodeError::Unsupported)
    }
}

} // verus!
