//! The laws that tie writing to reading: what was written as one kind is
//! read back as that kind.
use vstd::prelude::*;
use crate::codec::{
    as_number,
    as_text,
    decode_any,
    decode_as,
    empty_envelope,
    empty_payload,
    empty_public_poi,
    empty_simple,
    empty_upgrade_intent,
    merge_envelope,
    merge_envelope_fields,
    merge_payload,
    merge_payload_fields,
    parse_envelope,
    payload_depth,
    text_of,
    DecodeError,
    PayloadKind,
};
use crate::encoding::{
    encode_envelope,
    encode_payload,
    envelope_fields,
    kind_of,
    message_fits,
    number_field,
    payload_field,
    payload_fields,
    payload_fits,
    text_field,
};
use crate::message_types::{
    GraphcastMessageView,
    PayloadView,
    PublicPoiView,
    SimpleView,
    UpgradeIntentView,
};
use crate::wire::{encodable, lemma_fields_roundtrip, Field, FieldValue, RECURSION_LIMIT};
use vstd::utf8::{encode_utf8, encode_utf8_decode_utf8, encode_utf8_valid_utf8};

verus! {

/// Text that was written is read back as it was.
pub proof fn lemma_text_roundtrip(text: Seq<char>)
    ensures
        text_of(encode_utf8(text)) == Some(text),
        as_text(FieldValue::Bytes(encode_utf8(text))) == Some(text),
{
    encode_utf8_valid_utf8(text);
    encode_utf8_decode_utf8(text);
}

/// Every field of the run can be written.
pub open spec fn all_encodable(fields: Seq<Field>) -> bool {
    forall|i: int| 0 <= i < fields.len() ==> encodable(#[trigger] fields[i])
}

/// Two runs of fields that can be written make a run that can be written.
pub proof fn lemma_all_encodable_concat(a: Seq<Field>, b: Seq<Field>)
    requires
        all_encodable(a),
        all_encodable(b),
    ensures
        all_encodable(a + b),
{
    assert forall|i: int| 0 <= i < (a + b).len() implies encodable(#[trigger] (a + b)[i]) by {
        if i < a.len() {
            assert((a + b)[i] == a[i]);
        } else {
            assert((a + b)[i] == b[i - a.len()]);
        }
    }
}

/// The fields of a payload whose texts fit can be written.
pub proof fn lemma_payload_fields_encodable(p: PayloadView)
    requires
        payload_fits(p),
    ensures
        all_encodable(payload_fields(p)),
{
    match p {
        PayloadView::PublicPoi(m) => {
            let f1 = text_field(1, m.identifier);
            let f2 = f1 + text_field(2, m.content);
            let f3 = f2 + number_field(3, m.nonce);
            let f4 = f3 + text_field(4, m.network);
            let f5 = f4 + number_field(5, m.block_number);
            let f6 = f5 + text_field(6, m.block_hash);
            lemma_all_encodable_concat(f1, text_field(2, m.content));
            lemma_all_encodable_concat(f2, number_field(3, m.nonce));
            lemma_all_encodable_concat(f3, text_field(4, m.network));
            lemma_all_encodable_concat(f4, number_field(5, m.block_number));
            lemma_all_encodable_concat(f5, text_field(6, m.block_hash));
            lemma_all_encodable_concat(f6, text_field(7, m.graph_account));
        },
        PayloadView::UpgradeIntent(m) => {
            let f1 = text_field(1, m.deployment);
            let f2 = f1 + text_field(2, m.subgraph_id);
            let f3 = f2 + text_field(3, m.new_hash);
            let f4 = f3 + number_field(4, m.nonce);
            lemma_all_encodable_concat(f1, text_field(2, m.subgraph_id));
            lemma_all_encodable_concat(f2, text_field(3, m.new_hash));
            lemma_all_encodable_concat(f3, number_field(4, m.nonce));
            lemma_all_encodable_concat(f4, text_field(5, m.graph_account));
        },
        PayloadView::Simple(m) => {
            lemma_all_encodable_concat(text_field(1, m.identifier), text_field(2, m.content));
        },
    }
}

/// The fields of a message that fits can be written.
pub proof fn lemma_envelope_fields_encodable(e: GraphcastMessageView)
    requires
        message_fits(e),
    ensures
        all_encodable(envelope_fields(e)),
{
    let f1 = text_field(1, e.identifier);
    let f2 = f1 + payload_field(e.payload);
    let f3 = f2 + number_field(3, e.nonce);
    let f4 = f3 + text_field(4, e.graph_account);
    lemma_all_encodable_concat(f1, payload_field(e.payload));
    lemma_all_encodable_concat(f2, number_field(3, e.nonce));
    lemma_all_encodable_concat(f3, text_field(4, e.graph_account));
    lemma_all_encodable_concat(f4, text_field(5, e.signature));
}

/// Reading two runs of fields into a payload, one after the other, is reading
/// their concatenation.
pub proof fn lemma_merge_payload_concat(p: PayloadView, a: Seq<Field>, b: Seq<Field>)
    ensures
        merge_payload_fields(p, a + b) == (match merge_payload_fields(p, a) {
            Some(mid) => merge_payload_fields(mid, b),
            None => None,
        }),
    decreases a.len(),
{
    if a.len() == 0 {
        assert(a + b =~= b);
    } else {
        assert((a + b)[0] == a[0]);
        assert((a + b).skip(1) =~= a.skip(1) + b);
        match merge_payload(p, a[0]) {
            Some(next) => {
                lemma_merge_payload_concat(next, a.skip(1), b);
            },
            None => {},
        }
    }
}

/// Reading two runs of fields into an envelope, one after the other, is
/// reading their concatenation.
pub proof fn lemma_merge_envelope_concat(e: GraphcastMessageView, a: Seq<Field>, b: Seq<Field>)
    ensures
        merge_envelope_fields(e, a + b) == (match merge_envelope_fields(e, a) {
            Some(mid) => merge_envelope_fields(mid, b),
            None => None,
        }),
    decreases a.len(),
{
    if a.len() == 0 {
        assert(a + b =~= b);
    } else {
        assert((a + b)[0] == a[0]);
        assert((a + b).skip(1) =~= a.skip(1) + b);
        match merge_envelope(e, a[0]) {
            Some(next) => {
                lemma_merge_envelope_concat(next, a.skip(1), b);
            },
            None => {},
        }
    }
}

/// Reading a run of one field is reading that field.
pub proof fn lemma_merge_payload_single(p: PayloadView, f: Field)
    ensures
        merge_payload_fields(p, seq![f]) == merge_payload(p, f),
{
    let one = seq![f];
    assert(one[0] == f);
    assert(one.skip(1) =~= Seq::<Field>::empty());
    match merge_payload(p, f) {
        Some(next) => {
            assert(merge_payload_fields(next, one.skip(1)) == Some(next));
        },
        None => {},
    }
}

/// Reading a run of one field is reading that field.
pub proof fn lemma_merge_envelope_single(e: GraphcastMessageView, f: Field)
    ensures
        merge_envelope_fields(e, seq![f]) == merge_envelope(e, f),
{
    let one = seq![f];
    assert(one[0] == f);
    assert(one.skip(1) =~= Seq::<Field>::empty());
    match merge_envelope(e, f) {
        Some(next) => {
            assert(merge_envelope_fields(next, one.skip(1)) == Some(next));
        },
        None => {},
    }
}

/// What reading the optional field of a text does to a payload: nothing where
/// the text is empty, else what reading the one field does.
pub proof fn lemma_merge_payload_text(p: PayloadView, tag: int, text: Seq<char>)
    ensures
        merge_payload_fields(p, text_field(tag, text)) == (if text.len() == 0 {
            Some(p)
        } else {
            merge_payload(p, Field { tag, value: FieldValue::Bytes(encode_utf8(text)) })
        }),
        as_text(FieldValue::Bytes(encode_utf8(text))) == Some(text),
        as_number(FieldValue::Bytes(encode_utf8(text))) is None,
{
    lemma_text_roundtrip(text);
    if text.len() > 0 {
        lemma_merge_payload_single(
            p,
            Field { tag, value: FieldValue::Bytes(encode_utf8(text)) },
        );
    }
}

/// What reading the optional field of a number does to a payload.
pub proof fn lemma_merge_payload_number(p: PayloadView, tag: int, v: u64)
    ensures
        merge_payload_fields(p, number_field(tag, v)) == (if v == 0 {
            Some(p)
        } else {
            merge_payload(p, Field { tag, value: FieldValue::Varint(v) })
        }),
{
    if v != 0 {
        lemma_merge_payload_single(p, Field { tag, value: FieldValue::Varint(v) });
    }
}

/// What reading the optional field of a text does to an envelope.
pub proof fn lemma_merge_envelope_text(e: GraphcastMessageView, tag: int, text: Seq<char>)
    ensures
        merge_envelope_fields(e, text_field(tag, text)) == (if text.len() == 0 {
            Some(e)
        } else {
            merge_envelope(e, Field { tag, value: FieldValue::Bytes(encode_utf8(text)) })
        }),
        as_text(FieldValue::Bytes(encode_utf8(text))) == Some(text),
{
    lemma_text_roundtrip(text);
    if text.len() > 0 {
        lemma_merge_envelope_single(
            e,
            Field { tag, value: FieldValue::Bytes(encode_utf8(text)) },
        );
    }
}

/// What reading the optional field of a number does to an envelope.
pub proof fn lemma_merge_envelope_number(e: GraphcastMessageView, tag: int, v: u64)
    ensures
        merge_envelope_fields(e, number_field(tag, v)) == (if v == 0 {
            Some(e)
        } else {
            merge_envelope(e, Field { tag, value: FieldValue::Varint(v) })
        }),
{
    if v != 0 {
        lemma_merge_envelope_single(e, Field { tag, value: FieldValue::Varint(v) });
    }
}

/// An empty text is the empty sequence.
proof fn lemma_empty_text(text: Seq<char>)
    ensures
        text.len() == 0 ==> text == Seq::<char>::empty(),
{
    if text.len() == 0 {
        assert(text =~= Seq::<char>::empty());
    }
}

/// What the fields of `p` give when they are read as a payload of kind `kind`.
pub open spec fn read_payload_as(p: PayloadView, kind: PayloadKind) -> Option<PayloadView> {
    merge_payload_fields(empty_payload(kind), payload_fields(p))
}

/// A public proof of indexing that was written is read back as it was.
pub proof fn lemma_public_poi_roundtrip(m: PublicPoiView)
    ensures
        read_payload_as(PayloadView::PublicPoi(m), PayloadKind::PublicPoi) == Some(
            PayloadView::PublicPoi(m),
        ),
{
    let e0 = empty_public_poi();
    let e1 = PublicPoiView { identifier: m.identifier, ..e0 };
    let e2 = PublicPoiView { content: m.content, ..e1 };
    let e3 = PublicPoiView { nonce: m.nonce, ..e2 };
    let e4 = PublicPoiView { network: m.network, ..e3 };
    let e5 = PublicPoiView { block_number: m.block_number, ..e4 };
    let e6 = PublicPoiView { block_hash: m.block_hash, ..e5 };
    let e7 = PublicPoiView { graph_account: m.graph_account, ..e6 };
    assert(e7 == m);
    let held0 = PayloadView::PublicPoi(e0);
    let held1 = PayloadView::PublicPoi(e1);
    let held2 = PayloadView::PublicPoi(e2);
    let held3 = PayloadView::PublicPoi(e3);
    let held4 = PayloadView::PublicPoi(e4);
    let held5 = PayloadView::PublicPoi(e5);
    let held6 = PayloadView::PublicPoi(e6);
    let f1 = text_field(1, m.identifier);
    let f2 = f1 + text_field(2, m.content);
    let f3 = f2 + number_field(3, m.nonce);
    let f4 = f3 + text_field(4, m.network);
    let f5 = f4 + number_field(5, m.block_number);
    let f6 = f5 + text_field(6, m.block_hash);
    lemma_empty_text(m.identifier);
    lemma_empty_text(m.content);
    lemma_empty_text(m.network);
    lemma_empty_text(m.block_hash);
    lemma_empty_text(m.graph_account);
    lemma_merge_payload_text(held0, 1, m.identifier);
    assert(merge_payload_fields(held0, f1) == Some(held1));
    lemma_merge_payload_text(held1, 2, m.content);
    lemma_merge_payload_concat(held0, f1, text_field(2, m.content));
    assert(merge_payload_fields(held0, f2) == Some(held2));
    lemma_merge_payload_number(held2, 3, m.nonce);
    lemma_merge_payload_concat(held0, f2, number_field(3, m.nonce));
    assert(merge_payload_fields(held0, f3) == Some(held3));
    lemma_merge_payload_text(held3, 4, m.network);
    lemma_merge_payload_concat(held0, f3, text_field(4, m.network));
    assert(merge_payload_fields(held0, f4) == Some(held4));
    lemma_merge_payload_number(held4, 5, m.block_number);
    lemma_merge_payload_concat(held0, f4, number_field(5, m.block_number));
    assert(merge_payload_fields(held0, f5) == Some(held5));
    lemma_merge_payload_text(held5, 6, m.block_hash);
    lemma_merge_payload_concat(held0, f5, text_field(6, m.block_hash));
    assert(merge_payload_fields(held0, f6) == Some(held6));
    lemma_merge_payload_text(held6, 7, m.graph_account);
    lemma_merge_payload_concat(held0, f6, text_field(7, m.graph_account));
}

/// An upgrade intent that was written is read back as it was.
pub proof fn lemma_upgrade_intent_roundtrip(m: UpgradeIntentView)
    ensures
        read_payload_as(PayloadView::UpgradeIntent(m), PayloadKind::UpgradeIntent) == Some(
            PayloadView::UpgradeIntent(m),
        ),
{
    let e0 = empty_upgrade_intent();
    let e1 = UpgradeIntentView { deployment: m.deployment, ..e0 };
    let e2 = UpgradeIntentView { subgraph_id: m.subgraph_id, ..e1 };
    let e3 = UpgradeIntentView { new_hash: m.new_hash, ..e2 };
    let e4 = UpgradeIntentView { nonce: m.nonce, ..e3 };
    let e5 = UpgradeIntentView { graph_account: m.graph_account, ..e4 };
    assert(e5 == m);
    let held0 = PayloadView::UpgradeIntent(e0);
    let held1 = PayloadView::UpgradeIntent(e1);
    let held2 = PayloadView::UpgradeIntent(e2);
    let held3 = PayloadView::UpgradeIntent(e3);
    let held4 = PayloadView::UpgradeIntent(e4);
    let f1 = text_field(1, m.deployment);
    let f2 = f1 + text_field(2, m.subgraph_id);
    let f3 = f2 + text_field(3, m.new_hash);
    let f4 = f3 + number_field(4, m.nonce);
    lemma_empty_text(m.deployment);
    lemma_empty_text(m.subgraph_id);
    lemma_empty_text(m.new_hash);
    lemma_empty_text(m.graph_account);
    lemma_merge_payload_text(held0, 1, m.deployment);
    assert(merge_payload_fields(held0, f1) == Some(held1));
    lemma_merge_payload_text(held1, 2, m.subgraph_id);
    lemma_merge_payload_concat(held0, f1, text_field(2, m.subgraph_id));
    assert(merge_payload_fields(held0, f2) == Some(held2));
    lemma_merge_payload_text(held2, 3, m.new_hash);
    lemma_merge_payload_concat(held0, f2, text_field(3, m.new_hash));
    assert(merge_payload_fields(held0, f3) == Some(held3));
    lemma_merge_payload_number(held3, 4, m.nonce);
    lemma_merge_payload_concat(held0, f3, number_field(4, m.nonce));
    assert(merge_payload_fields(held0, f4) == Some(held4));
    lemma_merge_payload_text(held4, 5, m.graph_account);
    lemma_merge_payload_concat(held0, f4, text_field(5, m.graph_account));
}

/// A simple message that was written is read back as it was.
pub proof fn lemma_simple_roundtrip(m: SimpleView)
    ensures
        read_payload_as(PayloadView::Simple(m), PayloadKind::Simple) == Some(
            PayloadView::Simple(m),
        ),
{
    let e0 = empty_simple();
    let e1 = SimpleView { identifier: m.identifier, ..e0 };
    let e2 = SimpleView { content: m.content, ..e1 };
    assert(e2 == m);
    let held0 = PayloadView::Simple(e0);
    let held1 = PayloadView::Simple(e1);
    let f1 = text_field(1, m.identifier);
    lemma_empty_text(m.identifier);
    lemma_empty_text(m.content);
    lemma_merge_payload_text(held0, 1, m.identifier);
    assert(merge_payload_fields(held0, f1) == Some(held1));
    lemma_merge_payload_text(held1, 2, m.content);
    lemma_merge_payload_concat(held0, f1, text_field(2, m.content));
}

/// A payload that was written is read back as it was when it is read as its own kind.
pub proof fn lemma_payload_roundtrip(p: PayloadView)
    ensures
        read_payload_as(p, kind_of(p)) == Some(p),
{
    match p {
        PayloadView::PublicPoi(m) => lemma_public_poi_roundtrip(m),
        PayloadView::UpgradeIntent(m) => lemma_upgrade_intent_roundtrip(m),
        PayloadView::Simple(m) => lemma_simple_roundtrip(m),
    }
}

/// What a simple message is read as when a public proof of indexing is
/// expected: its two fields are the first two of that kind, so it is read as the
/// proof with that identifier and content and nothing else.
pub proof fn lemma_simple_as_public_poi(m: SimpleView)
    ensures
        read_payload_as(PayloadView::Simple(m), PayloadKind::PublicPoi) == Some(
            PayloadView::PublicPoi(
                PublicPoiView {
                    identifier: m.identifier,
                    content: m.content,
                    ..empty_public_poi()
                },
            ),
        ),
{
    let e0 = empty_public_poi();
    let e1 = PublicPoiView { identifier: m.identifier, ..e0 };
    let held0 = PayloadView::PublicPoi(e0);
    let held1 = PayloadView::PublicPoi(e1);
    let f1 = text_field(1, m.identifier);
    lemma_empty_text(m.identifier);
    lemma_empty_text(m.content);
    lemma_merge_payload_text(held0, 1, m.identifier);
    assert(merge_payload_fields(held0, f1) == Some(held1));
    lemma_merge_payload_text(held1, 2, m.content);
    lemma_merge_payload_concat(held0, f1, text_field(2, m.content));
}

/// What a simple message is read as when an upgrade intent is expected: the
/// intent with the identifier as deployment, the content as subgraph id, and
/// nothing else.
pub proof fn lemma_simple_as_upgrade_intent(m: SimpleView)
    ensures
        read_payload_as(PayloadView::Simple(m), PayloadKind::UpgradeIntent) == Some(
            PayloadView::UpgradeIntent(
                UpgradeIntentView {
                    deployment: m.identifier,
                    subgraph_id: m.content,
                    ..empty_upgrade_intent()
                },
            ),
        ),
{
    let e0 = empty_upgrade_intent();
    let e1 = UpgradeIntentView { deployment: m.identifier, ..e0 };
    let held0 = PayloadView::UpgradeIntent(e0);
    let held1 = PayloadView::UpgradeIntent(e1);
    let f1 = text_field(1, m.identifier);
    lemma_empty_text(m.identifier);
    lemma_empty_text(m.content);
    lemma_merge_payload_text(held0, 1, m.identifier);
    assert(merge_payload_fields(held0, f1) == Some(held1));
    lemma_merge_payload_text(held1, 2, m.content);
    lemma_merge_payload_concat(held0, f1, text_field(2, m.content));
}

/// What an upgrade intent is read as when a public proof of indexing is
/// expected. Its third, fourth and fifth field each hold another kind of value
/// than the proof has under that tag, so the reading fails as soon as one of
/// them was written. Where none was, the intent is read as the proof with the
/// deployment as identifier, the subgraph id as content, and nothing else.
pub proof fn lemma_upgrade_intent_as_public_poi(m: UpgradeIntentView)
    ensures
        read_payload_as(PayloadView::UpgradeIntent(m), PayloadKind::PublicPoi) == (if m.new_hash.len()
            == 0 && m.nonce == 0 && m.graph_account.len() == 0 {
            Some(
                PayloadView::PublicPoi(
                    PublicPoiView {
                        identifier: m.deployment,
                        content: m.subgraph_id,
                        ..empty_public_poi()
                    },
                ),
            )
        } else {
            None
        }),
{
    let e0 = empty_public_poi();
    let e1 = PublicPoiView { identifier: m.deployment, ..e0 };
    let e2 = PublicPoiView { content: m.subgraph_id, ..e1 };
    let held0 = PayloadView::PublicPoi(e0);
    let held1 = PayloadView::PublicPoi(e1);
    let held2 = PayloadView::PublicPoi(e2);
    let f1 = text_field(1, m.deployment);
    let f2 = f1 + text_field(2, m.subgraph_id);
    let f3 = f2 + text_field(3, m.new_hash);
    let f4 = f3 + number_field(4, m.nonce);
    lemma_empty_text(m.deployment);
    lemma_empty_text(m.subgraph_id);
    lemma_merge_payload_text(held0, 1, m.deployment);
    assert(merge_payload_fields(held0, f1) == Some(held1));
    lemma_merge_payload_text(held1, 2, m.subgraph_id);
    lemma_merge_payload_concat(held0, f1, text_field(2, m.subgraph_id));
    assert(merge_payload_fields(held0, f2) == Some(held2));
    lemma_merge_payload_text(held2, 3, m.new_hash);
    lemma_merge_payload_concat(held0, f2, text_field(3, m.new_hash));
    lemma_merge_payload_concat(held0, f3, number_field(4, m.nonce));
    lemma_merge_payload_concat(held0, f4, text_field(5, m.graph_account));
    if m.new_hash.len() == 0 {
        assert(merge_payload_fields(held0, f3) == Some(held2));
        lemma_merge_payload_number(held2, 4, m.nonce);
        if m.nonce == 0 {
            assert(merge_payload_fields(held0, f4) == Some(held2));
            lemma_merge_payload_text(held2, 5, m.graph_account);
        } else {
            assert(merge_payload_fields(held0, f4) is None);
        }
    } else {
        assert(merge_payload_fields(held0, f3) is None);
        assert(merge_payload_fields(held0, f4) is None);
    }
}

/// What the bytes of a message give when they are read for a payload of kind
/// `kind`: the envelope as it was, around whatever the payload's fields are read as.
pub proof fn lemma_parse_written(e: GraphcastMessageView, kind: PayloadKind)
    requires
        message_fits(e),
    ensures
        parse_envelope(encode_envelope(e), kind) == (match read_payload_as(e.payload, kind) {
            Some(p) => Some(GraphcastMessageView { payload: p, ..e }),
            None => None,
        }),
{
    let fields = envelope_fields(e);
    lemma_envelope_fields_encodable(e);
    lemma_fields_roundtrip(fields, RECURSION_LIMIT as nat);
    lemma_payload_fields_encodable(e.payload);
    lemma_fields_roundtrip(payload_fields(e.payload), payload_depth());
    let e0 = empty_envelope(kind);
    let e1 = GraphcastMessageView { identifier: e.identifier, ..e0 };
    let f1 = text_field(1, e.identifier);
    let f2 = f1 + payload_field(e.payload);
    let f3 = f2 + number_field(3, e.nonce);
    let f4 = f3 + text_field(4, e.graph_account);
    lemma_empty_text(e.identifier);
    lemma_empty_text(e.graph_account);
    lemma_empty_text(e.signature);
    lemma_merge_envelope_text(e0, 1, e.identifier);
    assert(merge_envelope_fields(e0, f1) == Some(e1));
    lemma_merge_envelope_single(
        e1,
        Field { tag: 2, value: FieldValue::Bytes(encode_payload(e.payload)) },
    );
    lemma_merge_envelope_concat(e0, f1, payload_field(e.payload));
    lemma_merge_envelope_concat(e0, f2, number_field(3, e.nonce));
    lemma_merge_envelope_concat(e0, f3, text_field(4, e.graph_account));
    lemma_merge_envelope_concat(e0, f4, text_field(5, e.signature));
    match read_payload_as(e.payload, kind) {
        Some(p) => {
            let e2 = GraphcastMessageView { payload: p, ..e1 };
            let e3 = GraphcastMessageView { nonce: e.nonce, ..e2 };
            let e4 = GraphcastMessageView { graph_account: e.graph_account, ..e3 };
            let e5 = GraphcastMessageView { signature: e.signature, ..e4 };
            assert(e5 == GraphcastMessageView { payload: p, ..e });
            assert(merge_envelope_fields(e0, f2) == Some(e2));
            lemma_merge_envelope_number(e2, 3, e.nonce);
            assert(merge_envelope_fields(e0, f3) == Some(e3));
            lemma_merge_envelope_text(e3, 4, e.graph_account);
            assert(merge_envelope_fields(e0, f4) == Some(e4));
            lemma_merge_envelope_text(e4, 5, e.signature);
        },
        None => {
            assert(merge_envelope_fields(e0, f2) is None);
            assert(merge_envelope_fields(e0, f3) is None);
            assert(merge_envelope_fields(e0, f4) is None);
        },
    }
}

/// Round-trip law: a message that agrees with its envelope is read back as
/// what was written when it is read for its own kind.
pub proof fn lemma_decode_own_kind(e: GraphcastMessageView)
    requires
        e.consistent(),
        message_fits(e),
    ensures
        decode_as(encode_envelope(e), kind_of(e.payload)) == Ok::<
            GraphcastMessageView,
            DecodeError,
        >(e),
{
    lemma_parse_written(e, kind_of(e.payload));
    lemma_payload_roundtrip(e.payload);
}

/// Fan-in law, first kind: a public proof of indexing that agrees with its
/// envelope is read back as what was written. It wins although the same bytes
/// could be read as a simple message too.
pub proof fn lemma_decode_public_poi(e: GraphcastMessageView)
    requires
        e.payload is PublicPoi,
        e.consistent(),
        message_fits(e),
    ensures
        decode_any(encode_envelope(e)) == Ok::<GraphcastMessageView, DecodeError>(e),
        decode_as(encode_envelope(e), PayloadKind::PublicPoi) == Ok::<
            GraphcastMessageView,
            DecodeError,
        >(e),
{
    lemma_parse_written(e, PayloadKind::PublicPoi);
    lemma_payload_roundtrip(e.payload);
}

/// The one shape of upgrade intent that is read as a public proof of indexing
/// instead: it carries no new hash, no nonce and no sender, and its deployment
/// is the envelope's identifier.
pub open spec fn upgrade_intent_reads_as_public_poi(e: GraphcastMessageView) -> bool {
    e.payload matches PayloadView::UpgradeIntent(m) && m.new_hash.len() == 0 && m.nonce == 0
        && m.graph_account.len() == 0 && m.deployment == e.identifier
}

/// Fan-in law, second kind: an upgrade intent that agrees with its envelope is
/// read back as what was written, unless it has the one shape that reads as a
/// public proof of indexing.
pub proof fn lemma_decode_upgrade_intent(e: GraphcastMessageView)
    requires
        e.payload is UpgradeIntent,
        e.consistent(),
        message_fits(e),
        !upgrade_intent_reads_as_public_poi(e),
    ensures
        decode_any(encode_envelope(e)) == Ok::<GraphcastMessageView, DecodeError>(e),
{
    let m = e.payload->UpgradeIntent_0;
    lemma_parse_written(e, PayloadKind::PublicPoi);
    lemma_parse_written(e, PayloadKind::UpgradeIntent);
    lemma_upgrade_intent_as_public_poi(m);
    lemma_payload_roundtrip(e.payload);
    lemma_empty_text(e.graph_account);
    lemma_empty_text(m.graph_account);
}

/// The one shape of simple message that is read as a public proof of indexing
/// instead: its envelope carries no nonce and no sender.
pub open spec fn simple_reads_as_public_poi(e: GraphcastMessageView) -> bool {
    e.payload is Simple && e.nonce == 0 && e.graph_account.len() == 0
}

/// Fan-in law, third kind: a simple message that agrees with its envelope is
/// read back as what was written, unless its envelope carries neither nonce nor
/// sender.
pub proof fn lemma_decode_simple(e: GraphcastMessageView)
    requires
        e.payload is Simple,
        e.consistent(),
        message_fits(e),
        !simple_reads_as_public_poi(e),
    ensures
        decode_any(encode_envelope(e)) == Ok::<GraphcastMessageView, DecodeError>(e),
{
    let m = e.payload->Simple_0;
    lemma_parse_written(e, PayloadKind::PublicPoi);
    lemma_parse_written(e, PayloadKind::UpgradeIntent);
    lemma_parse_written(e, PayloadKind::Simple);
    lemma_simple_as_public_poi(m);
    lemma_simple_as_upgrade_intent(m);
    lemma_payload_roundtrip(e.payload);
    lemma_empty_text(e.graph_account);
}

/// What happens to the simple messages that the third law leaves out: they
/// are read as a public proof of indexing with the same identifier and content.
pub proof fn lemma_decode_simple_without_sender(e: GraphcastMessageView)
    requires
        e.payload is Simple,
        e.consistent(),
        message_fits(e),
        simple_reads_as_public_poi(e),
    ensures
        decode_any(encode_envelope(e)) == Ok::<GraphcastMessageView, DecodeError>(
            GraphcastMessageView {
                payload: PayloadView::PublicPoi(
                    PublicPoiView {
                        identifier: e.payload->Simple_0.identifier,
                        content: e.payload->Simple_0.content,
                        ..empty_public_poi()
                    },
                ),
                ..e
            },
        ),
{
    let m = e.payload->Simple_0;
    lemma_parse_written(e, PayloadKind::PublicPoi);
    lemma_simple_as_public_poi(m);
    lemma_empty_text(e.graph_account);
}

/// Fan-in law, the rest: bytes that are a message of none of the three kinds
/// are reported as unsupported, and nothing else is.
pub proof fn lemma_decode_unsupported(bytes: Seq<u8>)
    ensures
        decode_any(bytes) is Err <==> decode_as(bytes, PayloadKind::PublicPoi) is Err && decode_as(
            bytes,
            PayloadKind::UpgradeIntent,
        ) is Err && decode_as(bytes, PayloadKind::Simple) is Err,
        decode_any(bytes) is Err ==> decode_any(bytes) == Err::<GraphcastMessageView, DecodeError>(
            DecodeError::Unsupported,
        ),
{
}

} // verus!
