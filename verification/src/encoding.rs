//! How messages are written to the wire.
use vstd::prelude::*;
use crate::codec::PayloadKind;
use crate::message_types::{
    GraphcastMessage,
    GraphcastMessageView,
    Payload,
    PayloadView,
    PublicPoiView,
    SimpleView,
    UpgradeIntentView,
};
use crate::wire::{
    encode_field,
    encode_fields,
    lemma_encode_fields_concat,
    write_bytes_field,
    write_varint_field,
    Field,
    FieldValue,
};
use vstd::utf8::encode_utf8;

verus! {

/// The field that carries `text` under `tag`; none where the text is empty.
pub open spec fn text_field(tag: int, text: Seq<char>) -> Seq<Field> {
    if text.len() == 0 {
        Seq::empty()
    } else {
        seq![Field { tag, value: FieldValue::Bytes(encode_utf8(text)) }]
    }
}

/// The field that carries `v` under `tag`; none where `v` is zero.
pub open spec fn number_field(tag: int, v: u64) -> Seq<Field> {
    if v == 0 {
        Seq::empty()
    } else {
        seq![Field { tag, value: FieldValue::Varint(v) }]
    }
}

/// The fields of a public proof of indexing, in tag order.
pub open spec fn public_poi_fields(m: PublicPoiView) -> Seq<Field> {
    text_field(1, m.identifier) + text_field(2, m.content) + number_field(3, m.nonce) + text_field(
        4,
        m.network,
    ) + number_field(5, m.block_number) + text_field(6, m.block_hash) + text_field(
        7,
        m.graph_account,
    )
}

/// The fields of an upgrade intent, in tag order.
pub open spec fn upgrade_intent_fields(m: UpgradeIntentView) -> Seq<Field> {
    text_field(1, m.deployment) + text_field(2, m.subgraph_id) + text_field(3, m.new_hash)
        + number_field(4, m.nonce) + text_field(5, m.graph_account)
}

/// The fields of a simple message, in tag order.
pub open spec fn simple_fields(m: SimpleView) -> Seq<Field> {
    text_field(1, m.identifier) + text_field(2, m.content)
}

/// The fields of a payload.
pub open spec fn payload_fields(p: PayloadView) -> Seq<Field> {
    match p {
        PayloadView::PublicPoi(m) => public_poi_fields(m),
        PayloadView::UpgradeIntent(m) => upgrade_intent_fields(m),
        PayloadView::Simple(m) => simple_fields(m),
    }
}

/// The bytes of a payload.
pub open spec fn encode_payload(p: PayloadView) -> Seq<u8> {
    encode_fields(payload_fields(p))
}

/// The field that carries the payload of an envelope. It is always there.
pub open spec fn payload_field(p: PayloadView) -> Seq<Field> {
    seq![Field { tag: 2, value: FieldValue::Bytes(encode_payload(p)) }]
}

/// The fields of an envelope, in tag order.
pub open spec fn envelope_fields(e: GraphcastMessageView) -> Seq<Field> {
    text_field(1, e.identifier) + payload_field(e.payload) + number_field(3, e.nonce) + text_field(
        4,
        e.graph_account,
    ) + text_field(5, e.signature)
}

/// The bytes of a message.
pub open spec fn encode_envelope(e: GraphcastMessageView) -> Seq<u8> {
    encode_fields(envelope_fields(e))
}

/// The kind of a payload.
pub open spec fn kind_of(p: PayloadView) -> PayloadKind {
    match p {
        PayloadView::PublicPoi(_) => PayloadKind::PublicPoi,
        PayloadView::UpgradeIntent(_) => PayloadKind::UpgradeIntent,
        PayloadView::Simple(_) => PayloadKind::Simple,
    }
}

/// The text is short enough for its length to be written in 64 bits.
pub open spec fn text_fits(text: Seq<char>) -> bool {
    encode_utf8(text).len() <= u64::MAX
}

/// Every text of the payload is short enough to be written.
pub open spec fn payload_fits(p: PayloadView) -> bool {
    match p {
        PayloadView::PublicPoi(m) => text_fits(m.identifier) && text_fits(m.content) && text_fits(
            m.network,
        ) && text_fits(m.block_hash) && text_fits(m.graph_account),
        PayloadView::UpgradeIntent(m) => text_fits(m.deployment) && text_fits(m.subgraph_id)
            && text_fits(m.new_hash) && text_fits(m.graph_account),
        PayloadView::Simple(m) => text_fits(m.identifier) && text_fits(m.content),
    }
}

/// Every part of the message is short enough to be written: its texts, and
/// its payload as a whole.
pub open spec fn message_fits(e: GraphcastMessageView) -> bool {
    &&& text_fits(e.identifier)
    &&& text_fits(e.graph_account)
    &&& text_fits(e.signature)
    &&& payload_fits(e.payload)
    &&& encode_payload(e.payload).len() <= u64::MAX
}

/// Writing a run of one field writes that field.
pub proof fn lemma_encode_single(field: Field)
    ensures
        encode_fields(seq![field]) == encode_field(field),
{
    let one = seq![field];
    assert(one.skip(1) =~= Seq::<Field>::empty());
    assert(encode_fields(one.skip(1)) =~= Seq::<u8>::empty());
    assert(encode_fields(one) =~= encode_field(field));
}

/// Appends the field that carries `text` under `tag`, if the text is not empty.
fn write_text(out: &mut Vec<u8>, tag: u32, text: &String)
    requires
        1 <= tag <= crate::wire::MAX_TAG,
    ensures
        final(out)@ == old(out)@ + encode_fields(text_field(tag as int, text@)),
{
    let ghost start = out@;
    if !text.as_str().is_empty() {
        write_bytes_field(out, tag, text.as_str().as_bytes());
        proof {
            lemma_encode_single(
                Field { tag: tag as int, value: FieldValue::Bytes(encode_utf8(text@)) },
            );
        }
    } else {
        proof {
            assert(start + encode_fields(Seq::<Field>::empty()) =~= start);
        }
    }
}

/// Appends the field that carries `v` under `tag`, if `v` is not zero.
fn write_number(out: &mut Vec<u8>, tag: u32, v: u64)
    requires
        1 <= tag <= crate::wire::MAX_TAG,
    ensures
        final(out)@ == old(out)@ + encode_fields(number_field(tag as int, v)),
{
    let ghost start = out@;
    if v != 0 {
        write_varint_field(out, tag, v);
        proof {
            lemma_encode_single(Field { tag: tag as int, value: FieldValue::Varint(v) });
        }
    } else {
        proof {
            assert(start + encode_fields(Seq::<Field>::empty()) =~= start);
        }
    }
}

/// Writing onto what was written: the bytes of `a` followed by the bytes of
/// `b` are the bytes of `a + b`.
proof fn lemma_written(start: Seq<u8>, a: Seq<Field>, b: Seq<Field>)
    ensures
        start + encode_fields(a) + encode_fields(b) == start + encode_fields(a + b),
{
    lemma_encode_fields_concat(a, b);
    assert(start + encode_fields(a) + encode_fields(b) =~= start + (encode_fields(a)
        + encode_fields(b)));
}

/// The bytes of a payload.
pub fn write_payload(p: &Payload) -> (r: Vec<u8>)
    ensures
        r@ == encode_payload(p@),
{
    let mut out: Vec<u8> = Vec::new();
    let ghost nothing = Seq::<u8>::empty();
    let ghost none = Seq::<Field>::empty();
    proof {
        assert(out@ =~= nothing + encode_fields(none));
    }
    match p {
        Payload::PublicPoi(m) => {
            let ghost f1 = text_field(1, m@.identifier);
            let ghost f2 = f1 + text_field(2, m@.content);
            let ghost f3 = f2 + number_field(3, m@.nonce);
            let ghost f4 = f3 + text_field(4, m@.network);
            let ghost f5 = f4 + number_field(5, m@.block_number);
            let ghost f6 = f5 + text_field(6, m@.block_hash);
            write_text(&mut out, 1, &m.identifier);
            proof {
                lemma_written(nothing, none, text_field(1, m@.identifier));
                assert(none + text_field(1, m@.identifier) =~= f1);
            }
            write_text(&mut out, 2, &m.content);
            proof {
                lemma_written(nothing, f1, text_field(2, m@.content));
            }
            write_number(&mut out, 3, m.nonce);
            proof {
                lemma_written(nothing, f2, number_field(3, m@.nonce));
            }
            write_text(&mut out, 4, &m.network);
            proof {
                lemma_written(nothing, f3, text_field(4, m@.network));
            }
            write_number(&mut out, 5, m.block_number);
            proof {
                lemma_written(nothing, f4, number_field(5, m@.block_number));
            }
            write_text(&mut out, 6, &m.block_hash);
            proof {
                lemma_written(nothing, f5, text_field(6, m@.block_hash));
            }
            write_text(&mut out, 7, &m.graph_account);
            proof {
                lemma_written(nothing, f6, text_field(7, m@.graph_account));
                assert(out@ =~= encode_payload(p@));
            }
        },
        Payload::UpgradeIntent(m) => {
            let ghost f1 = text_field(1, m@.deployment);
            let ghost f2 = f1 + text_field(2, m@.subgraph_id);
            let ghost f3 = f2 + text_field(3, m@.new_hash);
            let ghost f4 = f3 + number_field(4, m@.nonce);
            write_text(&mut out, 1, &m.deployment);
            proof {
                lemma_written(nothing, none, text_field(1, m@.deployment));
                assert(none + text_field(1, m@.deployment) =~= f1);
            }
            write_text(&mut out, 2, &m.subgraph_id);
            proof {
                lemma_written(nothing, f1, text_field(2, m@.subgraph_id));
            }
            write_text(&mut out, 3, &m.new_hash);
            proof {
                lemma_written(nothing, f2, text_field(3, m@.new_hash));
            }
            write_number(&mut out, 4, m.nonce);
            proof {
                lemma_written(nothing, f3, number_field(4, m@.nonce));
            }
            write_text(&mut out, 5, &m.graph_account);
            proof {
                lemma_written(nothing, f4, text_field(5, m@.graph_account));
                assert(out@ =~= encode_payload(p@));
            }
        },
        Payload::Simple(m) => {
            let ghost f1 = text_field(1, m@.identifier);
            write_text(&mut out, 1, &m.identifier);
            proof {
                lemma_written(nothing, none, text_field(1, m@.identifier));
                assert(none + text_field(1, m@.identifier) =~= f1);
            }
            write_text(&mut out, 2, &m.content);
            proof {
                lemma_written(nothing, f1, text_field(2, m@.content));
                assert(out@ =~= encode_payload(p@));
            }
        },
    }
    out
}

/// The bytes of a message.
pub fn encode_message(message: &GraphcastMessage) -> (r: Vec<u8>)
    ensures
        r@ == encode_envelope(message@),
{
    let mut out: Vec<u8> = Vec::new();
    let ghost nothing = Seq::<u8>::empty();
    let ghost none = Seq::<Field>::empty();
    let ghost e = message@;
    let ghost f1 = text_field(1, e.identifier);
    let ghost f2 = f1 + payload_field(e.payload);
    let ghost f3 = f2 + number_field(3, e.nonce);
    let ghost f4 = f3 + text_field(4, e.graph_account);
    proof {
        assert(out@ =~= nothing + encode_fields(none));
    }
    write_text(&mut out, 1, &message.identifier);
    proof {
        lemma_written(nothing, none, text_field(1, e.identifier));
        assert(none + text_field(1, e.identifier) =~= f1);
    }
    let payload = write_payload(&message.payload);
    write_bytes_field(&mut out, 2, payload.as_slice());
    proof {
        lemma_encode_single(Field { tag: 2, value: FieldValue::Bytes(encode_payload(e.payload)) });
        lemma_written(nothing, f1, payload_field(e.payload));
    }
    write_number(&mut out, 3, message.nonce);
    proof {
        lemma_written(nothing, f2, number_field(3, e.nonce));
    }
    write_text(&mut out, 4, &message.graph_account);
    proof {
        lemma_written(nothing, f3, text_field(4, e.graph_account));
    }
    write_text(&mut out, 5, &message.signature);
    proof {
        lemma_written(nothing, f4, text_field(5, e.signature));
        assert(out@ =~= encode_envelope(e));
    }
    out
}

} // verus!
