use grimoire::decoding::{explain, Shape};
use grimoire::wire::{self, Body};
use prost::encoding::{decode_key, skip_field, DecodeContext};

fn said(shape: Shape, bytes: &[u8]) -> String {
    let text = explain(shape, bytes);
    match text.strip_prefix("failed to decode Protobuf message: ") {
        Some(rest) => rest.to_owned(),
        None => panic!("{text}"),
    }
}

fn operation(bytes: &[u8]) -> String {
    assert!(Body::decode(bytes).is_none());
    said(Shape::Operation, bytes)
}

/// What skipping fields, one after the other, says of bytes.
fn skipping(bytes: &[u8]) -> Option<String> {
    let mut rest = bytes;
    while !rest.is_empty() {
        let skipped = decode_key(&mut rest)
            .and_then(|(tag, kind)| skip_field(kind, tag, &mut rest, DecodeContext::default()));
        if let Err(error) = skipped {
            return Some(error.to_string());
        }
    }
    None
}

/// So many groups, one inside the other, under a tag that no message knows.
fn nested(levels: usize) -> Vec<u8> {
    let mut bytes = Vec::new();
    for _ in 0..levels {
        bytes.extend_from_slice(&[0xfb, 0x7f]);
    }
    for _ in 0..levels {
        bytes.extend_from_slice(&[0xfc, 0x7f]);
    }
    bytes
}

#[test]
fn unknown_fields_are_skipped_as_elsewhere() {
    let mut samples = vec![
        vec![],
        vec![0xf8, 0x7f, 0x05],
        vec![0xf9, 0x7f, 1, 2, 3, 4, 5, 6, 7, 8],
        vec![0xf9, 0x7f, 1, 2, 3, 4, 5, 6, 7],
        vec![0xfd, 0x7f, 1, 2, 3, 4],
        vec![0xfd, 0x7f, 1, 2, 3],
        vec![0xfa, 0x7f, 2, 9, 9],
        vec![0xfa, 0x7f, 3, 9, 9],
        vec![0xfa, 0x7f, 0xff],
        vec![0xfc, 0x7f],
        vec![0xfe, 0x7f],
        vec![0xff, 0x7f],
        vec![0x00],
        vec![0x05, 1, 2, 3, 4],
        vec![0xff; 10],
        vec![0x80, 0x80, 0x80, 0x80, 0x10],
        vec![0xfb, 0x7f, 0x08, 0x01, 0xfc, 0x7f],
        vec![0xfb, 0x7f, 0x08, 0x01, 0x0c],
        vec![0xfb, 0x7f, 0x08],
        vec![0xfb, 0x7f],
    ];
    for levels in [1, 2, 98, 99, 100, 101, 102] {
        samples.push(nested(levels));
    }
    let mut inside = vec![0xfb, 0x7f, 0x0b];
    inside.extend_from_slice(&[0x10, 0x01, 0x0c, 0xfc, 0x7f]);
    samples.push(inside);
    for sample in samples {
        let expected = skipping(&sample);
        assert_eq!(Body::decode(&sample).is_none(), expected.is_some());
        if let Some(expected) = expected {
            assert_eq!(explain(Shape::Operation, &sample), expected);
        }
    }
}

#[test]
fn groups_in_a_message_have_fewer_levels() {
    let body = |levels: usize| {
        let inner = nested(levels);
        let mut bytes = vec![0x0a];
        let length = inner.len();
        bytes.extend_from_slice(&[(length % 128 + 128) as u8, (length / 128) as u8]);
        bytes.extend_from_slice(&inner);
        bytes
    };
    assert!(Body::decode(&nested(100)).is_some());
    assert!(Body::decode(&nested(101)).is_none());
    assert!(Body::decode(&body(99)).is_some());
    assert_eq!(
        operation(&body(100)),
        "Operation.body: recursion limit reached"
    );
}

#[test]
fn places_are_named_from_the_inside_out() {
    assert_eq!(operation(&[0xff]), "invalid varint");
    assert_eq!(
        operation(&[0x08, 0x01]),
        "Operation.body: invalid wire type: Varint (expected LengthDelimited)"
    );
    assert_eq!(operation(&[0x0a, 0x05, 0x01]), "Operation.body: buffer underflow");
    assert_eq!(
        operation(&[0x0a, 0x02, 0x08, 0x01]),
        "TextMessage.id: Operation.body: invalid wire type: Varint (expected LengthDelimited)"
    );
    assert_eq!(
        operation(&[0x0a, 0x03, 0x12, 0x01, 0xff]),
        "TextMessage.body: Operation.body: invalid string value: data is not UTF-8 encoded"
    );
    assert_eq!(
        operation(&[0x12, 0x02, 0x0a, 0x00]),
        "MembershipChange.revision: Operation.body: \
         invalid wire type: LengthDelimited (expected Varint)"
    );
    assert_eq!(
        operation(&[0x4a, 0x04, 0x0a, 0x02, 0x10, 0x01]),
        "EncryptedTextIdentity.id: TextInventory.messages: Operation.body: \
         invalid wire type: Varint (expected LengthDelimited)"
    );
    assert_eq!(
        operation(&[0x0a, 0x02, 0x0a, 0x01, 0x58, 0x01]),
        "Operation.body: delimited length exceeded"
    );
    assert_eq!(operation(&[0x00]), "invalid tag value: 0");
    assert_eq!(operation(&[0x0e]), "invalid wire type value: 6");
    assert_eq!(
        operation(&[0x80, 0x80, 0x80, 0x80, 0x10]),
        "invalid key value: 4294967296"
    );
    assert!(wire::VoiceFrame::decode(&[0x12, 0x00]).is_none());
    assert_eq!(
        said(Shape::VoiceFrame, &[0x12, 0x00]),
        "VoiceFrame.sequence: invalid wire type: LengthDelimited (expected Varint)"
    );
    assert!(wire::VoicePresencePayload::decode(&[0x1a, 0x00]).is_none());
    assert_eq!(
        said(Shape::VoicePresencePayload, &[0x1a, 0x00]),
        "VoicePresencePayload.state: invalid wire type: LengthDelimited (expected Varint)"
    );
}
