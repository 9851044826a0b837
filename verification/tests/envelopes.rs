use data_server::envelope::{decode_envelope, encode_envelope, Envelope};
use data_server::errors::ErrorKind;

fn round_trip(topic: &[u8], payload: Vec<u8>) {
    let env = Envelope {
        topic: topic.to_vec(),
        payload,
    };
    let bytes = encode_envelope(&env);
    let back = decode_envelope(&bytes).expect("a fresh encoding must decode");
    assert_eq!(back.topic, env.topic);
    assert_eq!(back.payload, env.payload);
}

#[test]
fn envelope_round_trip_payload_sizes() {
    round_trip(b"gps/gga", Vec::new());
    round_trip(b"gps/gga", vec![0xab]);
    round_trip(b"gps/gga", vec![0x5a; 65536]);
}

#[test]
fn envelope_round_trip_topic_lengths() {
    // one topic for each string-header form: fixstr, str8, str16, str32
    round_trip(b"", vec![1, 2, 3]);
    round_trip(b"t", vec![1, 2, 3]);
    round_trip(&[b'a'; 31], vec![1, 2, 3]);
    round_trip(&[b'b'; 32], vec![1, 2, 3]);
    round_trip(&[b'c'; 255], vec![1, 2, 3]);
    round_trip(&[b'd'; 256], vec![1, 2, 3]);
    round_trip(&[b'e'; 65535], vec![1, 2, 3]);
    round_trip(&[b'f'; 65536], vec![1, 2, 3]);
}

#[test]
fn envelope_round_trip_mid_payload_sizes() {
    // one payload for each byte-string-header form: bin8, bin16, bin32
    round_trip(b"spi", vec![9; 255]);
    round_trip(b"spi", vec![9; 256]);
    round_trip(b"spi", vec![9; 65535]);
}

#[test]
fn envelope_wire_form_is_exact() {
    let env = Envelope {
        topic: b"t".to_vec(),
        payload: vec![0xab],
    };
    let bytes = encode_envelope(&env);
    assert_eq!(
        bytes,
        vec![
            0x82, // a two-entry map
            0xa5, b't', b'o', b'p', b'i', b'c', // the key "topic"
            0xa1, b't', // the topic, a one-byte string
            0xa7, b'p', b'a', b'y', b'l', b'o', b'a', b'd', // the key "payload"
            0xc4, 0x01, 0xab, // the payload, one byte
        ]
    );
}

#[test]
fn decode_rejects_malformed_envelopes() {
    let good = encode_envelope(&Envelope {
        topic: b"topicname".to_vec(),
        payload: vec![1, 2, 3, 4],
    });
    assert!(decode_envelope(&good).is_ok());

    // empty and truncated input
    assert_eq!(decode_envelope(&Vec::new()).unwrap_err(), ErrorKind::Codec);
    let truncated = good[..good.len() - 1].to_vec();
    assert_eq!(decode_envelope(&truncated).unwrap_err(), ErrorKind::Codec);

    // a trailing byte to spare
    let mut padded = good.clone();
    padded.push(0x00);
    assert_eq!(decode_envelope(&padded).unwrap_err(), ErrorKind::Codec);

    // not a two-entry map
    let mut wrong_marker = good.clone();
    wrong_marker[0] = 0x81;
    assert_eq!(decode_envelope(&wrong_marker).unwrap_err(), ErrorKind::Codec);

    // an unknown first key
    let mut wrong_key = good.clone();
    wrong_key[1] = 0xa6;
    assert_eq!(decode_envelope(&wrong_key).unwrap_err(), ErrorKind::Codec);
    let mut misspelt = good.clone();
    misspelt[2] = b'x';
    assert_eq!(decode_envelope(&misspelt).unwrap_err(), ErrorKind::Codec);
}

#[test]
fn decode_rejects_oversized_length_headers() {
    // the topic "t" announced through a two-byte header instead of the
    // one-byte form the encoder writes
    let mut bytes = vec![0x82, 0xa5, b't', b'o', b'p', b'i', b'c', 0xd9, 0x01, b't'];
    bytes.extend_from_slice(&[0xa7, b'p', b'a', b'y', b'l', b'o', b'a', b'd', 0xc4, 0x00]);
    assert_eq!(decode_envelope(&bytes).unwrap_err(), ErrorKind::Codec);

    // the same envelope in canonical form decodes
    let mut canonical = vec![0x82, 0xa5, b't', b'o', b'p', b'i', b'c', 0xa1, b't'];
    canonical.extend_from_slice(&[0xa7, b'p', b'a', b'y', b'l', b'o', b'a', b'd', 0xc4, 0x00]);
    let env = decode_envelope(&canonical).expect("canonical form must decode");
    assert_eq!(env.topic, b"t".to_vec());
    assert_eq!(env.payload, Vec::<u8>::new());
}

#[test]
fn decode_rejects_wrong_value_markers() {
    // payload announced as a string instead of a byte string
    let bytes = vec![
        0x82, 0xa5, b't', b'o', b'p', b'i', b'c', 0xa1, b't', 0xa7, b'p', b'a', b'y', b'l', b'o',
        b'a', b'd', 0xa1, 0x41,
    ];
    assert_eq!(decode_envelope(&bytes).unwrap_err(), ErrorKind::Codec);
}
