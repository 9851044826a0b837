use data_server::config::SaveConfig;
use data_server::envelope::{decode_envelope, encode_envelope, Envelope};
use data_server::errors::ErrorKind;
use data_server::ingest::{Data, Ingestor};

#[test]
fn record_keeps_its_fields() {
    let record = Data::new(42, String::from("gps/vtg"), vec![1, 2, 3]);
    assert_eq!(record.time(), 42);
    assert_eq!(record.topic().as_str(), "gps/vtg");
    assert_eq!(record.data(), &vec![1, 2, 3]);
}

#[test]
fn size_triggered_flush() {
    // size threshold 3 and no elapsed time: the third record makes exactly
    // one flush due, of all three records, and the buffer drains
    let mut ing = Ingestor::new(3, 1_000_000, 0);
    ing.ingest(0, String::from("a"), vec![1]);
    assert!(!ing.flush_due(0));
    ing.ingest(0, String::from("b"), vec![2]);
    assert!(!ing.flush_due(0));
    ing.ingest(0, String::from("c"), vec![3]);
    assert!(ing.flush_due(0));
    assert_eq!(ing.buffered(), 3);
    let batch: Vec<(u64, String, Vec<u8>)> = ing
        .pending()
        .iter()
        .map(|d| (d.time(), d.topic().clone(), d.data().clone()))
        .collect();
    assert_eq!(
        batch,
        vec![
            (0, String::from("a"), vec![1]),
            (0, String::from("b"), vec![2]),
            (0, String::from("c"), vec![3]),
        ]
    );
    ing.mark_flushed(0);
    assert_eq!(ing.buffered(), 0);
    assert!(!ing.flush_due(0));
}

#[test]
fn time_triggered_flush() {
    // size threshold out of reach, but the time threshold elapsed: a single
    // buffered record flushes alone
    let mut ing = Ingestor::new(5, 2_000_000, 0);
    ing.ingest(100, String::from("gps/gga"), vec![7]);
    assert!(!ing.flush_due(100));
    assert!(!ing.flush_due(1_999_999));
    assert!(ing.flush_due(2_000_000));
    assert_eq!(ing.buffered(), 1);
    assert_eq!(ing.pending()[0].data(), &vec![7]);
}

#[test]
fn failed_flush_retains_buffer_for_retry() {
    // a failed commit must leave the buffer untouched, so the same records
    // are retried together with the ones that arrive afterwards
    let mut ing = Ingestor::new(2, 60_000_000, 0);
    ing.ingest(1, String::from("a"), vec![1]);
    ing.ingest(2, String::from("b"), vec![2]);
    assert!(ing.flush_due(2));
    // the commit fails: mark_flushed is not called
    ing.ingest(3, String::from("c"), vec![3]);
    assert!(ing.flush_due(3));
    assert_eq!(ing.buffered(), 3);
    let times: Vec<u64> = ing.pending().iter().map(|d| d.time()).collect();
    assert_eq!(times, vec![1, 2, 3]);
}

#[test]
fn ingest_envelope_builds_timestamped_record() {
    let mut ing = Ingestor::new(10, 1_000_000, 0);
    let env = Envelope {
        topic: b"gps/gga".to_vec(),
        payload: vec![0xde, 0xad],
    };
    ing.ingest_envelope(1234, env).expect("valid UTF-8 topic");
    assert_eq!(ing.buffered(), 1);
    let record = &ing.pending()[0];
    assert_eq!(record.time(), 1234);
    assert_eq!(record.topic().as_str(), "gps/gga");
    assert_eq!(record.data(), &vec![0xde, 0xad]);
}

#[test]
fn ingest_envelope_rejects_invalid_utf8_topic() {
    let mut ing = Ingestor::new(10, 1_000_000, 0);
    let env = Envelope {
        topic: vec![0xff, 0xfe],
        payload: vec![1],
    };
    assert_eq!(ing.ingest_envelope(5, env).unwrap_err(), ErrorKind::Codec);
    assert_eq!(ing.buffered(), 0);
}

#[test]
fn from_config_converts_interval_to_microseconds() {
    let cfg = SaveConfig {
        db_dir: String::from("/var/lib/telemetry"),
        bulk_size: 2,
        bulk_interval: 3,
    };
    let mut ing = Ingestor::from_config(&cfg, 0);
    ing.ingest(0, String::from("a"), vec![1]);
    assert!(!ing.flush_due(2_999_999));
    assert!(ing.flush_due(3_000_000));
}

#[test]
fn received_bytes_become_a_record() {
    // the aggregator's receive path: raw bus bytes, decoded strictly, then
    // timestamped and buffered
    let wire = encode_envelope(&Envelope {
        topic: b"spi".to_vec(),
        payload: vec![1, 2, 3],
    });
    let mut ing = Ingestor::new(1, 1_000_000, 0);
    let env = decode_envelope(&wire).expect("well-formed envelope");
    ing.ingest_envelope(77, env).expect("valid topic");
    assert!(ing.flush_due(77));
    let record = &ing.pending()[0];
    assert_eq!(record.time(), 77);
    assert_eq!(record.topic().as_str(), "spi");
    assert_eq!(record.data(), &vec![1, 2, 3]);
}
