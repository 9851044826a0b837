use vstd::prelude::*;

use crate::config::SaveConfig;
use crate::envelope::Envelope;
use crate::errors::ErrorKind;

verus! {

/// One persisted record: microseconds since the aggregator process started
/// (monotonic, not wall-clock), the topic, and the opaque payload bytes.
/// Immutable once constructed.
#[derive(Debug)]
pub struct Data {
    time: u64,
    topic: String,
    data: Vec<u8>,
}

/// Mathematical model of a record.
#[verifier::ext_equal]
pub struct DataModel {
    pub time: u64,
    pub topic: Seq<char>,
    pub data: Seq<u8>,
}

impl View for Data {
    type V = DataModel;

    closed spec fn view(&self) -> DataModel {
        DataModel { time: self.time, topic: self.topic@, data: self.data@ }
    }
}

impl Data {
    /// Builds a record from its three fields, as given.
    pub fn new(time: u64, topic: String, data: Vec<u8>) -> (r: Data)
        ensures
            r@ == (DataModel { time, topic: topic@, data: data@ }),
    {
        Data { time, topic, data }
    }

    /// The record's timestamp: microseconds since the aggregator started.
    pub fn time(&self) -> (r: u64)
        ensures
            r == self@.time,
    {
        self.time
    }

    /// The record's topic.
    pub fn topic(&self) -> (r: &String)
        ensures
            r@ == self@.topic,
    {
        &self.topic
    }

    /// The record's payload bytes.
    pub fn data(&self) -> (r: &Vec<u8>)
        ensures
            r@ == self@.data,
    {
        &self.data
    }
}

/// Relies on String::from_utf8: it succeeds exactly on valid UTF-8 input,
/// and the returned string's UTF-8 bytes are the input bytes.
#[verifier::external_body]
fn string_from_utf8(bytes: Vec<u8>) -> (r: Option<String>)
    ensures
        r is Some <==> vstd::utf8::valid_utf8(bytes@),
        r matches Some(s) ==> vstd::utf8::encode_utf8(s@) == bytes@,
{
    String::from_utf8(bytes).ok()
}

/// The aggregator's buffer and flush policy: an ordered sequence of pending
/// records, flushed as one atomic batch under a dual size/time trigger.
pub struct Ingestor {
    buffer: Vec<Data>,
    size_threshold: usize,
    time_threshold_us: u64,
    last_flush_us: u64,
}

/// Mathematical model of the ingestor.
#[verifier::ext_equal]
pub struct IngestorModel {
    pub buffer: Seq<DataModel>,
    pub size_threshold: usize,
    pub time_threshold_us: u64,
    pub last_flush_us: u64,
}

impl View for Ingestor {
    type V = IngestorModel;

    closed spec fn view(&self) -> IngestorModel {
        IngestorModel {
            buffer: self.buffer@.map_values(|d: Data| d@),
            size_threshold: self.size_threshold,
            time_threshold_us: self.time_threshold_us,
            last_flush_us: self.last_flush_us,
        }
    }
}

/// The model with its buffer replaced; thresholds and timer unchanged.
pub open spec fn with_buffer(m: IngestorModel, buffer: Seq<DataModel>) -> IngestorModel {
    IngestorModel { buffer, ..m }
}

/// The model after a successful flush at `now_us`: the buffer is empty and
/// the flush timer restarts.
pub open spec fn flushed(m: IngestorModel, now_us: u64) -> IngestorModel {
    IngestorModel { buffer: Seq::empty(), last_flush_us: now_us, ..m }
}

/// The dual flush trigger, evaluated after every receive: the buffer has
/// reached the size threshold, or the time threshold has elapsed since the
/// last flush. The two bound worst-case memory and worst-case
/// latency-to-durability independently of throughput.
pub open spec fn flush_trigger(m: IngestorModel, now_us: u64) -> bool {
    m.buffer.len() >= m.size_threshold || now_us - m.last_flush_us >= m.time_threshold_us
}

impl Ingestor {
    /// A fresh ingestor: empty buffer, thresholds as given, flush timer
    /// starting at `start_us`.
    pub fn new(size_threshold: usize, time_threshold_us: u64, start_us: u64) -> (r: Ingestor)
        ensures
            r@ == (IngestorModel {
                buffer: Seq::empty(),
                size_threshold,
                time_threshold_us,
                last_flush_us: start_us,
            }),
    {
        let r = Ingestor {
            buffer: Vec::new(),
            size_threshold,
            time_threshold_us,
            last_flush_us: start_us,
        };
        proof {
            assert(r@.buffer =~= Seq::<DataModel>::empty());
        }
        r
    }

    /// An ingestor set up from the save section of the configuration: the
    /// batch size bound as given, the flush interval converted from seconds
    /// to microseconds.
    pub fn from_config(cfg: &SaveConfig, start_us: u64) -> (r: Ingestor)
        ensures
            r@ == (IngestorModel {
                buffer: Seq::empty(),
                size_threshold: cfg.bulk_size as usize,
                time_threshold_us: (cfg.bulk_interval * 1_000_000) as u64,
                last_flush_us: start_us,
            }),
    {
        Ingestor::new(cfg.bulk_size as usize, cfg.bulk_interval as u64 * 1_000_000, start_us)
    }

    /// Timestamps a decoded message and appends it to the buffer; nothing
    /// else changes.
    pub fn ingest(&mut self, now_us: u64, topic: String, payload: Vec<u8>)
        ensures
            final(self)@ == with_buffer(
                old(self)@,
                old(self)@.buffer.push(
                    DataModel { time: now_us, topic: topic@, data: payload@ },
                ),
            ),
    {
        let record = Data::new(now_us, topic, payload);
        self.buffer.push(record);
        proof {
            assert(self@.buffer =~= old(self)@.buffer.push(
                DataModel { time: now_us, topic: topic@, data: payload@ },
            ));
        }
    }

    /// Builds a record from a decoded envelope and buffers it. The topic
    /// bytes must be valid UTF-8; otherwise the message is rejected as a
    /// codec error and the buffer is unchanged — the strict decode at the
    /// boundary, completed.
    pub fn ingest_envelope(&mut self, now_us: u64, env: Envelope) -> (r: Result<(), ErrorKind>)
        ensures
            r is Ok <==> vstd::utf8::valid_utf8(env.topic@),
            r is Ok ==> final(self)@ == with_buffer(
                old(self)@,
                old(self)@.buffer.push(
                    DataModel {
                        time: now_us,
                        topic: vstd::utf8::decode_utf8(env.topic@),
                        data: env.payload@,
                    },
                ),
            ),
            r matches Err(e) ==> e == ErrorKind::Codec && final(self)@ == old(self)@,
    {
        let Envelope { topic, payload } = env;
        match string_from_utf8(topic) {
            Option::Some(s) => {
                proof {
                    vstd::utf8::encode_utf8_decode_utf8(s@);
                }
                self.ingest(now_us, s, payload);
                Result::Ok(())
            },
            Option::None => Result::Err(ErrorKind::Codec),
        }
    }

    /// How many records are pending.
    pub fn buffered(&self) -> (r: usize)
        ensures
            r == self@.buffer.len(),
    {
        self.buffer.len()
    }

    /// The pending records, oldest first: exactly what one flush transaction
    /// must insert, all rows or none.
    pub fn pending(&self) -> (r: &Vec<Data>)
        ensures
            r@.map_values(|d: Data| d@) == self@.buffer,
    {
        &self.buffer
    }

    /// Whether a flush is due at `now_us`.
    pub fn flush_due(&self, now_us: u64) -> (r: bool)
        requires
            now_us >= self@.last_flush_us,
        ensures
            r == flush_trigger(self@, now_us),
    {
        self.buffer.len() >= self.size_threshold || now_us - self.last_flush_us
            >= self.time_threshold_us
    }

    /// Records that a flush transaction committed at `now_us`: the buffer is
    /// cleared and the flush timer restarts. After a failed transaction this
    /// must not be called — the buffer is retained unchanged, so the same
    /// records are retried together with later ones at the next trigger.
    pub fn mark_flushed(&mut self, now_us: u64)
        ensures
            final(self)@ == flushed(old(self)@, now_us),
    {
        self.buffer.clear();
        self.last_flush_us = now_us;
        proof {
            assert(self@.buffer =~= Seq::<DataModel>::empty());
        }
    }
}

/// Size-triggered flush: with the buffer at exactly the size threshold and
/// no time elapsed since the last flush, a flush is due, it commits all the
/// buffered records at once, and afterwards no further flush is due until
/// new records arrive or time passes.
pub proof fn lemma_size_trigger(m: IngestorModel, now_us: u64)
    requires
        m.size_threshold >= 1,
        m.time_threshold_us >= 1,
        m.buffer.len() == m.size_threshold,
        now_us == m.last_flush_us,
    ensures
        flush_trigger(m, now_us),
        !flush_trigger(flushed(m, now_us), now_us),
{
}

/// Time-triggered flush: once the time threshold has elapsed, a single
/// buffered record flushes alone, even with the size threshold out of reach.
pub proof fn lemma_time_trigger(m: IngestorModel, now_us: u64)
    requires
        m.buffer.len() == 1,
        m.size_threshold >= 2,
        now_us >= m.last_flush_us,
        now_us - m.last_flush_us >= m.time_threshold_us,
    ensures
        flush_trigger(m, now_us),
        flushed(m, now_us).buffer.len() == 0,
{
}

} // verus!
