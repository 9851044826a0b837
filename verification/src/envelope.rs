use vstd::prelude::*;

use crate::errors::ErrorKind;

verus! {

/// A message on the local broadcast bus: a topic and an opaque payload, the
/// payload itself a serialized record. The topic bytes are the UTF-8 bytes
/// of the topic string; whether they are valid UTF-8 is checked where a
/// record is built from the envelope, not here.
#[derive(Debug)]
pub struct Envelope {
    pub topic: Vec<u8>,
    pub payload: Vec<u8>,
}

/// The wire form opens with a two-entry map marker and the five-byte string
/// key "topic".
pub open spec fn env_prefix() -> Seq<u8> {
    seq![0x82u8, 0xa5, 0x74, 0x6f, 0x70, 0x69, 0x63]
}

/// Between the topic and the payload stands the seven-byte string key
/// "payload".
pub open spec fn payload_key() -> Seq<u8> {
    seq![0xa7u8, 0x70, 0x61, 0x79, 0x6c, 0x6f, 0x61, 0x64]
}

/// The header announcing a string of `len` bytes, in the shortest of the
/// four forms that fits: a one-byte marker for lengths up to 31, or a marker
/// followed by the length in 1, 2 or 4 big-endian bytes.
pub open spec fn str_header(len: int) -> Seq<u8>
    recommends
        0 <= len <= 0xffff_ffff,
{
    if len <= 31 {
        seq![(0xa0 + len) as u8]
    } else if len <= 0xff {
        seq![0xd9u8, len as u8]
    } else if len <= 0xffff {
        seq![0xdau8, (len / 256) as u8, (len % 256) as u8]
    } else {
        seq![
            0xdbu8,
            (len / 0x100_0000) as u8,
            ((len / 0x1_0000) % 256) as u8,
            ((len / 256) % 256) as u8,
            (len % 256) as u8,
        ]
    }
}

/// The header announcing a byte string of `len` bytes, in the shortest of
/// the three forms that fits: a marker followed by the length in 1, 2 or 4
/// big-endian bytes.
pub open spec fn bin_header(len: int) -> Seq<u8>
    recommends
        0 <= len <= 0xffff_ffff,
{
    if len <= 0xff {
        seq![0xc4u8, len as u8]
    } else if len <= 0xffff {
        seq![0xc5u8, (len / 256) as u8, (len % 256) as u8]
    } else {
        seq![
            0xc6u8,
            (len / 0x100_0000) as u8,
            ((len / 0x1_0000) % 256) as u8,
            ((len / 256) % 256) as u8,
            (len % 256) as u8,
        ]
    }
}

/// The wire encoding of an envelope: a self-describing two-entry map with
/// exactly the string keys "topic" and "payload", the topic as a string and
/// the payload as a byte string.
pub open spec fn env_bytes(topic: Seq<u8>, payload: Seq<u8>) -> Seq<u8>
    recommends
        topic.len() <= 0xffff_ffff,
        payload.len() <= 0xffff_ffff,
{
    env_prefix() + str_header(topic.len() as int) + topic + payload_key() + bin_header(
        payload.len() as int,
    ) + payload
}

/// Appends all of `bytes` to `out`.
fn push_bytes(out: &mut Vec<u8>, bytes: &[u8])
    ensures
        final(out)@ == old(out)@ + bytes@,
{
    let mut i: usize = 0;
    while i < bytes.len()
        invariant
            i <= bytes@.len(),
            out@ == old(out)@ + bytes@.subrange(0, i as int),
        decreases bytes@.len() - i,
    {
        out.push(bytes[i]);
        assert(out@ =~= old(out)@ + bytes@.subrange(0, i + 1));
        i = i + 1;
    }
    assert(bytes@.subrange(0, bytes@.len() as int) =~= bytes@);
}

/// Appends the string header for length `len`.
fn push_str_header(out: &mut Vec<u8>, len: usize)
    requires
        len <= 0xffff_ffff,
    ensures
        final(out)@ == old(out)@ + str_header(len as int),
{
    if len <= 31 {
        out.push(0xa0 + len as u8);
        assert(out@ =~= old(out)@ + str_header(len as int));
    } else if len <= 0xff {
        out.push(0xd9);
        out.push(len as u8);
        assert(out@ =~= old(out)@ + str_header(len as int));
    } else if len <= 0xffff {
        out.push(0xda);
        out.push((len / 256) as u8);
        out.push((len % 256) as u8);
        assert(out@ =~= old(out)@ + str_header(len as int));
    } else {
        out.push(0xdb);
        out.push((len / 0x100_0000) as u8);
        out.push(((len / 0x1_0000) % 256) as u8);
        out.push(((len / 256) % 256) as u8);
        out.push((len % 256) as u8);
        assert(out@ =~= old(out)@ + str_header(len as int));
    }
}

/// Appends the byte-string header for length `len`.
fn push_bin_header(out: &mut Vec<u8>, len: usize)
    requires
        len <= 0xffff_ffff,
    ensures
        final(out)@ == old(out)@ + bin_header(len as int),
{
    if len <= 0xff {
        out.push(0xc4);
        out.push(len as u8);
        assert(out@ =~= old(out)@ + bin_header(len as int));
    } else if len <= 0xffff {
        out.push(0xc5);
        out.push((len / 256) as u8);
        out.push((len % 256) as u8);
        assert(out@ =~= old(out)@ + bin_header(len as int));
    } else {
        out.push(0xc6);
        out.push((len / 0x100_0000) as u8);
        out.push(((len / 0x1_0000) % 256) as u8);
        out.push(((len / 256) % 256) as u8);
        out.push((len % 256) as u8);
        assert(out@ =~= old(out)@ + bin_header(len as int));
    }
}

/// Big-endian interpretation of the four bytes at `at`.
pub open spec fn be32_at(b: Seq<u8>, at: int) -> int
    recommends
        0 <= at,
        at + 4 <= b.len(),
{
    b[at] * 0x100_0000 + b[at + 1] * 0x1_0000 + b[at + 2] * 256 + b[at + 3]
}

/// Reads a well-formed string header at index `at`: the announced length and
/// the header's own size in bytes. Only the shortest form that fits the
/// length is accepted, so every well-formed header is the one the encoder
/// writes.
pub open spec fn parse_str_header(b: Seq<u8>, at: int) -> Option<(int, int)>
    recommends
        0 <= at,
{
    if at < b.len() {
        let h = b[at];
        if 0xa0 <= h && h <= 0xbf {
            Option::Some(((h - 0xa0) as int, 1int))
        } else if h == 0xd9 {
            if at + 2 <= b.len() && b[at + 1] > 31 {
                Option::Some((b[at + 1] as int, 2int))
            } else {
                Option::None
            }
        } else if h == 0xda {
            if at + 3 <= b.len() && b[at + 1] * 256 + b[at + 2] > 0xff {
                Option::Some(((b[at + 1] * 256 + b[at + 2]) as int, 3int))
            } else {
                Option::None
            }
        } else if h == 0xdb {
            if at + 5 <= b.len() && be32_at(b, at + 1) > 0xffff {
                Option::Some((be32_at(b, at + 1), 5int))
            } else {
                Option::None
            }
        } else {
            Option::None
        }
    } else {
        Option::None
    }
}

/// Reads a well-formed byte-string header at index `at`, shortest form only,
/// as `parse_str_header` does for string headers.
pub open spec fn parse_bin_header(b: Seq<u8>, at: int) -> Option<(int, int)>
    recommends
        0 <= at,
{
    if at < b.len() {
        let h = b[at];
        if h == 0xc4 {
            if at + 2 <= b.len() {
                Option::Some((b[at + 1] as int, 2int))
            } else {
                Option::None
            }
        } else if h == 0xc5 {
            if at + 3 <= b.len() && b[at + 1] * 256 + b[at + 2] > 0xff {
                Option::Some(((b[at + 1] * 256 + b[at + 2]) as int, 3int))
            } else {
                Option::None
            }
        } else if h == 0xc6 {
            if at + 5 <= b.len() && be32_at(b, at + 1) > 0xffff {
                Option::Some((be32_at(b, at + 1), 5int))
            } else {
                Option::None
            }
        } else {
            Option::None
        }
    } else {
        Option::None
    }
}

/// The strict parse of an envelope: exactly the two-entry map the encoder
/// writes, with the keys in order, minimal length headers, and no bytes to
/// spare. Anything else is rejected.
pub open spec fn parse_env(b: Seq<u8>) -> Option<(Seq<u8>, Seq<u8>)> {
    if b.len() >= 7 && b.subrange(0, 7) == env_prefix() {
        match parse_str_header(b, 7) {
            Option::Some((tlen, th)) => {
                let tstart = 7 + th;
                let kstart = tstart + tlen;
                if kstart + 8 <= b.len() && b.subrange(kstart, kstart + 8) == payload_key() {
                    match parse_bin_header(b, kstart + 8) {
                        Option::Some((plen, ph)) => {
                            let pstart = kstart + 8 + ph;
                            if pstart + plen == b.len() {
                                Option::Some(
                                    (
                                        b.subrange(tstart, kstart),
                                        b.subrange(pstart, b.len() as int),
                                    ),
                                )
                            } else {
                                Option::None
                            }
                        },
                        Option::None => Option::None,
                    }
                } else {
                    Option::None
                }
            },
            Option::None => Option::None,
        }
    } else {
        Option::None
    }
}

/// Reads a string header from `b` at index `at`.
fn read_str_header(b: &Vec<u8>, at: usize) -> (r: Option<(usize, usize)>)
    requires
        at <= b@.len(),
    ensures
        (match r {
            Option::Some(v) => {
                &&& parse_str_header(b@, at as int) == Option::Some((v.0 as int, v.1 as int))
                &&& at + v.1 <= b@.len()
                &&& v.0 <= 0xffff_ffff
            },
            Option::None => parse_str_header(b@, at as int) is None,
        }),
{
    let n = b.len();
    if at >= n {
        return Option::None;
    }
    let h = b[at];
    if 0xa0 <= h && h <= 0xbf {
        Option::Some(((h - 0xa0) as usize, 1))
    } else if h == 0xd9 {
        if n - at >= 2 && b[at + 1] > 31 {
            Option::Some((b[at + 1] as usize, 2))
        } else {
            Option::None
        }
    } else if h == 0xda {
        if n - at >= 3 {
            let v = b[at + 1] as usize * 256 + b[at + 2] as usize;
            if v > 0xff {
                Option::Some((v, 3))
            } else {
                Option::None
            }
        } else {
            Option::None
        }
    } else if h == 0xdb {
        if n - at >= 5 {
            let v = b[at + 1] as usize * 0x100_0000 + b[at + 2] as usize * 0x1_0000 + b[at
                + 3] as usize * 256 + b[at + 4] as usize;
            if v > 0xffff {
                Option::Some((v, 5))
            } else {
                Option::None
            }
        } else {
            Option::None
        }
    } else {
        Option::None
    }
}

/// Reads a byte-string header from `b` at index `at`.
fn read_bin_header(b: &Vec<u8>, at: usize) -> (r: Option<(usize, usize)>)
    requires
        at <= b@.len(),
    ensures
        (match r {
            Option::Some(v) => {
                &&& parse_bin_header(b@, at as int) == Option::Some((v.0 as int, v.1 as int))
                &&& at + v.1 <= b@.len()
                &&& v.0 <= 0xffff_ffff
            },
            Option::None => parse_bin_header(b@, at as int) is None,
        }),
{
    let n = b.len();
    if at >= n {
        return Option::None;
    }
    let h = b[at];
    if h == 0xc4 {
        if n - at >= 2 {
            Option::Some((b[at + 1] as usize, 2))
        } else {
            Option::None
        }
    } else if h == 0xc5 {
        if n - at >= 3 {
            let v = b[at + 1] as usize * 256 + b[at + 2] as usize;
            if v > 0xff {
                Option::Some((v, 3))
            } else {
                Option::None
            }
        } else {
            Option::None
        }
    } else if h == 0xc6 {
        if n - at >= 5 {
            let v = b[at + 1] as usize * 0x100_0000 + b[at + 2] as usize * 0x1_0000 + b[at
                + 3] as usize * 256 + b[at + 4] as usize;
            if v > 0xffff {
                Option::Some((v, 5))
            } else {
                Option::None
            }
        } else {
            Option::None
        }
    } else {
        Option::None
    }
}

/// Decodes an envelope from its wire form, strictly: the bytes must be
/// exactly one well-formed envelope encoding, or they are rejected whole.
pub fn decode_envelope(b: &Vec<u8>) -> (r: Result<Envelope, ErrorKind>)
    ensures
        (match r {
            Result::Ok(env) => parse_env(b@) == Option::Some((env.topic@, env.payload@)),
            Result::Err(e) => parse_env(b@) is None && e == ErrorKind::Codec,
        }),
{
    let n = b.len();
    if n < 7 {
        return Result::Err(ErrorKind::Codec);
    }
    let prefix_ok = b[0] == 0x82 && b[1] == 0xa5 && b[2] == 0x74 && b[3] == 0x6f && b[4] == 0x70
        && b[5] == 0x69 && b[6] == 0x63;
    proof {
        if prefix_ok {
            assert(b@.subrange(0, 7) =~= env_prefix());
        } else {
            if b@.subrange(0, 7) == env_prefix() {
                assert(forall|i: int| 0 <= i < 7 ==> b@[i] == #[trigger] b@.subrange(0, 7)[i]);
                assert(false);
            }
        }
    }
    if !prefix_ok {
        return Result::Err(ErrorKind::Codec);
    }
    let (tlen, tsize) = match read_str_header(b, 7) {
        Option::Some(v) => v,
        Option::None => {
            return Result::Err(ErrorKind::Codec);
        },
    };
    let tstart = 7 + tsize;
    if tlen > n - tstart {
        return Result::Err(ErrorKind::Codec);
    }
    let kstart = tstart + tlen;
    if n - kstart < 8 {
        return Result::Err(ErrorKind::Codec);
    }
    let key_ok = b[kstart] == 0xa7 && b[kstart + 1] == 0x70 && b[kstart + 2] == 0x61 && b[kstart
        + 3] == 0x79 && b[kstart + 4] == 0x6c && b[kstart + 5] == 0x6f && b[kstart + 6] == 0x61
        && b[kstart + 7] == 0x64;
    proof {
        if key_ok {
            assert(b@.subrange(kstart as int, kstart + 8) =~= payload_key());
        } else {
            if b@.subrange(kstart as int, kstart + 8) == payload_key() {
                assert(forall|i: int|
                    0 <= i < 8 ==> b@[kstart + i] == #[trigger] b@.subrange(
                        kstart as int,
                        kstart + 8,
                    )[i]);
                assert(false);
            }
        }
    }
    if !key_ok {
        return Result::Err(ErrorKind::Codec);
    }
    let (plen, psize) = match read_bin_header(b, kstart + 8) {
        Option::Some(v) => v,
        Option::None => {
            return Result::Err(ErrorKind::Codec);
        },
    };
    let pstart = kstart + 8 + psize;
    if plen != n - pstart {
        return Result::Err(ErrorKind::Codec);
    }
    let topic = vstd::slice::slice_to_vec(vstd::slice::slice_subrange(b.as_slice(), tstart, kstart));
    let payload = vstd::slice::slice_to_vec(vstd::slice::slice_subrange(b.as_slice(), pstart, n));
    Result::Ok(Envelope { topic, payload })
}

/// The four big-endian bytes of a 32-bit length reassemble to the length.
proof fn lemma_be32_reassemble(len: int)
    requires
        0 <= len <= 0xffff_ffff,
    ensures
        (len / 0x100_0000) * 0x100_0000 + ((len / 0x1_0000) % 256) * 0x1_0000 + ((len / 256) % 256)
            * 256 + (len % 256) == len,
{
    vstd::arithmetic::div_mod::lemma_fundamental_div_mod(len, 256);
    vstd::arithmetic::div_mod::lemma_fundamental_div_mod(len / 256, 256);
    vstd::arithmetic::div_mod::lemma_fundamental_div_mod(len / 0x1_0000, 256);
    vstd::arithmetic::div_mod::lemma_div_denominator(len, 256, 256);
    vstd::arithmetic::div_mod::lemma_div_denominator(len, 0x1_0000, 256);
}

/// Round trip: the strict parse reads back from an encoded envelope exactly
/// the topic and the payload it was built from, whatever their lengths
/// within the wire format's 32-bit bound. For the executable pair this makes
/// `decode_envelope` on the output of `encode_envelope` return the envelope
/// that was encoded.
pub proof fn lemma_env_round_trip(t: Seq<u8>, p: Seq<u8>)
    requires
        t.len() <= 0xffff_ffff,
        p.len() <= 0xffff_ffff,
    ensures
        parse_env(env_bytes(t, p)) == Option::Some((t, p)),
{
    let e = env_bytes(t, p);
    let sh = str_header(t.len() as int);
    let bh = bin_header(p.len() as int);
    let o2 = 7 + sh.len() as int;
    let o3 = o2 + t.len() as int;
    let o4 = o3 + 8;
    let o5 = o4 + bh.len() as int;
    assert(e.len() == o5 + p.len());
    assert(e.subrange(0, 7) =~= env_prefix());
    assert(e.subrange(7, o2) =~= sh);
    assert(e.subrange(o2, o3) =~= t);
    assert(e.subrange(o3, o4) =~= payload_key());
    assert(e.subrange(o4, o5) =~= bh);
    assert(e.subrange(o5, e.len() as int) =~= p);
    let tlen = t.len() as int;
    if tlen <= 31 {
        assert(e[7] == sh[0] && sh[0] == (0xa0 + tlen) as u8);
        assert(parse_str_header(e, 7) == Option::Some((tlen, 1int)));
    } else if tlen <= 0xff {
        assert(e[7] == sh[0] && e[8] == sh[1]);
        assert(parse_str_header(e, 7) == Option::Some((tlen, 2int)));
    } else if tlen <= 0xffff {
        assert(e[7] == sh[0] && e[8] == sh[1] && e[9] == sh[2]);
        vstd::arithmetic::div_mod::lemma_fundamental_div_mod(tlen, 256);
        assert(e[8] * 256 + e[9] == tlen);
        assert(parse_str_header(e, 7) == Option::Some((tlen, 3int)));
    } else {
        assert(e[7] == sh[0] && e[8] == sh[1] && e[9] == sh[2] && e[10] == sh[3] && e[11] == sh[4]);
        lemma_be32_reassemble(tlen);
        assert(be32_at(e, 8) == tlen);
        assert(parse_str_header(e, 7) == Option::Some((tlen, 5int)));
    }
    assert(parse_str_header(e, 7) == Option::Some((tlen, sh.len() as int)));
    let plen = p.len() as int;
    if plen <= 0xff {
        assert(e[o4] == bh[0] && e[o4 + 1] == bh[1]);
        assert(parse_bin_header(e, o4) == Option::Some((plen, 2int)));
    } else if plen <= 0xffff {
        assert(e[o4] == bh[0] && e[o4 + 1] == bh[1] && e[o4 + 2] == bh[2]);
        vstd::arithmetic::div_mod::lemma_fundamental_div_mod(plen, 256);
        assert(e[o4 + 1] * 256 + e[o4 + 2] == plen);
        assert(parse_bin_header(e, o4) == Option::Some((plen, 3int)));
    } else {
        assert(e[o4] == bh[0] && e[o4 + 1] == bh[1] && e[o4 + 2] == bh[2] && e[o4 + 3] == bh[3]
            && e[o4 + 4] == bh[4]);
        lemma_be32_reassemble(plen);
        assert(be32_at(e, o4 + 1) == plen);
        assert(parse_bin_header(e, o4) == Option::Some((plen, 5int)));
    }
    assert(parse_bin_header(e, o4) == Option::Some((plen, bh.len() as int)));
    assert(parse_env(e) == Option::Some((t, p)));
}

/// A value assembled from four big-endian bytes decomposes back into them.
proof fn lemma_be32_bytes(v: int, b0: u8, b1: u8, b2: u8, b3: u8)
    requires
        v == b0 * 0x100_0000 + b1 * 0x1_0000 + b2 * 256 + b3,
    ensures
        v / 0x100_0000 == b0,
        (v / 0x1_0000) % 256 == b1,
        (v / 256) % 256 == b2,
        v % 256 == b3,
{
    vstd::arithmetic::div_mod::lemma_fundamental_div_mod_converse(
        v,
        0x100_0000,
        b0 as int,
        b1 * 0x1_0000 + b2 * 256 + b3,
    );
    vstd::arithmetic::div_mod::lemma_fundamental_div_mod_converse(
        v,
        0x1_0000,
        b0 * 256 + b1,
        b2 * 256 + b3,
    );
    vstd::arithmetic::div_mod::lemma_fundamental_div_mod_converse(
        b0 * 256 + b1,
        256,
        b0 as int,
        b1 as int,
    );
    vstd::arithmetic::div_mod::lemma_fundamental_div_mod_converse(
        v,
        256,
        b0 * 0x1_0000 + b1 * 256 + b2,
        b3 as int,
    );
    vstd::arithmetic::div_mod::lemma_fundamental_div_mod_converse(
        b0 * 0x1_0000 + b1 * 256 + b2,
        256,
        b0 * 256 + b1,
        b2 as int,
    );
}

/// Canonicity: bytes the strict parse accepts as topic `t` and payload `p`
/// are exactly the encoding of that envelope. With the round trip this makes
/// the wire form of an envelope unique, and the parse its inverse.
pub proof fn lemma_parse_env_canonical(b: Seq<u8>, t: Seq<u8>, p: Seq<u8>)
    requires
        parse_env(b) == Option::Some((t, p)),
    ensures
        t.len() <= 0xffff_ffff,
        p.len() <= 0xffff_ffff,
        b == env_bytes(t, p),
{
    assert(b.len() >= 7 && b.subrange(0, 7) == env_prefix());
    let sth = parse_str_header(b, 7);
    assert(sth is Some);
    let (tlen, th) = sth->0;
    let tstart = 7 + th;
    let kstart = tstart + tlen;
    assert(kstart + 8 <= b.len() && b.subrange(kstart, kstart + 8) == payload_key());
    let pbh = parse_bin_header(b, kstart + 8);
    assert(pbh is Some);
    let (plen, ph) = pbh->0;
    let pstart = kstart + 8 + ph;
    assert(pstart + plen == b.len());
    assert(t == b.subrange(tstart, kstart));
    assert(p == b.subrange(pstart, b.len() as int));
    assert(t.len() == tlen);
    assert(p.len() == plen);
    let h = b[7];
    if 0xa0 <= h && h <= 0xbf {
        assert(tlen <= 31 && th == 1);
        assert(b.subrange(7, tstart) =~= str_header(tlen));
    } else if h == 0xd9 {
        assert(31 < tlen <= 0xff && th == 2);
        assert(b.subrange(7, tstart) =~= str_header(tlen));
    } else if h == 0xda {
        assert(0xff < tlen && th == 3);
        assert(tlen == b[8] * 256 + b[9]);
        vstd::arithmetic::div_mod::lemma_fundamental_div_mod_converse(
            tlen,
            256,
            b[8] as int,
            b[9] as int,
        );
        assert(b.subrange(7, tstart) =~= str_header(tlen));
    } else {
        assert(h == 0xdb && 0xffff < tlen && th == 5);
        assert(tlen == be32_at(b, 8));
        lemma_be32_bytes(tlen, b[8], b[9], b[10], b[11]);
        assert(b.subrange(7, tstart) =~= str_header(tlen));
    }
    let g = b[kstart + 8];
    if g == 0xc4 {
        assert(plen <= 0xff && ph == 2);
        assert(b.subrange(kstart + 8, pstart) =~= bin_header(plen));
    } else if g == 0xc5 {
        assert(0xff < plen && ph == 3);
        vstd::arithmetic::div_mod::lemma_fundamental_div_mod_converse(
            plen,
            256,
            b[kstart + 9] as int,
            b[kstart + 10] as int,
        );
        assert(b.subrange(kstart + 8, pstart) =~= bin_header(plen));
    } else {
        assert(g == 0xc6 && 0xffff < plen && ph == 5);
        lemma_be32_bytes(plen, b[kstart + 9], b[kstart + 10], b[kstart + 11], b[kstart + 12]);
        assert(b.subrange(kstart + 8, pstart) =~= bin_header(plen));
    }
    let e = env_bytes(t, p);
    assert(e.len() == b.len());
    assert forall|i: int| 0 <= i < b.len() implies b[i] == e[i] by {
        if i < 7 {
            assert(b.subrange(0, 7)[i] == b[i]);
        } else if i < tstart {
            assert(b.subrange(7, tstart)[i - 7] == b[i]);
        } else if i < kstart {
            assert(b.subrange(tstart, kstart)[i - tstart] == b[i]);
        } else if i < kstart + 8 {
            assert(b.subrange(kstart, kstart + 8)[i - kstart] == b[i]);
        } else if i < pstart {
            assert(b.subrange(kstart + 8, pstart)[i - (kstart + 8)] == b[i]);
        } else {
            assert(b.subrange(pstart, b.len() as int)[i - pstart] == b[i]);
        }
    };
    assert(b =~= e);
}

/// Encodes an envelope in its wire form.
pub fn encode_envelope(env: &Envelope) -> (out: Vec<u8>)
    requires
        env.topic@.len() <= 0xffff_ffff,
        env.payload@.len() <= 0xffff_ffff,
    ensures
        out@ == env_bytes(env.topic@, env.payload@),
{
    let mut out: Vec<u8> = Vec::new();
    out.push(0x82);
    out.push(0xa5);
    out.push(0x74);
    out.push(0x6f);
    out.push(0x70);
    out.push(0x69);
    out.push(0x63);
    assert(out@ =~= env_prefix());
    push_str_header(&mut out, env.topic.len());
    push_bytes(&mut out, env.topic.as_slice());
    out.push(0xa7);
    out.push(0x70);
    out.push(0x61);
    out.push(0x79);
    out.push(0x6c);
    out.push(0x6f);
    out.push(0x61);
    out.push(0x64);
    push_bin_header(&mut out, env.payload.len());
    push_bytes(&mut out, env.payload.as_slice());
    assert(out@ =~= env_bytes(env.topic@, env.payload@));
    out
}

} // verus!
