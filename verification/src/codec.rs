//! Byte-level codec for the durable state document: one tagged line per field
//! of the run-state record, with a length-prefixed fingerprint, so that any
//! record round-trips exactly.

use vstd::prelude::*;
use vstd::utf8::{decode_utf8, encode_utf8, valid_utf8};
use crate::num::{
    dec_bytes, dec_value, digit_run_end, is_dec_digit, lemma_digit_run_of_dec_bytes,
    parse_dec_u64, push_dec_u64,
};
use crate::state::{CaptureServiceState, CaptureServiceStatus};
use vstd::string::StrSliceExecFns;

verus! {

/// Byte values of the document's framing characters and field tags.
pub const NL: u8 = 10;
pub const SP: u8 = 32;
pub const DASH: u8 = 45;
pub const DIGIT_ZERO: u8 = 48;
pub const DIGIT_ONE: u8 = 49;
pub const TAG_STATUS: u8 = 115;
pub const TAG_START: u8 = 97;
pub const TAG_STOP: u8 = 111;
pub const TAG_CAPTURES: u8 = 99;
pub const TAG_CAPTURED: u8 = 108;
pub const TAG_FINGERPRINT: u8 = 102;

/// The parsed fields of a state document, with the fingerprint still in its
/// on-disk byte form.
pub struct StateDocFields {
    pub status: CaptureServiceStatus,
    pub last_start_time: Option<u64>,
    pub last_stop_time: Option<u64>,
    pub total_captures: u64,
    pub last_capture_time: Option<u64>,
    pub fp_bytes: Seq<u8>,
}

pub open spec fn spec_encode_opt(v: Option<u64>) -> Seq<u8> {
    match v {
        None => seq![DASH],
        Some(n) => dec_bytes(n as nat),
    }
}

pub open spec fn status_byte(s: CaptureServiceStatus) -> u8 {
    if s is Running {
        DIGIT_ONE
    } else {
        DIGIT_ZERO
    }
}

/// One tagged line: the tag byte, a space, the payload, a newline.
pub open spec fn spec_line(tag: u8, payload: Seq<u8>) -> Seq<u8> {
    seq![tag, SP] + payload + seq![NL]
}

/// The whole state document for a record.
pub open spec fn spec_encode_state(s: CaptureServiceState) -> Seq<u8> {
    let fp = encode_utf8(s.config_fingerprint@);
    spec_line(TAG_STATUS, seq![status_byte(s.status)]) + spec_line(
        TAG_START,
        spec_encode_opt(s.last_start_time),
    ) + spec_line(TAG_STOP, spec_encode_opt(s.last_stop_time)) + spec_line(
        TAG_CAPTURES,
        dec_bytes(s.total_captures as nat),
    ) + spec_line(TAG_CAPTURED, spec_encode_opt(s.last_capture_time)) + spec_line(
        TAG_FINGERPRINT,
        dec_bytes(fp.len()) + seq![SP] + fp,
    )
}

/// An optional number at `pos`: `-` for absent, else a digit run whose value
/// fits in a `u64`.
pub open spec fn spec_parse_opt_u64_at(s: Seq<u8>, pos: int) -> Option<(Option<u64>, int)> {
    if pos < s.len() && s[pos] == DASH {
        Some((None, pos + 1))
    } else {
        let end = digit_run_end(s, pos);
        if pos < end && dec_value(s.subrange(pos, end)) <= u64::MAX {
            Some((Some(dec_value(s.subrange(pos, end)) as u64), end))
        } else {
            None
        }
    }
}

/// A `u64` at `pos`: a digit run whose value fits.
pub open spec fn spec_parse_u64_at(s: Seq<u8>, pos: int) -> Option<(u64, int)> {
    let end = digit_run_end(s, pos);
    if pos < end && dec_value(s.subrange(pos, end)) <= u64::MAX {
        Some((dec_value(s.subrange(pos, end)) as u64, end))
    } else {
        None
    }
}

/// `<tag> <opt>\n` starting at `pos`.
pub open spec fn spec_parse_opt_line(s: Seq<u8>, pos: int, tag: u8) -> Option<(Option<u64>, int)> {
    if pos + 2 <= s.len() && s[pos] == tag && s[pos + 1] == SP {
        match spec_parse_opt_u64_at(s, pos + 2) {
            Some((v, e)) => if e < s.len() && s[e] == NL {
                Some((v, e + 1))
            } else {
                None
            },
            None => None,
        }
    } else {
        None
    }
}

/// `<tag> <u64>\n` starting at `pos`.
pub open spec fn spec_parse_u64_line(s: Seq<u8>, pos: int, tag: u8) -> Option<(u64, int)> {
    if pos + 2 <= s.len() && s[pos] == tag && s[pos + 1] == SP {
        match spec_parse_u64_at(s, pos + 2) {
            Some((v, e)) => if e < s.len() && s[e] == NL {
                Some((v, e + 1))
            } else {
                None
            },
            None => None,
        }
    } else {
        None
    }
}

/// `s <0|1>\n` starting at `pos`.
pub open spec fn spec_parse_status_line(s: Seq<u8>, pos: int) -> Option<(
    CaptureServiceStatus,
    int,
)> {
    if pos + 4 <= s.len() && s[pos] == TAG_STATUS && s[pos + 1] == SP && (s[pos + 2] == DIGIT_ZERO || s[pos
        + 2] == DIGIT_ONE) && s[pos + 3] == NL {
        let st = if s[pos + 2] == DIGIT_ONE {
            CaptureServiceStatus::Running
        } else {
            CaptureServiceStatus::Stopped
        };
        Some((st, pos + 4))
    } else {
        None
    }
}

/// `f <len> <len bytes>\n` starting at `pos`.
pub open spec fn spec_parse_fp_line(s: Seq<u8>, pos: int) -> Option<(Seq<u8>, int)> {
    if pos + 2 <= s.len() && s[pos] == TAG_FINGERPRINT && s[pos + 1] == SP {
        match spec_parse_u64_at(s, pos + 2) {
            Some((n, e)) => if e < s.len() && s[e] == SP && e + 1 + n + 1 <= s.len() && s[e + 1
                + n] == NL {
                Some((s.subrange(e + 1, e + 1 + n), e + n + 2))
            } else {
                None
            },
            None => None,
        }
    } else {
        None
    }
}

/// The whole document starting at `pos`; self-delimiting, so it may be
/// followed by further bytes.
pub open spec fn spec_parse_state_at(s: Seq<u8>, pos: int) -> Option<(StateDocFields, int)> {
    match spec_parse_status_line(s, pos) {
        None => None,
        Some((status, p1)) => match spec_parse_opt_line(s, p1, TAG_START) {
            None => None,
            Some((a, p2)) => match spec_parse_opt_line(s, p2, TAG_STOP) {
                None => None,
                Some((o, p3)) => match spec_parse_u64_line(s, p3, TAG_CAPTURES) {
                    None => None,
                    Some((c, p4)) => match spec_parse_opt_line(s, p4, TAG_CAPTURED) {
                        None => None,
                        Some((l, p5)) => match spec_parse_fp_line(s, p5) {
                            None => None,
                            Some((fp, p6)) => Some(
                                (
                                    StateDocFields {
                                        status,
                                        last_start_time: a,
                                        last_stop_time: o,
                                        total_captures: c,
                                        last_capture_time: l,
                                        fp_bytes: fp,
                                    },
                                    p6,
                                ),
                            ),
                        },
                    },
                },
            },
        },
    }
}

/// The whole buffer as one document, nothing following.
pub open spec fn spec_parse_state(s: Seq<u8>) -> Option<StateDocFields> {
    match spec_parse_state_at(s, 0) {
        None => None,
        Some((f, e)) => if e == s.len() {
            Some(f)
        } else {
            None
        },
    }
}

/// Appends `- ` or the digits of the value, between a tag and a newline.
fn push_opt_line(out: &mut Vec<u8>, tag: u8, v: Option<u64>)
    ensures
        final(out)@ == old(out)@ + spec_line(tag, spec_encode_opt(v)),
{
    out.push(tag);
    out.push(SP);
    match v {
        None => out.push(DASH),
        Some(n) => push_dec_u64(out, n),
    }
    out.push(NL);
    assert(final(out)@ =~= old(out)@ + spec_line(tag, spec_encode_opt(v)));
}

/// Encodes a record as the byte document that is persisted in full on every
/// mutation.
pub fn encode_state(s: &CaptureServiceState) -> (out: Vec<u8>)
    ensures
        out@ == spec_encode_state(*s),
{
    let mut out: Vec<u8> = Vec::new();
    out.push(TAG_STATUS);
    out.push(SP);
    out.push(
        match s.status {
            CaptureServiceStatus::Running => DIGIT_ONE,
            CaptureServiceStatus::Stopped => DIGIT_ZERO,
        },
    );
    out.push(NL);
    assert(out@ =~= spec_line(TAG_STATUS, seq![status_byte(s.status)]));
    push_opt_line(&mut out, TAG_START, s.last_start_time);
    push_opt_line(&mut out, TAG_STOP, s.last_stop_time);
    out.push(TAG_CAPTURES);
    out.push(SP);
    push_dec_u64(&mut out, s.total_captures);
    out.push(NL);
    push_opt_line(&mut out, TAG_CAPTURED, s.last_capture_time);
    let mut fp = s.config_fingerprint.as_str().as_bytes_vec();
    out.push(TAG_FINGERPRINT);
    out.push(SP);
    push_dec_u64(&mut out, fp.len() as u64);
    out.push(SP);
    out.append(&mut fp);
    out.push(NL);
    assert(out@ =~= spec_encode_state(*s));
    out
}

/// Relies on `String::from_utf8`: it succeeds exactly on valid UTF-8 and the
/// resulting string holds the characters those bytes encode.
#[verifier::external_body]
pub(crate) fn bytes_to_string(v: Vec<u8>) -> (r: Option<String>)
    ensures
        r is Some <==> valid_utf8(v@),
        r is Some ==> r->0@ == decode_utf8(v@),
{
    match String::from_utf8(v) {
        Ok(s) => Some(s),
        Err(_) => None,
    }
}

fn parse_opt_u64_at(buf: &Vec<u8>, pos: usize) -> (r: Option<(Option<u64>, usize)>)
    requires
        pos <= buf@.len(),
    ensures
        match spec_parse_opt_u64_at(buf@, pos as int) {
            None => r is None,
            Some((v, e)) => r is Some && (r->0).0 == v && (r->0).1 == e,
        },
{
    if pos < buf.len() && buf[pos] == DASH {
        Some((None, pos + 1))
    } else {
        match parse_dec_u64(buf, pos) {
            None => None,
            Some((n, e)) => Some((Some(n), e)),
        }
    }
}

fn parse_opt_line(buf: &Vec<u8>, pos: usize, tag: u8) -> (r: Option<(Option<u64>, usize)>)
    requires
        pos <= buf@.len(),
    ensures
        match spec_parse_opt_line(buf@, pos as int, tag) {
            None => r is None,
            Some((v, e)) => r is Some && (r->0).0 == v && (r->0).1 == e,
        },
{
    if pos < buf.len() && buf[pos] == tag && pos + 1 < buf.len() && buf[pos + 1] == SP {
        match parse_opt_u64_at(buf, pos + 2) {
            None => None,
            Some((v, e)) => {
                if e < buf.len() && buf[e] == NL {
                    Some((v, e + 1))
                } else {
                    None
                }
            },
        }
    } else {
        None
    }
}

fn parse_u64_line(buf: &Vec<u8>, pos: usize, tag: u8) -> (r: Option<(u64, usize)>)
    requires
        pos <= buf@.len(),
    ensures
        match spec_parse_u64_line(buf@, pos as int, tag) {
            None => r is None,
            Some((v, e)) => r is Some && (r->0).0 == v && (r->0).1 == e,
        },
{
    if pos < buf.len() && buf[pos] == tag && pos + 1 < buf.len() && buf[pos + 1] == SP {
        match parse_dec_u64(buf, pos + 2) {
            None => None,
            Some((v, e)) => {
                if e < buf.len() && buf[e] == NL {
                    Some((v, e + 1))
                } else {
                    None
                }
            },
        }
    } else {
        None
    }
}

fn parse_status_line(buf: &Vec<u8>, pos: usize) -> (r: Option<(CaptureServiceStatus, usize)>)
    requires
        pos <= buf@.len(),
    ensures
        match spec_parse_status_line(buf@, pos as int) {
            None => r is None,
            Some((v, e)) => r is Some && (r->0).0 == v && (r->0).1 == e,
        },
{
    if pos < buf.len() && pos + 1 < buf.len() && pos + 2 < buf.len() && pos + 3 < buf.len()
        && buf[pos] == TAG_STATUS && buf[pos + 1] == SP && (buf[pos + 2] == DIGIT_ZERO
        || buf[pos + 2] == DIGIT_ONE) && buf[pos + 3] == NL {
        let st = if buf[pos + 2] == DIGIT_ONE {
            CaptureServiceStatus::Running
        } else {
            CaptureServiceStatus::Stopped
        };
        Some((st, pos + 4))
    } else {
        None
    }
}

/// Copies `buf[pos .. pos + n]` out of the buffer.
pub(crate) fn copy_range(buf: &Vec<u8>, pos: usize, n: usize) -> (out: Vec<u8>)
    requires
        pos + n <= buf@.len(),
    ensures
        out@ == buf@.subrange(pos as int, pos + n),
{
    let mut out: Vec<u8> = Vec::new();
    let blen = buf.len();
    let mut i: usize = 0;
    while i < n
        invariant
            0 <= i <= n,
            pos + n <= blen == buf@.len(),
            out@ == buf@.subrange(pos as int, pos + i),
        decreases n - i,
    {
        out.push(buf[pos + i]);
        assert(out@ =~= buf@.subrange(pos as int, pos + i + 1));
        i = i + 1;
    }
    out
}

fn parse_fp_line(buf: &Vec<u8>, pos: usize) -> (r: Option<(Vec<u8>, usize)>)
    requires
        pos <= buf@.len(),
    ensures
        match spec_parse_fp_line(buf@, pos as int) {
            None => r is None,
            Some((fp, e)) => {
                &&& r is Some
                &&& (r->0).0@ == fp
                &&& (r->0).1 == e
            },
        },
{
    if pos < buf.len() && buf[pos] == TAG_FINGERPRINT && pos + 1 < buf.len() && buf[pos + 1] == SP {
        match parse_dec_u64(buf, pos + 2) {
            None => None,
            Some((n, e)) => {
                if e < buf.len() && buf[e] == SP && n <= u64::MAX - 2 && (n + 2 <= (buf.len()
                    - e) as u64) && buf[e + 1 + (n as usize)] == NL {
                    let fp = copy_range(buf, e + 1, n as usize);
                    Some((fp, e + (n as usize) + 2))
                } else {
                    None
                }
            },
        }
    } else {
        None
    }
}

/// Parses a whole buffer as one state document. Returns the record it
/// describes, or `None` when the buffer is not exactly one well-formed
/// document (the caller then falls back to the default record).
pub fn parse_state(buf: &Vec<u8>) -> (r: Option<CaptureServiceState>)
    ensures
        match spec_parse_state(buf@) {
            None => r is None,
            Some(f) => {
                if valid_utf8(f.fp_bytes) {
                    &&& r is Some
                    &&& r->0.status == f.status
                    &&& r->0.last_start_time == f.last_start_time
                    &&& r->0.last_stop_time == f.last_stop_time
                    &&& r->0.total_captures == f.total_captures
                    &&& r->0.last_capture_time == f.last_capture_time
                    &&& r->0.config_fingerprint@ == decode_utf8(f.fp_bytes)
                } else {
                    r is None
                }
            },
        },
{
    match parse_state_at(buf, 0) {
        None => None,
        Some((record, end)) => {
            if end == buf.len() {
                Some(record)
            } else {
                None
            }
        },
    }
}

/// Parses one state document starting at `pos`; the document is
/// self-delimiting, so the buffer may continue past it.
pub fn parse_state_at(buf: &Vec<u8>, pos: usize) -> (r: Option<(CaptureServiceState, usize)>)
    requires
        pos <= buf@.len(),
    ensures
        match spec_parse_state_at(buf@, pos as int) {
            None => r is None,
            Some((f, e)) => {
                if valid_utf8(f.fp_bytes) {
                    &&& r is Some
                    &&& (r->0).1 == e
                    &&& (r->0).0.status == f.status
                    &&& (r->0).0.last_start_time == f.last_start_time
                    &&& (r->0).0.last_stop_time == f.last_stop_time
                    &&& (r->0).0.total_captures == f.total_captures
                    &&& (r->0).0.last_capture_time == f.last_capture_time
                    &&& (r->0).0.config_fingerprint@ == decode_utf8(f.fp_bytes)
                } else {
                    r is None
                }
            },
        },
{
    let (status, p1) = match parse_status_line(buf, pos) {
        None => return None,
        Some(x) => x,
    };
    let (a, p2) = match parse_opt_line(buf, p1, TAG_START) {
        None => return None,
        Some(x) => x,
    };
    let (o, p3) = match parse_opt_line(buf, p2, TAG_STOP) {
        None => return None,
        Some(x) => x,
    };
    let (c, p4) = match parse_u64_line(buf, p3, TAG_CAPTURES) {
        None => return None,
        Some(x) => x,
    };
    let (l, p5) = match parse_opt_line(buf, p4, TAG_CAPTURED) {
        None => return None,
        Some(x) => x,
    };
    let (fp, p6) = match parse_fp_line(buf, p5) {
        None => return None,
        Some(x) => x,
    };
    let fingerprint = match bytes_to_string(fp) {
        None => return None,
        Some(s) => s,
    };
    Some(
        (
            CaptureServiceState {
                status,
                last_start_time: a,
                last_stop_time: o,
                total_captures: c,
                last_capture_time: l,
                config_fingerprint: fingerprint,
            },
            p6,
        ),
    )
}

/// A buffer agrees pointwise with a piece that stands in it as a subrange.
pub(crate) proof fn lemma_bytes_at(buf: Seq<u8>, pos: int, piece: Seq<u8>)
    requires
        0 <= pos,
        pos + piece.len() <= buf.len(),
        buf.subrange(pos, pos + piece.len() as int) == piece,
    ensures
        forall|k: int| 0 <= k < piece.len() ==> buf[pos + k] == #[trigger] piece[k],
{
    assert forall|k: int| 0 <= k < piece.len() implies buf[pos + k] == #[trigger] piece[k] by {
        assert(buf.subrange(pos, pos + piece.len() as int)[k] == buf[pos + k]);
    }
}

/// A piece of a subrange of the buffer is a subrange of the buffer.
pub(crate) proof fn lemma_concat_piece(buf: Seq<u8>, pos: int, enc: Seq<u8>, off: int, piece: Seq<u8>)
    requires
        0 <= pos,
        pos + enc.len() <= buf.len(),
        buf.subrange(pos, pos + enc.len() as int) == enc,
        0 <= off,
        off + piece.len() <= enc.len(),
        enc.subrange(off, off + piece.len() as int) == piece,
    ensures
        buf.subrange(pos + off, pos + off + piece.len() as int) == piece,
{
    lemma_bytes_at(buf, pos, enc);
    lemma_bytes_at(enc, off, piece);
    assert(buf.subrange(pos + off, pos + off + piece.len() as int) =~= piece);
}

/// The encoded status line parses back to the status.
proof fn lemma_parse_status_encoded(buf: Seq<u8>, pos: int, st: CaptureServiceStatus)
    requires
        0 <= pos,
        pos + 4 <= buf.len(),
        buf.subrange(pos, pos + 4) == spec_line(TAG_STATUS, seq![status_byte(st)]),
    ensures
        spec_parse_status_line(buf, pos) == Some((st, pos + 4)),
{
    let piece = spec_line(TAG_STATUS, seq![status_byte(st)]);
    lemma_bytes_at(buf, pos, piece);
    assert(piece[0] == TAG_STATUS && piece[1] == SP && piece[2] == status_byte(st) && piece[3]
        == NL);
    assert(buf[pos + 0] == piece[0] && buf[pos + 1] == piece[1] && buf[pos + 2] == piece[2]
        && buf[pos + 3] == piece[3]);
}

/// An encoded optional-number line parses back to the value.
proof fn lemma_parse_opt_encoded(buf: Seq<u8>, pos: int, tag: u8, v: Option<u64>)
    requires
        0 <= pos,
        pos + spec_line(tag, spec_encode_opt(v)).len() <= buf.len(),
        buf.subrange(pos, pos + spec_line(tag, spec_encode_opt(v)).len() as int) == spec_line(
            tag,
            spec_encode_opt(v),
        ),
    ensures
        spec_parse_opt_line(buf, pos, tag) == Some(
            (v, pos + spec_line(tag, spec_encode_opt(v)).len()),
        ),
{
    let piece = spec_line(tag, spec_encode_opt(v));
    let pl = spec_encode_opt(v).len() as int;
    lemma_bytes_at(buf, pos, piece);
    assert(piece[0] == tag && piece[1] == SP && piece[2 + pl] == NL);
    assert(buf[pos + 0] == piece[0] && buf[pos + 1] == piece[1] && buf[pos + 2 + pl] == piece[2
        + pl]);
    match v {
        None => {
            assert(piece[2] == DASH);
            assert(buf[pos + 2] == piece[2]);
            assert(spec_parse_opt_u64_at(buf, pos + 2) == Some((None::<u64>, pos + 3)));
        },
        Some(n) => {
            crate::num::lemma_dec_bytes_digits(n as nat);
            assert forall|k: int| 0 <= k < pl implies buf[pos + 2 + k] == #[trigger] dec_bytes(
                n as nat,
            )[k] by {
                assert(piece[2 + k] == dec_bytes(n as nat)[k]);
            }
            assert(buf.subrange(pos + 2, pos + 2 + pl) =~= dec_bytes(n as nat));
            assert(!is_dec_digit(NL));
            lemma_digit_run_of_dec_bytes(buf, pos + 2, n as nat);
            assert(buf[pos + 2] != DASH);
            assert(spec_parse_opt_u64_at(buf, pos + 2) == Some((Some(n), pos + 2 + pl)));
        },
    }
}

/// The encoded capture-count line parses back to the count.
proof fn lemma_parse_u64_encoded(buf: Seq<u8>, pos: int, tag: u8, n: u64)
    requires
        0 <= pos,
        pos + spec_line(tag, dec_bytes(n as nat)).len() <= buf.len(),
        buf.subrange(pos, pos + spec_line(tag, dec_bytes(n as nat)).len() as int) == spec_line(
            tag,
            dec_bytes(n as nat),
        ),
    ensures
        spec_parse_u64_line(buf, pos, tag) == Some(
            (n, pos + spec_line(tag, dec_bytes(n as nat)).len()),
        ),
{
    let piece = spec_line(tag, dec_bytes(n as nat));
    let pl = dec_bytes(n as nat).len() as int;
    lemma_bytes_at(buf, pos, piece);
    assert(piece[0] == tag && piece[1] == SP && piece[2 + pl] == NL);
    assert(buf[pos + 0] == piece[0] && buf[pos + 1] == piece[1] && buf[pos + 2 + pl] == piece[2
        + pl]);
    assert forall|k: int| 0 <= k < pl implies buf[pos + 2 + k] == #[trigger] dec_bytes(n as nat)[k]
        by {
        assert(piece[2 + k] == dec_bytes(n as nat)[k]);
    }
    assert(buf.subrange(pos + 2, pos + 2 + pl) =~= dec_bytes(n as nat));
    assert(!is_dec_digit(NL));
    lemma_digit_run_of_dec_bytes(buf, pos + 2, n as nat);
    assert(spec_parse_u64_at(buf, pos + 2) == Some((n, pos + 2 + pl)));
}

/// The encoded fingerprint line parses back to the same bytes.
proof fn lemma_parse_fp_encoded(buf: Seq<u8>, pos: int, fp: Seq<u8>)
    requires
        0 <= pos,
        fp.len() <= u64::MAX,
        pos + spec_line(TAG_FINGERPRINT, dec_bytes(fp.len()) + seq![SP] + fp).len() <= buf.len(),
        buf.subrange(
            pos,
            pos + spec_line(TAG_FINGERPRINT, dec_bytes(fp.len()) + seq![SP] + fp).len() as int,
        ) == spec_line(TAG_FINGERPRINT, dec_bytes(fp.len()) + seq![SP] + fp),
    ensures
        spec_parse_fp_line(buf, pos) == Some(
            (fp, pos + spec_line(TAG_FINGERPRINT, dec_bytes(fp.len()) + seq![SP] + fp).len()),
        ),
{
    let piece = spec_line(TAG_FINGERPRINT, dec_bytes(fp.len()) + seq![SP] + fp);
    let dl = dec_bytes(fp.len()).len() as int;
    let n = fp.len() as int;
    lemma_bytes_at(buf, pos, piece);
    assert(piece[0] == TAG_FINGERPRINT && piece[1] == SP);
    assert(buf[pos + 0] == piece[0] && buf[pos + 1] == piece[1]);
    assert forall|k: int| 0 <= k < dl implies buf[pos + 2 + k] == #[trigger] dec_bytes(
        fp.len(),
    )[k] by {
        assert(piece[2 + k] == dec_bytes(fp.len())[k]);
    }
    assert(buf.subrange(pos + 2, pos + 2 + dl) =~= dec_bytes(fp.len()));
    assert(piece[2 + dl] == SP);
    assert(buf[pos + 2 + dl] == piece[2 + dl]);
    assert(!is_dec_digit(SP));
    lemma_digit_run_of_dec_bytes(buf, pos + 2, fp.len());
    let e = pos + 2 + dl;
    assert(spec_parse_u64_at(buf, pos + 2) == Some((fp.len() as u64, e)));
    assert forall|k: int| 0 <= k < n implies buf[e + 1 + k] == #[trigger] fp[k] by {
        assert(piece[2 + dl + 1 + k] == fp[k]);
    }
    assert(piece[2 + dl + 1 + n] == NL);
    assert(buf[e + 1 + n] == piece[2 + dl + 1 + n]);
    assert(buf.subrange(e + 1, e + 1 + n) =~= fp);
}

/// An encoded state document standing anywhere in a buffer parses back to the
/// record's fields, ending exactly at the document's end.
pub proof fn lemma_parse_encoded_state_at(s: CaptureServiceState, buf: Seq<u8>, pos: int)
    requires
        0 <= pos,
        encode_utf8(s.config_fingerprint@).len() <= u64::MAX,
        pos + spec_encode_state(s).len() <= buf.len(),
        buf.subrange(pos, pos + spec_encode_state(s).len() as int) == spec_encode_state(s),
    ensures
        ({
            let r = spec_parse_state_at(buf, pos);
            &&& r is Some
            &&& (r->0).1 == pos + spec_encode_state(s).len()
            &&& (r->0).0.status == s.status
            &&& (r->0).0.last_start_time == s.last_start_time
            &&& (r->0).0.last_stop_time == s.last_stop_time
            &&& (r->0).0.total_captures == s.total_captures
            &&& (r->0).0.last_capture_time == s.last_capture_time
            &&& (r->0).0.fp_bytes == encode_utf8(s.config_fingerprint@)
        }),
{
    let fp = encode_utf8(s.config_fingerprint@);
    let enc = spec_encode_state(s);
    let l1 = spec_line(TAG_STATUS, seq![status_byte(s.status)]);
    let l2 = spec_line(TAG_START, spec_encode_opt(s.last_start_time));
    let l3 = spec_line(TAG_STOP, spec_encode_opt(s.last_stop_time));
    let l4 = spec_line(TAG_CAPTURES, dec_bytes(s.total_captures as nat));
    let l5 = spec_line(TAG_CAPTURED, spec_encode_opt(s.last_capture_time));
    let l6 = spec_line(TAG_FINGERPRINT, dec_bytes(fp.len()) + seq![SP] + fp);
    let o2 = l1.len() as int;
    let o3 = o2 + l2.len();
    let o4 = o3 + l3.len();
    let o5 = o4 + l4.len();
    let o6 = o5 + l5.len();
    assert(enc == l1 + l2 + l3 + l4 + l5 + l6);
    assert(enc.subrange(0, o2) =~= l1);
    assert(enc.subrange(o2, o3) =~= l2);
    assert(enc.subrange(o3, o4) =~= l3);
    assert(enc.subrange(o4, o5) =~= l4);
    assert(enc.subrange(o5, o6) =~= l5);
    assert(enc.subrange(o6, enc.len() as int) =~= l6);
    lemma_concat_piece(buf, pos, enc, 0, l1);
    lemma_concat_piece(buf, pos, enc, o2, l2);
    lemma_concat_piece(buf, pos, enc, o3, l3);
    lemma_concat_piece(buf, pos, enc, o4, l4);
    lemma_concat_piece(buf, pos, enc, o5, l5);
    lemma_concat_piece(buf, pos, enc, o6, l6);
    lemma_parse_status_encoded(buf, pos, s.status);
    lemma_parse_opt_encoded(buf, pos + o2, TAG_START, s.last_start_time);
    lemma_parse_opt_encoded(buf, pos + o3, TAG_STOP, s.last_stop_time);
    lemma_parse_u64_encoded(buf, pos + o4, TAG_CAPTURES, s.total_captures);
    lemma_parse_opt_encoded(buf, pos + o5, TAG_CAPTURED, s.last_capture_time);
    lemma_parse_fp_encoded(buf, pos + o6, fp);
}

/// The state document codec is lossless: parsing what `spec_encode_state`
/// produced yields exactly the record's fields, and the fingerprint bytes
/// decode to the original fingerprint.
pub proof fn lemma_state_doc_round_trip(s: CaptureServiceState)
    requires
        encode_utf8(s.config_fingerprint@).len() <= u64::MAX,
    ensures
        ({
            let f = spec_parse_state(spec_encode_state(s));
            &&& f is Some
            &&& f->0.status == s.status
            &&& f->0.last_start_time == s.last_start_time
            &&& f->0.last_stop_time == s.last_stop_time
            &&& f->0.total_captures == s.total_captures
            &&& f->0.last_capture_time == s.last_capture_time
            &&& valid_utf8(f->0.fp_bytes)
            &&& decode_utf8(f->0.fp_bytes) == s.config_fingerprint@
        }),
{
    let enc = spec_encode_state(s);
    assert(enc.subrange(0, enc.len() as int) =~= enc);
    lemma_parse_encoded_state_at(s, enc, 0);
    vstd::utf8::encode_utf8_valid_utf8(s.config_fingerprint@);
    vstd::utf8::encode_utf8_decode_utf8(s.config_fingerprint@);
}


} // verus!
