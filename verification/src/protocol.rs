//! The local control protocol: one command per connection, one reply. The
//! command wire form is the quoted word a JSON encoder produces for a bare
//! enum variant; the reply is a tagged byte document that can carry a full
//! state record.

use vstd::prelude::*;
use vstd::string::StringExecFns;
use vstd::utf8::{decode_utf8, encode_utf8, valid_utf8};
use crate::codec::{
    bytes_to_string, parse_state_at, spec_encode_state, spec_parse_state_at, spec_parse_u64_at,
    StateDocFields, DIGIT_ONE, DIGIT_ZERO, NL, SP,
};
use crate::config::Config;
use crate::num::{dec_bytes, is_dec_digit, parse_dec_u64, push_dec_u64};
use crate::state::{spec_start, spec_stop, CaptureServiceState, ServiceStateManager};

verus! {

/// Byte values used on the wire.
pub const QUOTE: u8 = 34;
pub const TAB: u8 = 9;
pub const CR: u8 = 13;
pub const UPPER_S: u8 = 83;
pub const LOWER_A: u8 = 97;
pub const LOWER_O: u8 = 111;
pub const LOWER_P: u8 = 112;
pub const LOWER_R: u8 = 114;
pub const LOWER_S: u8 = 115;
pub const LOWER_T: u8 = 116;
pub const LOWER_U: u8 = 117;
pub const TAG_REPLY: u8 = 114;
pub const STATE_PRESENT: u8 = 121;
pub const STATE_ABSENT: u8 = 110;

/// A control command, one per connection.
#[derive(Clone, Copy, Debug, PartialEq, Eq, Structural)]
pub enum ServiceCommand {
    Start,
    Stop,
    Status,
}

/// The reply to a control command. `state` is a snapshot of the run-state
/// record.
pub struct ServiceResponse {
    pub success: bool,
    pub message: String,
    pub state: Option<CaptureServiceState>,
}

/// What the capture supervisor is told to do after a command is dispatched.
#[derive(Clone, Copy, Debug, PartialEq, Eq, Structural)]
pub enum SupervisorAction {
    SpawnCaptureLoop,
    AbortCaptureLoop,
    NoChange,
}

pub open spec fn is_ws(b: u8) -> bool {
    b == SP || b == TAB || b == NL || b == CR
}

/// The first position at or after `pos` that does not hold whitespace.
pub open spec fn ws_run_end(s: Seq<u8>, pos: int) -> int
    decreases s.len() - pos,
{
    if pos < 0 || pos >= s.len() || !is_ws(s[pos]) {
        pos
    } else {
        ws_run_end(s, pos + 1)
    }
}

pub open spec fn spec_encode_command(c: ServiceCommand) -> Seq<u8> {
    match c {
        ServiceCommand::Start => seq![QUOTE, UPPER_S, LOWER_T, LOWER_A, LOWER_R, LOWER_T, QUOTE],
        ServiceCommand::Stop => seq![QUOTE, UPPER_S, LOWER_T, LOWER_O, LOWER_P, QUOTE],
        ServiceCommand::Status => seq![
            QUOTE,
            UPPER_S,
            LOWER_T,
            LOWER_A,
            LOWER_T,
            LOWER_U,
            LOWER_S,
            QUOTE,
        ],
    }
}

pub open spec fn matches_start(s: Seq<u8>, i: int) -> bool {
    &&& i + 7 <= s.len()
    &&& s[i] == QUOTE
    &&& s[i + 1] == UPPER_S
    &&& s[i + 2] == LOWER_T
    &&& s[i + 3] == LOWER_A
    &&& s[i + 4] == LOWER_R
    &&& s[i + 5] == LOWER_T
    &&& s[i + 6] == QUOTE
}

pub open spec fn matches_stop(s: Seq<u8>, i: int) -> bool {
    &&& i + 6 <= s.len()
    &&& s[i] == QUOTE
    &&& s[i + 1] == UPPER_S
    &&& s[i + 2] == LOWER_T
    &&& s[i + 3] == LOWER_O
    &&& s[i + 4] == LOWER_P
    &&& s[i + 5] == QUOTE
}

pub open spec fn matches_status(s: Seq<u8>, i: int) -> bool {
    &&& i + 8 <= s.len()
    &&& s[i] == QUOTE
    &&& s[i + 1] == UPPER_S
    &&& s[i + 2] == LOWER_T
    &&& s[i + 3] == LOWER_A
    &&& s[i + 4] == LOWER_T
    &&& s[i + 5] == LOWER_U
    &&& s[i + 6] == LOWER_S
    &&& s[i + 7] == QUOTE
}

/// Decodes a whole buffer as one command: a quoted command word, surrounded
/// by nothing but whitespace.
pub open spec fn spec_parse_command(s: Seq<u8>) -> Option<ServiceCommand> {
    let i = ws_run_end(s, 0);
    if matches_start(s, i) {
        if ws_run_end(s, i + 7) == s.len() {
            Some(ServiceCommand::Start)
        } else {
            None
        }
    } else if matches_stop(s, i) {
        if ws_run_end(s, i + 6) == s.len() {
            Some(ServiceCommand::Stop)
        } else {
            None
        }
    } else if matches_status(s, i) {
        if ws_run_end(s, i + 8) == s.len() {
            Some(ServiceCommand::Status)
        } else {
            None
        }
    } else {
        None
    }
}

/// Encodes a command for the wire.
pub fn encode_command(c: &ServiceCommand) -> (out: Vec<u8>)
    ensures
        out@ == spec_encode_command(*c),
{
    let mut out: Vec<u8> = Vec::new();
    out.push(QUOTE);
    out.push(UPPER_S);
    out.push(LOWER_T);
    match c {
        ServiceCommand::Start => {
            out.push(LOWER_A);
            out.push(LOWER_R);
            out.push(LOWER_T);
        },
        ServiceCommand::Stop => {
            out.push(LOWER_O);
            out.push(LOWER_P);
        },
        ServiceCommand::Status => {
            out.push(LOWER_A);
            out.push(LOWER_T);
            out.push(LOWER_U);
            out.push(LOWER_S);
        },
    }
    out.push(QUOTE);
    assert(out@ =~= spec_encode_command(*c));
    out
}

/// Moves past any whitespace starting at `pos`.
fn skip_ws(buf: &Vec<u8>, pos: usize) -> (r: usize)
    requires
        pos <= buf@.len(),
    ensures
        r == ws_run_end(buf@, pos as int),
        pos <= r <= buf@.len(),
{
    let n = buf.len();
    let mut i: usize = pos;
    while i < n && (buf[i] == SP || buf[i] == TAB || buf[i] == NL || buf[i] == CR)
        invariant
            pos <= i <= n == buf@.len(),
            ws_run_end(buf@, pos as int) == ws_run_end(buf@, i as int),
        decreases n - i,
    {
        i = i + 1;
    }
    i
}

/// Decodes the entire buffer as one command, as the server does with
/// whatever one connection delivered.
pub fn parse_command(buf: &Vec<u8>) -> (r: Option<ServiceCommand>)
    ensures
        r == spec_parse_command(buf@),
{
    let n = buf.len();
    let i = skip_ws(buf, 0);
    if n >= 7 && i <= n - 7 && buf[i] == QUOTE && buf[i + 1] == UPPER_S && buf[i + 2] == LOWER_T && buf[i
        + 3] == LOWER_A && buf[i + 4] == LOWER_R && buf[i + 5] == LOWER_T && buf[i + 6] == QUOTE {
        if skip_ws(buf, i + 7) == n {
            Some(ServiceCommand::Start)
        } else {
            None
        }
    } else if n >= 6 && i <= n - 6 && buf[i] == QUOTE && buf[i + 1] == UPPER_S && buf[i + 2] == LOWER_T
        && buf[i + 3] == LOWER_O && buf[i + 4] == LOWER_P && buf[i + 5] == QUOTE {
        if skip_ws(buf, i + 6) == n {
            Some(ServiceCommand::Stop)
        } else {
            None
        }
    } else if n >= 8 && i <= n - 8 && buf[i] == QUOTE && buf[i + 1] == UPPER_S && buf[i + 2] == LOWER_T
        && buf[i + 3] == LOWER_A && buf[i + 4] == LOWER_T && buf[i + 5] == LOWER_U && buf[i + 6]
        == LOWER_S && buf[i + 7] == QUOTE {
        if skip_ws(buf, i + 8) == n {
            Some(ServiceCommand::Status)
        } else {
            None
        }
    } else {
        None
    }
}

/// The command codec is lossless: every command parses back from its own
/// encoding.
pub proof fn lemma_command_round_trip(c: ServiceCommand)
    ensures
        spec_parse_command(spec_encode_command(c)) == Some(c),
{
    let s = spec_encode_command(c);
    assert(!is_ws(QUOTE));
    assert(ws_run_end(s, 0) == 0);
}

/// The parsed fields of a reply, with the message still in its wire byte
/// form.
pub struct RespFields {
    pub success: bool,
    pub msg_bytes: Seq<u8>,
    pub state: Option<StateDocFields>,
}

pub open spec fn bool01(b: bool) -> u8 {
    if b {
        DIGIT_ONE
    } else {
        DIGIT_ZERO
    }
}

/// The whole reply document for a response.
pub open spec fn spec_encode_response(r: ServiceResponse) -> Seq<u8> {
    let mb = encode_utf8(r.message@);
    seq![TAG_REPLY, SP, bool01(r.success), SP] + dec_bytes(mb.len()) + seq![SP] + mb + seq![NL]
        + (match r.state {
        None => seq![STATE_ABSENT, NL],
        Some(st) => seq![STATE_PRESENT, NL] + spec_encode_state(st),
    })
}

/// A length-prefixed blob: `<len> <len bytes>\n`.
pub open spec fn spec_parse_blob_at(s: Seq<u8>, pos: int) -> Option<(Seq<u8>, int)> {
    match spec_parse_u64_at(s, pos) {
        Some((n, e)) => if e < s.len() && s[e] == SP && e + 1 + n + 1 <= s.len() && s[e + 1 + n]
            == NL {
            Some((s.subrange(e + 1, e + 1 + n), e + n + 2))
        } else {
            None
        },
        None => None,
    }
}

/// Decodes a whole buffer as one reply.
pub open spec fn spec_parse_response(s: Seq<u8>) -> Option<RespFields> {
    if s.len() >= 4 && s[0] == TAG_REPLY && s[1] == SP && (s[2] == DIGIT_ZERO || s[2] == DIGIT_ONE)
        && s[3] == SP {
        let success = s[2] == DIGIT_ONE;
        match spec_parse_blob_at(s, 4) {
            None => None,
            Some((mb, p)) => {
                if p + 2 <= s.len() && s[p] == STATE_ABSENT && s[p + 1] == NL && p + 2 == s.len() {
                    Some(RespFields { success, msg_bytes: mb, state: None })
                } else if p + 2 <= s.len() && s[p] == STATE_PRESENT && s[p + 1] == NL {
                    match spec_parse_state_at(s, p + 2) {
                        None => None,
                        Some((f, e2)) => if e2 == s.len() {
                            Some(RespFields { success, msg_bytes: mb, state: Some(f) })
                        } else {
                            None
                        },
                    }
                } else {
                    None
                }
            },
        }
    } else {
        None
    }
}

/// Encodes a reply for the wire.
pub fn encode_response(r: &ServiceResponse) -> (out: Vec<u8>)
    ensures
        out@ == spec_encode_response(*r),
{
    let mut out: Vec<u8> = Vec::new();
    out.push(TAG_REPLY);
    out.push(SP);
    out.push(if r.success {
        DIGIT_ONE
    } else {
        DIGIT_ZERO
    });
    out.push(SP);
    let mut mb = r.message.as_str().as_bytes_vec();
    push_dec_u64(&mut out, mb.len() as u64);
    out.push(SP);
    out.append(&mut mb);
    out.push(NL);
    match &r.state {
        None => {
            out.push(STATE_ABSENT);
            out.push(NL);
        },
        Some(st) => {
            out.push(STATE_PRESENT);
            out.push(NL);
            let mut doc = crate::codec::encode_state(st);
            out.append(&mut doc);
        },
    }
    assert(out@ =~= spec_encode_response(*r));
    out
}

fn parse_blob_at(buf: &Vec<u8>, pos: usize) -> (r: Option<(Vec<u8>, usize)>)
    requires
        pos <= buf@.len(),
    ensures
        match spec_parse_blob_at(buf@, pos as int) {
            None => r is None,
            Some((mb, e)) => {
                &&& r is Some
                &&& (r->0).0@ == mb
                &&& (r->0).1 == e
            },
        },
{
    match parse_dec_u64(buf, pos) {
        None => None,
        Some((n, e)) => {
            if e < buf.len() && buf[e] == SP && n <= u64::MAX - 2 && (n + 2 <= (buf.len()
                - e) as u64) && buf[e + 1 + (n as usize)] == NL {
                let mb = crate::codec::copy_range(buf, e + 1, n as usize);
                Some((mb, e + (n as usize) + 2))
            } else {
                None
            }
        },
    }
}

/// Decodes the entire buffer as one reply, as the client does with what one
/// connection returned.
pub fn parse_response(buf: &Vec<u8>) -> (r: Option<ServiceResponse>)
    ensures
        match spec_parse_response(buf@) {
            None => r is None,
            Some(f) => {
                let states_ok = match f.state {
                    None => true,
                    Some(sf) => valid_utf8(sf.fp_bytes),
                };
                if valid_utf8(f.msg_bytes) && states_ok {
                    &&& r is Some
                    &&& r->0.success == f.success
                    &&& r->0.message@ == decode_utf8(f.msg_bytes)
                    &&& (r->0.state is Some <==> f.state is Some)
                    &&& match (r->0.state, f.state) {
                        (Some(st), Some(sf)) => {
                            &&& st.status == sf.status
                            &&& st.last_start_time == sf.last_start_time
                            &&& st.last_stop_time == sf.last_stop_time
                            &&& st.total_captures == sf.total_captures
                            &&& st.last_capture_time == sf.last_capture_time
                            &&& st.config_fingerprint@ == decode_utf8(sf.fp_bytes)
                        },
                        (None, None) => true,
                        _ => false,
                    }
                } else {
                    r is None
                }
            },
        },
{
    let n = buf.len();
    if !(n >= 4 && buf[0] == TAG_REPLY && buf[1] == SP && (buf[2] == DIGIT_ZERO || buf[2]
        == DIGIT_ONE) && buf[3] == SP) {
        return None;
    }
    let success = buf[2] == DIGIT_ONE;
    let (mb, p) = match parse_blob_at(buf, 4) {
        None => return None,
        Some(x) => x,
    };
    let message = match bytes_to_string(mb) {
        None => return None,
        Some(s) => s,
    };
    if p < n && buf[p] == STATE_ABSENT && p + 1 < n && buf[p + 1] == NL && p + 2 == n {
        Some(ServiceResponse { success, message, state: None })
    } else if p < n && buf[p] == STATE_PRESENT && p + 1 < n && buf[p + 1] == NL {
        match parse_state_at(buf, p + 2) {
            None => None,
            Some((st, e2)) => {
                if e2 == n {
                    Some(ServiceResponse { success, message, state: Some(st) })
                } else {
                    None
                }
            },
        }
    } else {
        None
    }
}


/// The reply codec is lossless: every reply parses back from its own
/// encoding, message and embedded state record included. The length bounds
/// only keep the wire lengths within the length-prefix type.
#[verifier::rlimit(100)]
pub proof fn lemma_response_round_trip(r: ServiceResponse)
    requires
        encode_utf8(r.message@).len() <= u64::MAX,
        r.state is Some ==> encode_utf8(r.state->0.config_fingerprint@).len() <= u64::MAX,
    ensures
        ({
            let f = spec_parse_response(spec_encode_response(r));
            &&& f is Some
            &&& f->0.success == r.success
            &&& valid_utf8(f->0.msg_bytes)
            &&& decode_utf8(f->0.msg_bytes) == r.message@
            &&& (f->0.state is Some <==> r.state is Some)
            &&& match (f->0.state, r.state) {
                (Some(sf), Some(st)) => {
                    &&& sf.status == st.status
                    &&& sf.last_start_time == st.last_start_time
                    &&& sf.last_stop_time == st.last_stop_time
                    &&& sf.total_captures == st.total_captures
                    &&& sf.last_capture_time == st.last_capture_time
                    &&& valid_utf8(sf.fp_bytes)
                    &&& decode_utf8(sf.fp_bytes) == st.config_fingerprint@
                },
                (None, None) => true,
                _ => false,
            }
        }),
{
    let s = spec_encode_response(r);
    let mb = encode_utf8(r.message@);
    let dl = dec_bytes(mb.len()).len() as int;
    let n = mb.len() as int;
    let hdr = seq![TAG_REPLY, SP, bool01(r.success), SP];
    let blob = dec_bytes(mb.len()) + seq![SP] + mb + seq![NL];
    let tail: Seq<u8> = match r.state {
        None => seq![STATE_ABSENT, NL],
        Some(st) => seq![STATE_PRESENT, NL] + spec_encode_state(st),
    };
    assert(s =~= hdr + blob + tail);
    assert(s.subrange(0, s.len() as int) =~= s);
    assert((hdr + blob + tail).subrange(4, 4 + blob.len() as int) =~= blob);
    assert((hdr + blob + tail).subrange(
        4 + blob.len() as int,
        4 + blob.len() + tail.len() as int,
    ) =~= tail);
    crate::codec::lemma_concat_piece(s, 0, s, 4, blob);
    crate::codec::lemma_concat_piece(s, 0, s, 4 + blob.len() as int, tail);
    crate::codec::lemma_bytes_at(s, 4, blob);
    let p = 4 + blob.len() as int;
    crate::codec::lemma_bytes_at(s, p, tail);
    assert(s[0] == hdr[0] && s[1] == hdr[1] && s[2] == hdr[2] && s[3] == hdr[3]);
    assert(s[2] == DIGIT_ONE <==> r.success);
    assert forall|k: int| 0 <= k < dl implies s[4 + k] == #[trigger] dec_bytes(mb.len())[k] by {
        assert(blob[k] == dec_bytes(mb.len())[k]);
    }
    assert(s.subrange(4, 4 + dl) =~= dec_bytes(mb.len()));
    assert(blob[dl] == SP);
    assert(s[4 + dl] == blob[dl]);
    assert(!is_dec_digit(SP));
    crate::num::lemma_digit_run_of_dec_bytes(s, 4, mb.len());
    let e = 4 + dl;
    assert(spec_parse_u64_at(s, 4) == Some((mb.len() as u64, e)));
    assert forall|k: int| 0 <= k < n implies s[e + 1 + k] == #[trigger] mb[k] by {
        assert(blob[dl + 1 + k] == mb[k]);
    }
    assert(blob[dl + 1 + n] == NL);
    assert(s[e + 1 + n] == blob[dl + 1 + n]);
    assert(s.subrange(e + 1, e + 1 + n) =~= mb);
    assert(spec_parse_blob_at(s, 4) == Some((mb, p)));
    vstd::utf8::encode_utf8_valid_utf8(r.message@);
    vstd::utf8::encode_utf8_decode_utf8(r.message@);
    match r.state {
        None => {
            assert(tail[0] == STATE_ABSENT && tail[1] == NL);
            assert(s[p + 0] == tail[0] && s[p + 1] == tail[1]);
            assert(p + 2 == s.len());
        },
        Some(st) => {
            let enc = spec_encode_state(st);
            assert(tail[0] == STATE_PRESENT && tail[1] == NL);
            assert(s[p + 0] == tail[0] && s[p + 1] == tail[1]);
            assert(STATE_PRESENT != STATE_ABSENT);
            assert(tail.subrange(2, 2 + enc.len() as int) =~= enc);
            crate::codec::lemma_concat_piece(s, p, tail, 2, enc);
            crate::codec::lemma_parse_encoded_state_at(st, s, p + 2);
            vstd::utf8::encode_utf8_valid_utf8(st.config_fingerprint@);
            vstd::utf8::encode_utf8_decode_utf8(st.config_fingerprint@);
            assert(p + 2 + enc.len() == s.len());
        },
    }
}

/// The reply the server gives when the buffer does not decode as a command:
/// a failure with a fixed message, no state, connection then closed.
pub fn invalid_command_response() -> (r: ServiceResponse)
    ensures
        !r.success,
        r.message@ == "invalid command"@,
        r.state is None,
{
    ServiceResponse { success: false, message: String::from_str("invalid command"), state: None }
}

/// Dispatches one decoded command: drives the state-manager transition,
/// builds the reply with a fresh snapshot, and says what the capture
/// supervisor must do. Start and Stop are idempotent and always reply with
/// success; Status only reads.
pub fn dispatch_command(
    cmd: &ServiceCommand,
    mgr: &mut ServiceStateManager,
    now_ms: u64,
) -> (r: (ServiceResponse, SupervisorAction))
    ensures
        ({
            match *cmd {
                ServiceCommand::Start => {
                    let (started, s1) = spec_start(old(mgr).spec_state(), now_ms);
                    &&& final(mgr).spec_state() == s1
                    &&& r.0.success
                    &&& r.0.state == Some(s1)
                    &&& r.0.message@ == (if started {
                        "service started"@
                    } else {
                        "service already running"@
                    })
                    &&& r.1 == (if started {
                        SupervisorAction::SpawnCaptureLoop
                    } else {
                        SupervisorAction::NoChange
                    })
                },
                ServiceCommand::Stop => {
                    let (stopped, s1) = spec_stop(old(mgr).spec_state(), now_ms);
                    &&& final(mgr).spec_state() == s1
                    &&& r.0.success
                    &&& r.0.state == Some(s1)
                    &&& r.0.message@ == (if stopped {
                        "service stopped"@
                    } else {
                        "service already stopped"@
                    })
                    &&& r.1 == SupervisorAction::AbortCaptureLoop
                },
                ServiceCommand::Status => {
                    &&& final(mgr).spec_state() == old(mgr).spec_state()
                    &&& r.0.success
                    &&& r.0.state == Some(old(mgr).spec_state())
                    &&& r.0.message@ == "status ok"@
                    &&& r.1 == SupervisorAction::NoChange
                },
            }
        }),
{
    match cmd {
        ServiceCommand::Start => {
            let started = mgr.start_service(now_ms);
            let message = if started {
                String::from_str("service started")
            } else {
                String::from_str("service already running")
            };
            let action = if started {
                SupervisorAction::SpawnCaptureLoop
            } else {
                SupervisorAction::NoChange
            };
            (ServiceResponse { success: true, message, state: Some(mgr.get_state()) }, action)
        },
        ServiceCommand::Stop => {
            let stopped = mgr.stop_service(now_ms);
            let message = if stopped {
                String::from_str("service stopped")
            } else {
                String::from_str("service already stopped")
            };
            (
                ServiceResponse { success: true, message, state: Some(mgr.get_state()) },
                SupervisorAction::AbortCaptureLoop,
            )
        },
        ServiceCommand::Status => {
            (
                ServiceResponse {
                    success: true,
                    message: String::from_str("status ok"),
                    state: Some(mgr.get_state()),
                },
                SupervisorAction::NoChange,
            )
        },
    }
}

/// The client half of the control channel: it remembers where the service's
/// socket lives; connecting, writing the command and reading the reply are
/// the caller's transport.
pub struct ServiceController {
    pub socket_path: String,
}

impl ServiceController {
    pub fn new(config: &Config) -> (c: Self)
        ensures
            c.socket_path@ == config.spec_socket_path(),
    {
        ServiceController { socket_path: config.get_socket_path() }
    }
}


} // verus!
