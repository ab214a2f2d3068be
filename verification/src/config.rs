//! Operational configuration: the settings that shape capture and analysis,
//! the derived file-system paths, and the deterministic fingerprint used to
//! detect configuration drift between runs of the daemon.

use vstd::prelude::*;
use vstd::string::{StrSliceExecFns, StringExecFns};
use vstd::utf8::{decode_utf8, encode_utf8, valid_utf8};
use crate::num::{dec_bytes, push_dec_u64};

verus! {

/// The FNV-1a 64-bit offset basis and prime.
pub const FNV_OFFSET: u64 = 0xcbf2_9ce4_8422_2325;
pub const FNV_PRIME: u64 = 0x0000_0100_0000_01b3;

/// The settings the daemon runs with. Paths are plain strings; `data_dir` is
/// already resolved (flag, environment or platform default) by the caller
/// that builds the value, and `fastvlm_model_dir` is `Some` only when the
/// caller found the directory present.
pub struct Config {
    pub api_key: Option<String>,
    pub api_url: String,
    pub model: String,
    pub prompt: String,
    pub interval: u64,
    pub data_dir: String,
    pub state_path: Option<String>,
    pub socket_path: Option<String>,
    pub image_target_width: u32,
    pub image_grayscale: bool,
    pub no_image_grayscale: bool,
    pub fastvlm_model_dir: Option<String>,
}

pub open spec fn bool_byte(b: bool) -> u8 {
    if b {
        1
    } else {
        0
    }
}

pub open spec fn opt_str_bytes(o: Option<String>) -> Seq<u8> {
    match o {
        None => seq![0u8],
        Some(s) => seq![1u8] + encode_utf8(s@),
    }
}

/// The canonical byte stream that the fingerprint hashes: every setting that
/// changes capture or analysis behavior, in a fixed order with separators.
pub open spec fn spec_fingerprint_input(c: Config) -> Seq<u8> {
    encode_utf8(c.api_url@) + seq![0u8] + encode_utf8(c.model@) + seq![0u8] + encode_utf8(
        c.prompt@,
    ) + seq![0u8] + dec_bytes(c.interval as nat) + seq![0u8] + dec_bytes(
        c.image_target_width as nat,
    ) + seq![0u8] + seq![bool_byte(c.image_grayscale), bool_byte(c.no_image_grayscale)]
        + opt_str_bytes(c.fastvlm_model_dir)
}

pub open spec fn fnv1a_step(h: u64, b: u8) -> u64 {
    vstd::wrapping::u64_specs::wrapping_mul(h ^ (b as u64), FNV_PRIME)
}

pub open spec fn spec_fnv1a_at(s: Seq<u8>, i: int, h: u64) -> u64
    decreases s.len() - i,
{
    if i < 0 || i >= s.len() {
        h
    } else {
        spec_fnv1a_at(s, i + 1, fnv1a_step(h, s[i]))
    }
}

/// The fingerprint of a configuration, as a number.
pub open spec fn spec_fingerprint_value(c: Config) -> u64 {
    spec_fnv1a_at(spec_fingerprint_input(c), 0, FNV_OFFSET)
}

/// The fingerprint string: the decimal digits of the hash value.
pub open spec fn spec_config_hash(c: Config) -> Seq<char> {
    decode_utf8(dec_bytes(spec_fingerprint_value(c) as nat))
}

/// A sequence of ASCII bytes is valid UTF-8.
pub proof fn lemma_ascii_valid_utf8(s: Seq<u8>)
    requires
        forall|i: int| 0 <= i < s.len() ==> s[i] < 128,
    ensures
        valid_utf8(s),
{
    assert(vstd::utf8::partial_valid_utf8(s, 0)) by {
        assert(s.subrange(0, 0) =~= Seq::<u8>::empty());
        reveal_with_fuel(valid_utf8, 1);
    }
    vstd::utf8::partial_valid_utf8_extend_ascii_block(s, 0, s.len() as int);
    assert(s.subrange(0, s.len() as int) =~= s);
}

/// Appends the UTF-8 bytes of a string.
fn push_str_bytes(out: &mut Vec<u8>, s: &String)
    ensures
        final(out)@ == old(out)@ + encode_utf8(s@),
{
    let mut b = s.as_str().as_bytes_vec();
    out.append(&mut b);
}

impl Config {
    /// The resolved data directory that every other path hangs under.
    pub fn get_data_dir(&self) -> (r: String)
        ensures
            r@ == self.data_dir@,
    {
        self.data_dir.clone()
    }

    /// Where screenshots are written.
    pub fn get_screenshot_dir(&self) -> (r: String)
        ensures
            r@ == self.data_dir@ + "/screenshots"@,
    {
        let mut r = self.data_dir.clone();
        r.append("/screenshots");
        r
    }

    /// Where the day-partitioned activity logs live.
    pub fn get_logs_dir(&self) -> (r: String)
        ensures
            r@ == self.data_dir@ + "/logs"@,
    {
        let mut r = self.data_dir.clone();
        r.append("/logs");
        r
    }

    /// The log file for one date (the date string names the day, for example
    /// `2024-05-01`).
    pub fn get_daily_log_path(&self, date: &str) -> (r: String)
        ensures
            r@ == self.data_dir@ + "/logs"@ + "/"@ + date@ + ".json"@,
    {
        let mut r = self.get_logs_dir();
        r.append("/");
        r.append(date);
        r.append(".json");
        r
    }

    pub open spec fn spec_state_path(&self) -> Seq<char> {
        match self.state_path {
            Some(p) => p@,
            None => self.data_dir@ + "/service_state.json"@,
        }
    }

    /// Where the durable state document lives.
    pub fn get_state_path(&self) -> (r: String)
        ensures
            r@ == self.spec_state_path(),
    {
        match &self.state_path {
            Some(p) => p.clone(),
            None => {
                let mut r = self.data_dir.clone();
                r.append("/service_state.json");
                r
            },
        }
    }

    pub open spec fn spec_socket_path(&self) -> Seq<char> {
        match self.socket_path {
            Some(p) => p@,
            None => self.data_dir@ + "/service.sock"@,
        }
    }

    /// Where the control socket is bound.
    pub fn get_socket_path(&self) -> (r: String)
        ensures
            r@ == self.spec_socket_path(),
    {
        match &self.socket_path {
            Some(p) => p.clone(),
            None => {
                let mut r = self.data_dir.clone();
                r.append("/service.sock");
                r
            },
        }
    }

    /// Whether analysis goes through the local model rather than the HTTP
    /// service. The model directory is `Some` only when its presence was
    /// already established.
    pub fn is_using_fastvlm(&self) -> (r: bool)
        ensures
            r == (self.fastvlm_model_dir is Some),
    {
        matches!(self.fastvlm_model_dir, Some(_))
    }

    /// The local model directory, when one is configured and present.
    pub fn get_fastvlm_model_dir(&self) -> (r: Option<&String>)
        ensures
            r is Some <==> self.fastvlm_model_dir is Some,
            r is Some ==> *r->0 == self.fastvlm_model_dir->0,
    {
        self.fastvlm_model_dir.as_ref()
    }

    /// The deterministic fingerprint of the settings that affect capture
    /// behavior: equal settings always yield the same string.
    pub fn get_config_hash(&self) -> (r: String)
        ensures
            r@ == spec_config_hash(*self),
    {
        let mut bytes: Vec<u8> = Vec::new();
        push_str_bytes(&mut bytes, &self.api_url);
        bytes.push(0);
        push_str_bytes(&mut bytes, &self.model);
        bytes.push(0);
        push_str_bytes(&mut bytes, &self.prompt);
        bytes.push(0);
        push_dec_u64(&mut bytes, self.interval);
        bytes.push(0);
        push_dec_u64(&mut bytes, self.image_target_width as u64);
        bytes.push(0);
        bytes.push(if self.image_grayscale {
            1
        } else {
            0
        });
        bytes.push(if self.no_image_grayscale {
            1
        } else {
            0
        });
        match &self.fastvlm_model_dir {
            None => bytes.push(0),
            Some(d) => {
                bytes.push(1);
                push_str_bytes(&mut bytes, d);
            },
        }
        assert(bytes@ =~= spec_fingerprint_input(*self));
        let mut h: u64 = FNV_OFFSET;
        let mut i: usize = 0;
        let n = bytes.len();
        while i < n
            invariant
                0 <= i <= n == bytes@.len(),
                bytes@ == spec_fingerprint_input(*self),
                spec_fnv1a_at(bytes@, i as int, h) == spec_fingerprint_value(*self),
            decreases n - i,
        {
            h = (h ^ (bytes[i] as u64)).wrapping_mul(FNV_PRIME);
            i = i + 1;
        }
        let mut digits: Vec<u8> = Vec::new();
        push_dec_u64(&mut digits, h);
        proof {
            crate::num::lemma_dec_bytes_digits(h as nat);
            lemma_ascii_valid_utf8(digits@);
        }
        match crate::codec::bytes_to_string(digits) {
            Some(s) => s,
            None => {
                proof {
                    assert(false);
                }
                String::new()
            },
        }
    }
}

/// Two configurations whose settings read the same always fingerprint the
/// same: the hash is a function of the settings alone.
pub proof fn lemma_fingerprint_deterministic(c1: Config, c2: Config)
    requires
        c1.api_url@ == c2.api_url@,
        c1.model@ == c2.model@,
        c1.prompt@ == c2.prompt@,
        c1.interval == c2.interval,
        c1.image_target_width == c2.image_target_width,
        c1.image_grayscale == c2.image_grayscale,
        c1.no_image_grayscale == c2.no_image_grayscale,
        match (c1.fastvlm_model_dir, c2.fastvlm_model_dir) {
            (None, None) => true,
            (Some(d1), Some(d2)) => d1@ == d2@,
            _ => false,
        },
    ensures
        spec_config_hash(c1) == spec_config_hash(c2),
{
    assert(spec_fingerprint_input(c1) == spec_fingerprint_input(c2));
}

} // verus!
