use vstd::prelude::*;
use vstd::string::StringSliceAdditionalSpecFns;
use vstd::utf8::encode_utf8;

use crate::backend::{lower_bytes, proxy_name, candle_name, BackendType};

verus! {

/// Decimal digit test on a byte.
pub open spec fn is_digit(b: u8) -> bool {
    48 <= b && b <= 57
}

/// Whether every byte of `s` is a decimal digit.
pub open spec fn all_digits(s: Seq<u8>) -> bool {
    forall|i: int| 0 <= i < s.len() ==> is_digit(#[trigger] s[i])
}

/// The numeric weight of one byte taken as a decimal digit; non-digits weigh
/// nothing, so the value of a digit string is insensitive to them.
pub open spec fn digit_of(b: u8) -> nat {
    if is_digit(b) {
        (b - 48) as nat
    } else {
        0
    }
}

/// The value of a byte string read as a decimal numeral.
pub open spec fn digits_val(s: Seq<u8>) -> nat
    decreases s.len(),
{
    if s.len() == 0 {
        0
    } else {
        digits_val(s.drop_last()) * 10 + digit_of(s.last())
    }
}

/// Unsigned decimal parsing as the standard numeric parsers do it: an
/// optional leading plus sign, then at least one digit and nothing else, and
/// a value that fits below `max`; anything else is rejected.
pub open spec fn spec_parse_uint(s: Seq<u8>, max: nat) -> Option<nat> {
    let body = if s.len() > 0 && s[0] == 43 {
        s.drop_first()
    } else {
        s
    };
    if body.len() > 0 && all_digits(body) && digits_val(body) <= max {
        Some(digits_val(body))
    } else {
        None
    }
}

/// Appending more bytes to a numeral never lowers its value.
proof fn lemma_digits_val_extend(s: Seq<u8>, t: Seq<u8>)
    ensures
        digits_val(s + t) >= digits_val(s),
    decreases t.len(),
{
    if t.len() == 0 {
        assert(s + t =~= s);
    } else {
        lemma_digits_val_extend(s, t.drop_last());
        assert((s + t).drop_last() =~= s + t.drop_last());
        assert(digits_val(s + t) == digits_val(s + t.drop_last()) * 10 + digit_of((s + t).last()));
    }
}

/// Parse the byte spelling of an unsigned decimal numeral that must not
/// exceed `max`, exactly as `spec_parse_uint` describes.
pub fn parse_uint_bytes(b: &[u8], max: u64) -> (r: Option<u64>)
    ensures
        r is Some <==> spec_parse_uint(b@, max as nat) is Some,
        r is Some ==> r->0 as nat == spec_parse_uint(b@, max as nat)->0,
        r is Some ==> r->0 <= max,
{
    let start: usize = if b.len() > 0 && b[0] == 43 {
        1
    } else {
        0
    };
    let ghost body = if start == 1 {
        b@.drop_first()
    } else {
        b@
    };
    proof {
        assert(body =~= b@.subrange(start as int, b@.len() as int));
    }
    if b.len() == start {
        return None;
    }
    let mut acc: u64 = 0;
    let mut i: usize = start;
    while i < b.len()
        invariant
            start <= i <= b@.len(),
            start <= 1,
            b@.len() > start,
            body == b@.subrange(start as int, b@.len() as int),
            body == (if b@.len() > 0 && b@[0] == 43 {
                b@.drop_first()
            } else {
                b@
            }),
            all_digits(b@.subrange(start as int, i as int)),
            acc as nat == digits_val(b@.subrange(start as int, i as int)),
            acc <= max,
        decreases b@.len() - i,
    {
        let c = b[i];
        if !(48 <= c && c <= 57) {
            proof {
                assert(body[i - start] == c);
                assert(!all_digits(body));
            }
            return None;
        }
        let d = (c - 48) as u64;
        proof {
            vstd::arithmetic::div_mod::lemma_fundamental_div_mod(max as int, 10);
        }
        if acc > max / 10 || (acc == max / 10 && d > max % 10) {
            proof {
                let pre = b@.subrange(start as int, i as int);
                assert(pre.push(c) =~= b@.subrange(start as int, i + 1));
                assert(pre.push(c).drop_last() =~= pre);
                assert(pre.push(c).last() == c);
                assert(digits_val(pre.push(c)) == (acc as nat) * 10 + digit_of(c));
                lemma_digits_val_extend(
                    b@.subrange(start as int, i + 1),
                    b@.subrange(i + 1, b@.len() as int),
                );
                assert(b@.subrange(start as int, i + 1) + b@.subrange(i + 1, b@.len() as int)
                    =~= body);
                assert(digits_val(body) > max);
            }
            return None;
        }
        proof {
            let pre = b@.subrange(start as int, i as int);
            assert(pre.push(c) =~= b@.subrange(start as int, i + 1));
            assert(pre.push(c).drop_last() =~= pre);
            assert(pre.push(c).last() == c);
            assert(digits_val(pre.push(c)) == (acc as nat) * 10 + digit_of(c));
        }
        acc = acc * 10 + d;
        i = i + 1;
    }
    proof {
        assert(b@.subrange(start as int, i as int) =~= body);
    }
    Some(acc)
}

/// Parse a TCP port number.
pub fn parse_u16(s: &str) -> (r: Option<u16>)
    ensures
        r is Some <==> spec_parse_uint(s.spec_bytes(), u16::MAX as nat) is Some,
        r is Some ==> r->0 as nat == spec_parse_uint(s.spec_bytes(), u16::MAX as nat)->0,
{
    match parse_uint_bytes(s.as_bytes(), 65535) {
        Some(v) => Some(v as u16),
        None => None,
    }
}

/// Parse a 32-bit count such as the batch size.
pub fn parse_u32(s: &str) -> (r: Option<u32>)
    ensures
        r is Some <==> spec_parse_uint(s.spec_bytes(), u32::MAX as nat) is Some,
        r is Some ==> r->0 as nat == spec_parse_uint(s.spec_bytes(), u32::MAX as nat)->0,
{
    match parse_uint_bytes(s.as_bytes(), 4294967295) {
        Some(v) => Some(v as u32),
        None => None,
    }
}

/// Parse a machine-sized count such as the worker count or queue capacity.
pub fn parse_usize(s: &str) -> (r: Option<usize>)
    ensures
        r is Some <==> spec_parse_uint(s.spec_bytes(), usize::MAX as nat) is Some,
        r is Some ==> r->0 as nat == spec_parse_uint(s.spec_bytes(), usize::MAX as nat)->0,
{
    match parse_uint_bytes(s.as_bytes(), usize::MAX as u64) {
        Some(v) => Some(v as usize),
        None => None,
    }
}

/// The byte spelling of the word the standard boolean parser accepts as true.
pub open spec fn true_name() -> Seq<u8> {
    seq![116, 114, 117, 101]
}

/// The byte spelling of the word the standard boolean parser accepts as
/// false.
pub open spec fn false_name() -> Seq<u8> {
    seq![102, 97, 108, 115, 101]
}

/// Parse a boolean exactly as the standard parser does: only the exact words
/// for true and false are accepted.
pub fn parse_bool(s: &str) -> (r: Option<bool>)
    ensures
        r == Some(true) <==> s.spec_bytes() == true_name(),
        r == Some(false) <==> s.spec_bytes() == false_name(),
        r is None <==> (s.spec_bytes() != true_name() && s.spec_bytes() != false_name()),
{
    let b = s.as_bytes();
    if b.len() == 4 {
        let m = b[0] == 116 && b[1] == 114 && b[2] == 117 && b[3] == 101;
        proof {
            if m {
                assert(b@ =~= true_name());
            } else {
                assert(b@ != true_name()) by {
                    if b@ == true_name() {
                        assert(b@[0] == 116 && b@[1] == 114 && b@[2] == 117 && b@[3] == 101);
                    }
                }
            }
            assert(b@.len() != false_name().len());
        }
        if m {
            Some(true)
        } else {
            None
        }
    } else if b.len() == 5 {
        let m = b[0] == 102 && b[1] == 97 && b[2] == 108 && b[3] == 115 && b[4] == 101;
        proof {
            if m {
                assert(b@ =~= false_name());
            } else {
                assert(b@ != false_name()) by {
                    if b@ == false_name() {
                        assert(b@[0] == 102 && b@[1] == 97 && b@[2] == 108 && b@[3] == 115
                            && b@[4] == 101);
                    }
                }
            }
            assert(b@.len() != true_name().len());
        }
        if m {
            Some(false)
        } else {
            None
        }
    } else {
        None
    }
}

/// The process configuration the gateway is started with.
#[derive(Clone)]
pub struct Config {
    pub host: String,
    pub port: u16,
    pub backend_url: String,
    pub backend_type: BackendType,
    pub model_path: String,
    pub normalize_embeddings: bool,
    pub batch_size: u32,
    pub workers: usize,
    pub queue_capacity: usize,
    pub model_name: String,
}

/// The textual overrides offered for each configuration field, in the shape
/// the process environment supplies them: present or absent, and parsed here
/// rather than at the edge. An override that fails to parse leaves its field
/// alone.
pub struct ConfigOverrides {
    pub host: Option<String>,
    pub port: Option<String>,
    pub backend_url: Option<String>,
    pub backend_type: Option<String>,
    pub model_path: Option<String>,
    pub normalize_embeddings: Option<String>,
    pub batch_size: Option<String>,
    pub workers: Option<String>,
    pub queue_capacity: Option<String>,
    pub model_name: Option<String>,
}

/// A textual field after an optional override.
pub open spec fn chosen_str(cur: Seq<char>, o: Option<String>) -> Seq<char> {
    match o {
        Some(s) => s@,
        None => cur,
    }
}

/// A port field after an optional override.
pub open spec fn chosen_u16(cur: u16, o: Option<String>) -> u16 {
    match o {
        Some(s) => match spec_parse_uint(encode_utf8(s@), u16::MAX as nat) {
            Some(v) => v as u16,
            None => cur,
        },
        None => cur,
    }
}

/// A 32-bit count field after an optional override.
pub open spec fn chosen_u32(cur: u32, o: Option<String>) -> u32 {
    match o {
        Some(s) => match spec_parse_uint(encode_utf8(s@), u32::MAX as nat) {
            Some(v) => v as u32,
            None => cur,
        },
        None => cur,
    }
}

/// A machine-sized count field after an optional override.
pub open spec fn chosen_usize(cur: usize, o: Option<String>) -> usize {
    match o {
        Some(s) => match spec_parse_uint(encode_utf8(s@), usize::MAX as nat) {
            Some(v) => v as usize,
            None => cur,
        },
        None => cur,
    }
}

/// A boolean field after an optional override.
pub open spec fn chosen_bool(cur: bool, o: Option<String>) -> bool {
    match o {
        Some(s) => if encode_utf8(s@) == true_name() {
            true
        } else if encode_utf8(s@) == false_name() {
            false
        } else {
            cur
        },
        None => cur,
    }
}

/// A backend selection field after an optional override.
pub open spec fn chosen_backend(cur: BackendType, o: Option<String>) -> BackendType {
    match o {
        Some(s) => if lower_bytes(encode_utf8(s@)) == proxy_name() {
            BackendType::Proxy
        } else if lower_bytes(encode_utf8(s@)) == candle_name() {
            BackendType::Candle
        } else {
            cur
        },
        None => cur,
    }
}

impl Config {
    /// The configuration used when neither a file nor any override supplies a
    /// value.
    pub fn defaults() -> (c: Config)
        ensures
            c.host@ == "127.0.0.1"@,
            c.port == 3000,
            c.backend_url@ == "http://127.0.0.1:8000"@,
            c.backend_type == BackendType::Proxy,
            c.model_path@ == "/Users/zhangming/Documents/workspace/ZS/fj/yuan_model/Yuan-embedding-2.0-zh"@,
            c.normalize_embeddings == true,
            c.batch_size == 32,
            c.workers == 1,
            c.queue_capacity == 100,
            c.model_name@ == "yuan-embedding-2.0-zh"@,
    {
        Config {
            host: String::from_str("127.0.0.1"),
            port: 3000,
            backend_url: String::from_str("http://127.0.0.1:8000"),
            backend_type: BackendType::Proxy,
            model_path: String::from_str(
                "/Users/zhangming/Documents/workspace/ZS/fj/yuan_model/Yuan-embedding-2.0-zh",
            ),
            normalize_embeddings: true,
            batch_size: 32,
            workers: 1,
            queue_capacity: 100,
            model_name: String::from_str("yuan-embedding-2.0-zh"),
        }
    }

    /// Apply the textual overrides to this configuration: a present override
    /// replaces its field when it parses, and leaves the field alone when it
    /// does not; an absent override leaves the field alone.
    #[verifier::rlimit(50)]
    pub fn apply_overrides(&mut self, o: &ConfigOverrides)
        ensures
            final(self).host@ == chosen_str(old(self).host@, o.host),
            final(self).port == chosen_u16(old(self).port, o.port),
            final(self).backend_url@ == chosen_str(old(self).backend_url@, o.backend_url),
            final(self).backend_type == chosen_backend(old(self).backend_type, o.backend_type),
            final(self).model_path@ == chosen_str(old(self).model_path@, o.model_path),
            final(self).normalize_embeddings == chosen_bool(
                old(self).normalize_embeddings,
                o.normalize_embeddings,
            ),
            final(self).batch_size == chosen_u32(old(self).batch_size, o.batch_size),
            final(self).workers == chosen_usize(old(self).workers, o.workers),
            final(self).queue_capacity == chosen_usize(
                old(self).queue_capacity,
                o.queue_capacity,
            ),
            final(self).model_name@ == chosen_str(old(self).model_name@, o.model_name),
    {
        if let Some(host) = &o.host {
            self.host = host.clone();
        }
        if let Some(port) = &o.port {
            if let Some(v) = parse_u16(port.as_str()) {
                self.port = v;
            }
        }
        if let Some(backend_url) = &o.backend_url {
            self.backend_url = backend_url.clone();
        }
        if let Some(backend_type) = &o.backend_type {
            if let Some(v) = BackendType::parse(backend_type.as_str()) {
                self.backend_type = v;
            }
        }
        if let Some(model_path) = &o.model_path {
            self.model_path = model_path.clone();
        }
        if let Some(normalize) = &o.normalize_embeddings {
            if let Some(v) = parse_bool(normalize.as_str()) {
                self.normalize_embeddings = v;
            }
        }
        if let Some(batch_size) = &o.batch_size {
            if let Some(v) = parse_u32(batch_size.as_str()) {
                self.batch_size = v;
            }
        }
        if let Some(workers) = &o.workers {
            if let Some(v) = parse_usize(workers.as_str()) {
                self.workers = v;
            }
        }
        if let Some(queue_capacity) = &o.queue_capacity {
            if let Some(v) = parse_usize(queue_capacity.as_str()) {
                self.queue_capacity = v;
            }
        }
        if let Some(model_name) = &o.model_name {
            self.model_name = model_name.clone();
        }
    }

    /// Resolve the effective configuration: start from the file-supplied
    /// configuration when one was read, from the defaults otherwise, then
    /// apply the overrides on top.
    pub fn resolve(file: Option<Config>, o: &ConfigOverrides) -> (c: Config)
        ensures
            ({
                let base_host = match file {
                    Some(f) => f.host@,
                    None => "127.0.0.1"@,
                };
                c.host@ == chosen_str(base_host, o.host)
            }),
            ({
                let base_port: u16 = match file {
                    Some(f) => f.port,
                    None => 3000,
                };
                c.port == chosen_u16(base_port, o.port)
            }),
            ({
                let base_url = match file {
                    Some(f) => f.backend_url@,
                    None => "http://127.0.0.1:8000"@,
                };
                c.backend_url@ == chosen_str(base_url, o.backend_url)
            }),
            ({
                let base_bt = match file {
                    Some(f) => f.backend_type,
                    None => BackendType::Proxy,
                };
                c.backend_type == chosen_backend(base_bt, o.backend_type)
            }),
            ({
                let base_mp = match file {
                    Some(f) => f.model_path@,
                    None => "/Users/zhangming/Documents/workspace/ZS/fj/yuan_model/Yuan-embedding-2.0-zh"@,
                };
                c.model_path@ == chosen_str(base_mp, o.model_path)
            }),
            ({
                let base_norm = match file {
                    Some(f) => f.normalize_embeddings,
                    None => true,
                };
                c.normalize_embeddings == chosen_bool(base_norm, o.normalize_embeddings)
            }),
            ({
                let base_bs: u32 = match file {
                    Some(f) => f.batch_size,
                    None => 32,
                };
                c.batch_size == chosen_u32(base_bs, o.batch_size)
            }),
            ({
                let base_w: usize = match file {
                    Some(f) => f.workers,
                    None => 1,
                };
                c.workers == chosen_usize(base_w, o.workers)
            }),
            ({
                let base_qc: usize = match file {
                    Some(f) => f.queue_capacity,
                    None => 100,
                };
                c.queue_capacity == chosen_usize(base_qc, o.queue_capacity)
            }),
            ({
                let base_mn = match file {
                    Some(f) => f.model_name@,
                    None => "yuan-embedding-2.0-zh"@,
                };
                c.model_name@ == chosen_str(base_mn, o.model_name)
            }),
    {
        let mut base = match file {
            Some(f) => f,
            None => Config::defaults(),
        };
        base.apply_overrides(o);
        base
    }
}

} // verus!
