use vstd::prelude::*;
use vstd::string::StringSliceAdditionalSpecFns;

pub mod candle;

verus! {

/// Which backend implementation the process is bound to: the remote proxy or
/// the local in-process model. Chosen once at startup, never per request.
#[derive(Clone, Copy, Debug, PartialEq, Eq, Structural)]
pub enum BackendType {
    Proxy,
    Candle,
}

/// ASCII lower-casing of one byte; bytes outside `A..=Z` are unchanged.
pub open spec fn lower_byte(b: u8) -> u8 {
    if 65 <= b && b <= 90 {
        (b + 32) as u8
    } else {
        b
    }
}

/// ASCII lower-casing of a byte string.
pub open spec fn lower_bytes(s: Seq<u8>) -> Seq<u8> {
    s.map_values(|b: u8| lower_byte(b))
}

/// The byte spelling of the proxy backend's name.
pub open spec fn proxy_name() -> Seq<u8> {
    seq![112, 114, 111, 120, 121]
}

/// The byte spelling of the local backend's name.
pub open spec fn candle_name() -> Seq<u8> {
    seq![99, 97, 110, 100, 108, 101]
}

fn to_lower(b: u8) -> (r: u8)
    ensures
        r == lower_byte(b),
{
    if 65 <= b && b <= 90 {
        b + 32
    } else {
        b
    }
}

impl BackendType {
    /// Parse a backend name, ignoring ASCII case: `"proxy"` and `"candle"` in
    /// any casing are accepted, everything else is rejected.
    pub fn parse(s: &str) -> (r: Option<BackendType>)
        ensures
            r == Some(BackendType::Proxy) <==> lower_bytes(s.spec_bytes()) == proxy_name(),
            r == Some(BackendType::Candle) <==> lower_bytes(s.spec_bytes()) == candle_name(),
            r is None <==> (lower_bytes(s.spec_bytes()) != proxy_name() && lower_bytes(
                s.spec_bytes(),
            ) != candle_name()),
    {
        let b = s.as_bytes();
        proof {
            assert(lower_bytes(b@).len() == b@.len());
            assert(proxy_name().len() == 5);
            assert(candle_name().len() == 6);
        }
        if b.len() == 5 {
            let m = to_lower(b[0]) == 112 && to_lower(b[1]) == 114 && to_lower(b[2]) == 111
                && to_lower(b[3]) == 120 && to_lower(b[4]) == 121;
            proof {
                assert(forall|i: int|
                    0 <= i < b@.len() ==> lower_bytes(b@)[i] == lower_byte(b@[i]));
                if m {
                    assert(lower_bytes(b@) =~= proxy_name());
                } else {
                    assert(lower_bytes(b@) != proxy_name()) by {
                        if lower_bytes(b@) == proxy_name() {
                            assert(lower_byte(b@[0]) == proxy_name()[0]);
                            assert(lower_byte(b@[1]) == proxy_name()[1]);
                            assert(lower_byte(b@[2]) == proxy_name()[2]);
                            assert(lower_byte(b@[3]) == proxy_name()[3]);
                            assert(lower_byte(b@[4]) == proxy_name()[4]);
                        }
                    }
                }
            }
            if m {
                Some(BackendType::Proxy)
            } else {
                None
            }
        } else if b.len() == 6 {
            let m = to_lower(b[0]) == 99 && to_lower(b[1]) == 97 && to_lower(b[2]) == 110
                && to_lower(b[3]) == 100 && to_lower(b[4]) == 108 && to_lower(b[5]) == 101;
            proof {
                assert(forall|i: int|
                    0 <= i < b@.len() ==> lower_bytes(b@)[i] == lower_byte(b@[i]));
                if m {
                    assert(lower_bytes(b@) =~= candle_name());
                } else {
                    assert(lower_bytes(b@) != candle_name()) by {
                        if lower_bytes(b@) == candle_name() {
                            assert(lower_byte(b@[0]) == candle_name()[0]);
                            assert(lower_byte(b@[1]) == candle_name()[1]);
                            assert(lower_byte(b@[2]) == candle_name()[2]);
                            assert(lower_byte(b@[3]) == candle_name()[3]);
                            assert(lower_byte(b@[4]) == candle_name()[4]);
                            assert(lower_byte(b@[5]) == candle_name()[5]);
                        }
                    }
                }
            }
            if m {
                Some(BackendType::Candle)
            } else {
                None
            }
        } else {
            None
        }
    }
}

impl Default for BackendType {
    fn default() -> (r: Self)
        ensures
            r == BackendType::Proxy,
    {
        BackendType::Proxy
    }
}

/// Everything that can go wrong between admitting a job and answering it.
/// Transport, status and decode failures come from the remote proxy backend,
/// model failures from the local one; the last two arise inside the
/// dispatcher itself.
#[derive(Clone, Debug, PartialEq, Eq)]
pub enum BackendError {
    /// Transport-level failure reaching a remote backend.
    Request(String),
    /// The remote backend responded with a non-success status code.
    Status(u16),
    /// The remote backend's response could not be decoded.
    Decode(String),
    /// The local model failed, with a stage-specific message.
    Model(String),
    /// Submission was attempted after the dispatcher shut down.
    QueueClosed,
    /// The job's private response channel was dropped before a result arrived.
    ResponseLost,
}

/// Classify an HTTP status code as the remote backend's outcome: codes in
/// `200..300` are success, every other code is a status error carrying the
/// code itself.
pub fn status_outcome(code: u16) -> (r: Option<BackendError>)
    ensures
        (200 <= code && code < 300) <==> r is None,
        !(200 <= code && code < 300) ==> r == Some(BackendError::Status(code)),
{
    if 200 <= code && code < 300 {
        None
    } else {
        Some(BackendError::Status(code))
    }
}

} // verus!
