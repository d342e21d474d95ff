//! Startup configuration: the listening address is fixed to all interfaces,
//! the port comes from the arguments (default 8000, validated), and TLS is
//! accepted only as a certificate and key pair — one without the other is a
//! startup error.
use crate::bytes::text_bytes;
use vstd::prelude::*;
use vstd::utf8::encode_utf8;

verus! {

/// The default listening port.
pub const DEFAULT_PORT: u16 = 8000;

/// The lowest port the server accepts.
pub const MIN_PORT: u16 = 8000;

/// A TLS certificate and key pair: always both or neither.
pub struct TlsPaths {
    pub cert: String,
    pub key: String,
}

/// The resolved startup configuration.
pub struct Config {
    pub port: u16,
    pub tls: Option<TlsPaths>,
}

/// Ghost model of a configuration.
pub struct ConfigModel {
    pub port: u16,
    pub tls: Option<(Seq<char>, Seq<char>)>,
}

impl Config {
    /// The model this configuration denotes.
    pub open spec fn model(self) -> ConfigModel {
        ConfigModel {
            port: self.port,
            tls: match self.tls {
                Option::Some(t) => Option::Some((t.cert@, t.key@)),
                Option::None => Option::None,
            },
        }
    }
}

/// A startup configuration error: fatal, the server does not start.
#[derive(PartialEq, Eq, Structural, Debug, Clone, Copy)]
pub enum ConfigError {
    /// The port text is empty, not a number, or over 65535.
    PortInvalid,
    /// The port is a number but below the accepted range.
    PortOutOfRange,
    /// Exactly one of the certificate and key paths was given.
    TlsIncomplete,
}

/// Whether `b` is a decimal digit byte.
pub open spec fn is_digit_byte(b: u8) -> bool {
    48 <= b <= 57
}

/// Whether every byte of `s` is a decimal digit.
pub open spec fn all_digits(s: Seq<u8>) -> bool {
    forall|i: int| 0 <= i < s.len() ==> is_digit_byte(#[trigger] s[i])
}

/// The number the digit string `s` denotes.
pub open spec fn dec_value(s: Seq<u8>) -> int
    decreases s.len(),
{
    if s.len() == 0 {
        0
    } else {
        dec_value(s.drop_last()) * 10 + (s.last() - 48)
    }
}

/// A digit string denotes a non-negative number.
proof fn lemma_dec_value_nonneg(s: Seq<u8>)
    requires
        all_digits(s),
    ensures
        dec_value(s) >= 0,
    decreases s.len(),
{
    if s.len() > 0 {
        assert(all_digits(s.drop_last()));
        lemma_dec_value_nonneg(s.drop_last());
    }
}

/// A digit string denotes at least what any of its prefixes denotes.
proof fn lemma_dec_value_prefix(s: Seq<u8>, i: int)
    requires
        all_digits(s),
        0 <= i <= s.len(),
    ensures
        dec_value(s.subrange(0, i)) <= dec_value(s),
    decreases s.len() - i,
{
    if i == s.len() {
        assert(s.subrange(0, i) =~= s);
    } else {
        let pre = s.subrange(0, i);
        let post = s.subrange(0, i + 1);
        assert(post.drop_last() =~= pre);
        assert(post.last() == s[i]);
        lemma_dec_value_nonneg(pre);
        lemma_dec_value_prefix(s, i + 1);
    }
}

/// What parsing the port text yields: the denoted number when the text is
/// a pure decimal numeral for a legal port at or above the minimum; the
/// exact error otherwise.
pub open spec fn parsed_port(s: Seq<u8>) -> Result<u16, ConfigError> {
    if s.len() == 0 || !all_digits(s) || dec_value(s) > 65535 {
        Result::Err(ConfigError::PortInvalid)
    } else if dec_value(s) < MIN_PORT {
        Result::Err(ConfigError::PortOutOfRange)
    } else {
        Result::Ok(dec_value(s) as u16)
    }
}

/// Parses and validates the port text.
pub fn parse_port(s: &Vec<u8>) -> (r: Result<u16, ConfigError>)
    ensures
        r == parsed_port(s@),
{
    let n = s.len();
    if n == 0 {
        return Result::Err(ConfigError::PortInvalid);
    }
    let mut acc: u32 = 0;
    let mut i: usize = 0;
    while i < n
        invariant
            n == s@.len(),
            i <= n,
            all_digits(s@.subrange(0, i as int)),
            acc == dec_value(s@.subrange(0, i as int)),
            acc <= 65535,
        decreases n - i,
    {
        let b = s[i];
        if b < 48 || b > 57 {
            proof {
                assert(!is_digit_byte(s@[i as int]));
            }
            return Result::Err(ConfigError::PortInvalid);
        }
        let acc2: u32 = acc * 10 + (b - 48) as u32;
        proof {
            let pre = s@.subrange(0, i as int);
            let post = s@.subrange(0, i as int + 1);
            assert(post.drop_last() =~= pre);
            assert(post.last() == s@[i as int]);
            assert(all_digits(post));
            assert(acc2 == dec_value(post));
        }
        if acc2 > 65535 {
            proof {
                if all_digits(s@) {
                    lemma_dec_value_prefix(s@, i as int + 1);
                }
            }
            return Result::Err(ConfigError::PortInvalid);
        }
        acc = acc2;
        i = i + 1;
    }
    proof {
        assert(s@.subrange(0, n as int) =~= s@);
    }
    if acc < MIN_PORT as u32 {
        Result::Err(ConfigError::PortOutOfRange)
    } else {
        Result::Ok(acc as u16)
    }
}

/// What resolving the startup arguments yields: the configuration with the
/// validated port (default 8000 when none was given) and the TLS pair when
/// both halves are present; the exact error when the port text is bad or
/// exactly one TLS half was given.  The port is checked first.
pub open spec fn resolved_config(
    port_text: Option<Seq<u8>>,
    cert: Option<Seq<char>>,
    key: Option<Seq<char>>,
) -> Result<ConfigModel, ConfigError> {
    let port = match port_text {
        Option::None => Result::Ok(DEFAULT_PORT),
        Option::Some(t) => parsed_port(t),
    };
    match port {
        Result::Err(e) => Result::Err(e),
        Result::Ok(p) => match (cert, key) {
            (Option::Some(c), Option::Some(k)) => Result::Ok(
                ConfigModel { port: p, tls: Option::Some((c, k)) },
            ),
            (Option::None, Option::None) => Result::Ok(ConfigModel { port: p, tls: Option::None }),
            _ => Result::Err(ConfigError::TlsIncomplete),
        },
    }
}

/// Resolves the startup arguments into a configuration, or the startup
/// error that prevents the server from starting.
pub fn resolve_config(port_text: Option<Vec<u8>>, cert: Option<String>, key: Option<String>) -> (r:
    Result<Config, ConfigError>)
    ensures
        ({
            let pt = match port_text {
                Option::Some(t) => Option::Some(t@),
                Option::None => Option::None,
            };
            let cm = match cert {
                Option::Some(c) => Option::Some(c@),
                Option::None => Option::None,
            };
            let km = match key {
                Option::Some(k) => Option::Some(k@),
                Option::None => Option::None,
            };
            match r {
                Result::Ok(c) => resolved_config(pt, cm, km) == Result::<ConfigModel,
                    ConfigError,
                >::Ok(c.model()),
                Result::Err(e) => resolved_config(pt, cm, km) == Result::<ConfigModel,
                    ConfigError,
                >::Err(e),
            }
        }),
{
    let port = match &port_text {
        Option::Some(t) => match parse_port(t) {
            Result::Ok(p) => p,
            Result::Err(e) => {
                return Result::Err(e);
            },
        },
        Option::None => DEFAULT_PORT,
    };
    match (cert, key) {
        (Option::Some(c), Option::Some(k)) => Result::Ok(
            Config { port, tls: Option::Some(TlsPaths { cert: c, key: k }) },
        ),
        (Option::None, Option::None) => Result::Ok(Config { port, tls: Option::None }),
        _ => Result::Err(ConfigError::TlsIncomplete),
    }
}

/// The fixed listening address: all interfaces.
pub fn listen_address() -> (r: Vec<u8>)
    ensures
        r@ == encode_utf8("0.0.0.0"@),
{
    text_bytes("0.0.0.0")
}

} // verus!
