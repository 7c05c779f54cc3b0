use rand::distributions::Alphanumeric;
use rand::distributions::DistString;
use vstd::prelude::*;
use vstd::string::StrSliceExecFns;
use vstd::string::StringExecFns;

verus! {

/// A decimal digit.
pub open spec fn is_digit(c: char) -> bool {
    '0' <= c && c <= '9'
}

/// The number that a sequence of decimal digits writes.
pub open spec fn digits_value(d: Seq<char>) -> nat
    decreases d.len(),
{
    if d.len() == 0 {
        0
    } else {
        digits_value(d.drop_last()) * 10 + ((d.last() as int) - ('0' as int)) as nat
    }
}

/// The text after an optional leading `+`.
pub open spec fn unsigned_part(s: Seq<char>) -> Seq<char> {
    if s.len() > 0 && s[0] == '+' {
        s.subrange(1, s.len() as int)
    } else {
        s
    }
}

/// An optional `+` followed by one or more decimal digits, and nothing else.
pub open spec fn is_decimal(s: Seq<char>) -> bool {
    let d = unsigned_part(s);
    d.len() > 0 && forall|i: int| 0 <= i < d.len() ==> is_digit(#[trigger] d[i])
}

/// The number that a decimal text writes.
pub open spec fn decimal_value(s: Seq<char>) -> nat {
    digits_value(unsigned_part(s))
}

/// The number that `s` writes in decimal, where it is one no greater than `max`.
pub open spec fn decimal_at_most(s: Seq<char>, max: nat) -> Option<nat> {
    if is_decimal(s) && decimal_value(s) <= max {
        Some(decimal_value(s))
    } else {
        None
    }
}

proof fn lemma_digits_value_step(d: Seq<char>, k: int)
    requires
        0 <= k < d.len(),
    ensures
        digits_value(d.subrange(0, k + 1)) == digits_value(d.subrange(0, k)) * 10 + ((d[k] as int)
            - ('0' as int)) as nat,
{
    assert(d.subrange(0, k + 1).drop_last() =~= d.subrange(0, k));
}

proof fn lemma_digits_value_prefix(d: Seq<char>, m: int)
    requires
        0 <= m <= d.len(),
        forall|i: int| 0 <= i < d.len() ==> is_digit(#[trigger] d[i]),
    ensures
        digits_value(d.subrange(0, m)) <= digits_value(d),
    decreases d.len(),
{
    if m < d.len() {
        let e = d.drop_last();
        assert forall|i: int| 0 <= i < e.len() implies is_digit(#[trigger] e[i]) by {
            assert(e[i] == d[i]);
        }
        lemma_digits_value_prefix(e, m);
        assert(e.subrange(0, m) =~= d.subrange(0, m));
    } else {
        assert(d.subrange(0, m) =~= d);
    }
}

proof fn lemma_fits(acc: nat, v: nat, max: nat)
    requires
        v <= 9,
    ensures
        (acc * 10 + v <= max) <==> (acc < max / 10 || (acc == max / 10 && v <= max % 10)),
{
    assert((acc * 10 + v <= max) <==> (acc < max / 10 || (acc == max / 10 && v <= max % 10)))
        by (nonlinear_arith)
        requires
            v <= 9,
    ;
}

/// Reads a decimal number no greater than `max`: an optional `+` and digits, nothing else.
pub fn parse_decimal(text: &str, max: u64) -> (r: Option<u64>)
    ensures
        r == (match decimal_at_most(text@, max as nat) {
            Some(v) => Some(v as u64),
            None => None,
        }),
{
    let n = text.unicode_len();
    let mut start: usize = 0;
    if n > 0 && text.get_char(0) == '+' {
        start = 1;
    }
    let ghost d = unsigned_part(text@);
    assert(d =~= text@.subrange(start as int, n as int));
    if start == n {
        return None;
    }
    let mut acc: u64 = 0;
    let mut i: usize = start;
    while i < n
        invariant
            start <= i <= n,
            n == text@.len(),
            d == text@.subrange(start as int, n as int),
            d == unsigned_part(text@),
            forall|j: int| 0 <= j < i - start ==> is_digit(#[trigger] d[j]),
            acc as nat == digits_value(d.subrange(0, i - start)),
            acc <= max,
        decreases n - i,
    {
        let c = text.get_char(i);
        assert(c == d[i - start]);
        if !('0' <= c && c <= '9') {
            assert(!is_digit(d[i - start]));
            return None;
        }
        let v: u64 = (c as u32 - '0' as u32) as u64;
        proof {
            lemma_digits_value_step(d, i - start);
            lemma_fits(acc as nat, v as nat, max as nat);
        }
        if acc > max / 10 || (acc == max / 10 && v > max % 10) {
            proof {
                if is_decimal(text@) {
                    lemma_digits_value_prefix(d, i - start + 1);
                }
            }
            return None;
        }
        acc = acc * 10 + v;
        i = i + 1;
    }
    assert(d.subrange(0, n - start) =~= d);
    Some(acc)
}

/// A setting that cannot be used.
#[derive(Debug, PartialEq, Eq, Structural)]
pub enum ConfigError {
    /// A client id was configured, and it is empty.
    EmptyClientId,
    /// The broker port is not a decimal number below 65536.
    InvalidBrokerPort,
    /// The keep-alive is not a decimal number of seconds that fits in 64 bits.
    InvalidKeepAlive,
    /// The mailbox size is not a positive decimal number.
    InvalidChannelSize,
    /// The HTTP port is not a decimal number below 65536.
    InvalidHttpPort,
}

/// Reads an optional numeric setting: absent gives `default`, present must be a decimal number
/// no greater than `max`.
pub open spec fn numeric_setting(configured: Option<String>, default: nat, max: nat) -> Option<nat> {
    match configured {
        None => Some(default),
        Some(t) => decimal_at_most(t@, max),
    }
}

fn read_number(configured: &Option<String>, default: u64, max: u64) -> (r: Option<u64>)
    requires
        default <= max,
    ensures
        r == (match numeric_setting(*configured, default as nat, max as nat) {
            Some(v) => Some(v as u64),
            None => None,
        }),
{
    match configured {
        None => Some(default),
        Some(t) => parse_decimal(t.as_str(), max),
    }
}

/// The broker port: 1883 unless configured.
pub fn mqtt_port(configured: Option<String>) -> (r: Result<u16, ConfigError>)
    ensures
        r == (match numeric_setting(configured, 1883, 65535) {
            Some(v) => Ok(v as u16),
            None => Err(ConfigError::InvalidBrokerPort),
        }),
{
    match read_number(&configured, 1883, 65535) {
        Some(v) => Ok(v as u16),
        None => Err(ConfigError::InvalidBrokerPort),
    }
}

/// The keep-alive interval in seconds: 15 unless configured.
pub fn mqtt_keepalive(configured: Option<String>) -> (r: Result<u64, ConfigError>)
    ensures
        r == (match numeric_setting(configured, 15, u64::MAX as nat) {
            Some(v) => Ok(v as u64),
            None => Err(ConfigError::InvalidKeepAlive),
        }),
{
    match read_number(&configured, 15, u64::MAX) {
        Some(v) => Ok(v),
        None => Err(ConfigError::InvalidKeepAlive),
    }
}

/// The HTTP port: 3000 unless configured.
pub fn http_port(configured: Option<String>) -> (r: Result<u16, ConfigError>)
    ensures
        r == (match numeric_setting(configured, 3000, 65535) {
            Some(v) => Ok(v as u16),
            None => Err(ConfigError::InvalidHttpPort),
        }),
{
    match read_number(&configured, 3000, 65535) {
        Some(v) => Ok(v as u16),
        None => Err(ConfigError::InvalidHttpPort),
    }
}

/// The actor's mailbox size: 8 unless configured; a mailbox holds at least one message.
pub fn channel_size(configured: Option<String>) -> (r: Result<usize, ConfigError>)
    ensures
        r == (match numeric_setting(configured, 8, usize::MAX as nat) {
            Some(v) => if v == 0 {
                Err(ConfigError::InvalidChannelSize)
            } else {
                Ok(v as usize)
            },
            None => Err(ConfigError::InvalidChannelSize),
        }),
{
    match read_number(&configured, 8, usize::MAX as u64) {
        Some(v) => {
            if v == 0 {
                Err(ConfigError::InvalidChannelSize)
            } else {
                Ok(v as usize)
            }
        },
        None => Err(ConfigError::InvalidChannelSize),
    }
}

/// The broker host: the public test broker unless configured.
pub fn mqtt_host(configured: Option<String>) -> (r: String)
    ensures
        r@ == (match configured {
            Some(h) => h@,
            None => "test.mosquitto.org"@,
        }),
{
    match configured {
        Some(h) => h,
        None => String::from_str("test.mosquitto.org"),
    }
}

/// Broker credentials: both a user name and a password, neither empty, or none.
pub fn mqtt_credentials(username: Option<String>, password: Option<String>) -> (r: Option<
    (String, String),
>)
    ensures
        r == (match (username, password) {
            (Some(u), Some(p)) => if u@.len() > 0 && p@.len() > 0 {
                Some((u, p))
            } else {
                None
            },
            _ => None,
        }),
{
    match (username, password) {
        (Some(u), Some(p)) => {
            if u.as_str().unicode_len() > 0 && p.as_str().unicode_len() > 0 {
                Some((u, p))
            } else {
                None
            }
        },
        _ => None,
    }
}

/// An ASCII letter or digit.
pub open spec fn is_ascii_alphanumeric(c: char) -> bool {
    ('0' <= c && c <= '9') || ('A' <= c && c <= 'Z') || ('a' <= c && c <= 'z')
}

/// Relies on rand's `Alphanumeric.sample_string` with the thread's generator: `len` characters
/// drawn from the ASCII letters and digits.
#[verifier::external_body]
fn random_alphanumeric(len: usize) -> (r: String)
    ensures
        r@.len() == len,
        forall|i: int| 0 <= i < len ==> is_ascii_alphanumeric(#[trigger] r@[i]),
{
    Alphanumeric.sample_string(&mut rand::thread_rng(), len)
}

/// The client id that the configured id, the machine's host name and a random suffix make:
/// a configured id is used as it is and must not be empty; otherwise "hcs-<host>-<suffix>",
/// with "client" for a host name that could not be read.
pub open spec fn client_id_of(
    configured: Option<Seq<char>>,
    host_name: Option<Seq<char>>,
    suffix: Seq<char>,
) -> Option<Seq<char>> {
    match configured {
        Some(c) => if c.len() == 0 {
            None
        } else {
            Some(c)
        },
        None => Some(
            "hcs-"@ + match host_name {
                Some(h) => h,
                None => "client"@,
            } + "-"@ + suffix,
        ),
    }
}

/// The view of an optional text.
pub open spec fn opt_view(t: Option<String>) -> Option<Seq<char>> {
    match t {
        Some(s) => Some(s@),
        None => None,
    }
}

/// Builds the client id from the configured id, the host name and a suffix.
pub fn client_id_from(configured: Option<String>, host_name: Option<String>, suffix: &str) -> (r:
    Result<String, ConfigError>)
    ensures
        match client_id_of(opt_view(configured), opt_view(host_name), suffix@) {
            Some(id) => r matches Ok(s) && s@ == id,
            None => r == Err::<String, ConfigError>(ConfigError::EmptyClientId),
        },
{
    match configured {
        Some(c) => {
            if c.as_str().unicode_len() == 0 {
                Err(ConfigError::EmptyClientId)
            } else {
                Ok(c)
            }
        },
        None => {
            let host = match host_name {
                Some(h) => h,
                None => String::from_str("client"),
            };
            let mut id = String::from_str("hcs-");
            id.append(host.as_str());
            id.append("-");
            id.append(suffix);
            Ok(id)
        },
    }
}

/// Whether `id` is a client id for the configured id and host name: the configured id, or
/// the generated form with some suffix of eight ASCII letters and digits.
pub open spec fn is_client_id_for(
    configured: Option<Seq<char>>,
    host_name: Option<Seq<char>>,
    id: Seq<char>,
) -> bool {
    exists|suffix: Seq<char>|
        #![trigger client_id_of(configured, host_name, suffix)]
        suffix.len() == CLIENT_ID_SUFFIX_LEN && (forall|i: int|
            0 <= i < suffix.len() ==> is_ascii_alphanumeric(#[trigger] suffix[i]))
            && client_id_of(configured, host_name, suffix) == Some(id)
}

/// The length of the random part of a generated client id.
pub const CLIENT_ID_SUFFIX_LEN: usize = 8;

/// The broker client id: the configured one, which must not be empty, or one made from the host
/// name and eight random ASCII letters and digits.
pub fn mqtt_client_id(configured: Option<String>, host_name: Option<String>) -> (r: Result<
    String,
    ConfigError,
>)
    ensures
        (configured matches Some(c) && c@.len() == 0) ==> r == Err::<String, ConfigError>(
            ConfigError::EmptyClientId,
        ),
        !(configured matches Some(c) && c@.len() == 0) ==> (r matches Ok(s) && is_client_id_for(
            opt_view(configured),
            opt_view(host_name),
            s@,
        )),
{
    let suffix = match &configured {
        Some(_) => String::new(),
        None => random_alphanumeric(CLIENT_ID_SUFFIX_LEN),
    };
    let ghost c = opt_view(configured);
    let ghost h = opt_view(host_name);
    let r = client_id_from(configured, host_name, suffix.as_str());
    proof {
        if c is Some {
            let w = seq!['a', 'a', 'a', 'a', 'a', 'a', 'a', 'a'];
            assert(client_id_of(c, h, w) == client_id_of(c, h, suffix@));
        }
    }
    r
}

/// Where the broker is and how to log in, read from plain settings.
pub struct BrokerSettings {
    /// The configured client id, if any.
    pub client_id: Option<String>,
    /// The machine's host name, if it could be read.
    pub host_name: Option<String>,
    pub host: Option<String>,
    pub port: Option<String>,
    pub keep_alive: Option<String>,
    pub username: Option<String>,
    pub password: Option<String>,
}

/// The broker connection's parameters.
pub struct BrokerConfig {
    pub client_id: String,
    pub host: String,
    pub port: u16,
    pub keep_alive_secs: u64,
    pub credentials: Option<(String, String)>,
}

/// The broker parameters for the settings. The client id is checked first, then the port, then
/// the keep-alive; the first that cannot be used is the error.
pub fn broker_config(settings: BrokerSettings) -> (r: Result<BrokerConfig, ConfigError>)
    ensures
        ({
            let s = settings;
            let empty_id = s.client_id matches Some(c) && c@.len() == 0;
            let port = numeric_setting(s.port, 1883, 65535);
            let keep_alive = numeric_setting(s.keep_alive, 15, u64::MAX as nat);
            if empty_id {
                r == Err::<BrokerConfig, ConfigError>(ConfigError::EmptyClientId)
            } else if port is None {
                r == Err::<BrokerConfig, ConfigError>(ConfigError::InvalidBrokerPort)
            } else if keep_alive is None {
                r == Err::<BrokerConfig, ConfigError>(ConfigError::InvalidKeepAlive)
            } else {
                r matches Ok(b) && {
                    &&& is_client_id_for(opt_view(s.client_id), opt_view(s.host_name), b.client_id@)
                    &&& b.host@ == (match s.host {
                        Some(h) => h@,
                        None => "test.mosquitto.org"@,
                    })
                    &&& b.port == port->Some_0
                    &&& b.keep_alive_secs == keep_alive->Some_0
                    &&& b.credentials == (match (s.username, s.password) {
                        (Some(u), Some(p)) => if u@.len() > 0 && p@.len() > 0 {
                            Some((u, p))
                        } else {
                            None
                        },
                        _ => None,
                    })
                }
            }
        }),
{
    let BrokerSettings { client_id, host_name, host, port, keep_alive, username, password } =
        settings;
    let client_id = match mqtt_client_id(client_id, host_name) {
        Ok(id) => id,
        Err(e) => return Err(e),
    };
    let host = mqtt_host(host);
    let port = match mqtt_port(port) {
        Ok(p) => p,
        Err(e) => return Err(e),
    };
    let keep_alive_secs = match mqtt_keepalive(keep_alive) {
        Ok(k) => k,
        Err(e) => return Err(e),
    };
    let credentials = mqtt_credentials(username, password);
    Ok(BrokerConfig { client_id, host, port, keep_alive_secs, credentials })
}

} // verus!
