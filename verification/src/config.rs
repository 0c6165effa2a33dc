//! The service's configuration, from the values of its environment
//! variables.

use vstd::prelude::*;

verus! {

/// Where the supported tokens are imported from when no endpoint is set.
pub const DEFAULT_IMPORT_TOKENS_ENDPOINT: &'static str = "https://api.ompfinex.com/internal/v1/supported-tokens?networkId=";

/// Where the watched wallets are imported from when no endpoint is set.
pub const DEFAULT_IMPORT_WALLETS_ENDPOINT: &'static str = "https://api.ompfinex.com/internal/v1/supported-wallets?networkId=";

/// Seconds between imports when none (or no number) is set.
pub const DEFAULT_IMPORT_INTERVAL_SECONDS: u64 = 3600;

/// The service's settings.
#[derive(Clone)]
pub struct Config {
    pub sol_rpc_endpoint: String,
    pub sol_wss_endpoint: String,
    pub tokens_file: String,
    pub trigger_endpoint: String,
    pub trigger_api_token: String,
    pub wallets_file: String,
    pub import_tokens_endpoint: String,
    pub import_wallets_endpoint: String,
    pub import_interval_seconds: u64,
}

/// The values of the environment variables that the configuration reads
/// (`None` for one that is not set to valid text).
pub struct ConfigVars {
    pub sol_rpc_endpoint: Option<String>,
    pub sol_wss_endpoint: Option<String>,
    pub tokens_file: Option<String>,
    pub trigger_endpoint: Option<String>,
    pub trigger_api_token: Option<String>,
    pub wallets_file: Option<String>,
    pub import_tokens_endpoint: Option<String>,
    pub import_wallets_endpoint: Option<String>,
    pub import_interval_seconds: Option<String>,
}

/// A required variable that is missing.
pub enum ConfigError {
    MissingSolRpcEndpoint,
    MissingSolWssEndpoint,
    MissingTokensFile,
    MissingTriggerEndpoint,
    MissingTriggerApiToken,
    MissingWalletsFile,
}

impl ConfigError {
    /// The name of the environment variable that is missing.
    pub fn variable(&self) -> (r: &'static str)
        ensures
            r@ == match self {
                ConfigError::MissingSolRpcEndpoint => "SOL_RPC_ENDPOINT"@,
                ConfigError::MissingSolWssEndpoint => "SOL_WSS_ENDPOINT"@,
                ConfigError::MissingTokensFile => "TOKENS_FILE"@,
                ConfigError::MissingTriggerEndpoint => "TRIGGER_ENDPOINT"@,
                ConfigError::MissingTriggerApiToken => "TRIGGER_API_TOKEN"@,
                ConfigError::MissingWalletsFile => "WALLETS_FILE"@,
            },
    {
        match self {
            ConfigError::MissingSolRpcEndpoint => "SOL_RPC_ENDPOINT",
            ConfigError::MissingSolWssEndpoint => "SOL_WSS_ENDPOINT",
            ConfigError::MissingTokensFile => "TOKENS_FILE",
            ConfigError::MissingTriggerEndpoint => "TRIGGER_ENDPOINT",
            ConfigError::MissingTriggerApiToken => "TRIGGER_API_TOKEN",
            ConfigError::MissingWalletsFile => "WALLETS_FILE",
        }
    }
}

/// Whether a character is an ASCII decimal digit.
pub open spec fn is_digit(c: char) -> bool {
    '0' <= c && c <= '9'
}

/// The value of a string of decimal digits.
pub open spec fn decimal_value(ds: Seq<char>) -> nat
    decreases ds.len(),
{
    if ds.len() == 0 {
        0
    } else {
        10 * decimal_value(ds.drop_last()) + (ds.last() as nat - '0' as nat) as nat
    }
}

/// Whether every character of a text is a decimal digit.
pub open spec fn all_digits(ds: Seq<char>) -> bool {
    forall|i: int| 0 <= i < ds.len() ==> is_digit(#[trigger] ds[i])
}

/// The digits of an unsigned number's text: all of it, or what follows a
/// leading `+`.
pub open spec fn unsigned_digits(s: Seq<char>) -> Seq<char> {
    if s.len() > 0 && s[0] == '+' {
        s.skip(1)
    } else {
        s
    }
}

/// What `str::parse::<u64>` gives for a text: the value of an optional `+`
/// followed by one or more decimal digits, when it fits in 64 bits.
pub open spec fn spec_parse_u64(s: Seq<char>) -> Option<u64> {
    if unsigned_digits(s).len() > 0 && all_digits(unsigned_digits(s)) && decimal_value(
        unsigned_digits(s),
    ) <= u64::MAX {
        Some(decimal_value(unsigned_digits(s)) as u64)
    } else {
        None
    }
}

proof fn lemma_decimal_value_grows(ds: Seq<char>, j: int, k: int)
    requires
        0 <= j <= k <= ds.len(),
        all_digits(ds),
    ensures
        decimal_value(ds.take(j)) <= decimal_value(ds.take(k)),
    decreases k - j,
{
    if j < k {
        lemma_decimal_value_grows(ds, j, k - 1);
        assert(ds.take(k).drop_last() =~= ds.take(k - 1));
    }
}

/// Reads a text as an unsigned 64-bit decimal number, as `str::parse::<u64>`
/// does.
pub fn parse_u64(s: &String) -> (r: Option<u64>)
    ensures
        r == spec_parse_u64(s@),
{
    let len = s.as_str().unicode_len();
    let ghost ds = unsigned_digits(s@);
    let start: usize = if len > 0 && s.as_str().get_char(0) == '+' {
        1
    } else {
        0
    };
    assert(ds =~= s@.skip(start as int));
    if start >= len {
        return None;
    }
    let mut value: u64 = 0;
    let mut i: usize = start;
    while i < len
        invariant
            len == s@.len(),
            start <= i <= len,
            ds == s@.skip(start as int),
            ds == unsigned_digits(s@),
            ds.len() == len - start,
            forall|k: int| 0 <= k < i - start ==> is_digit(#[trigger] ds[k]),
            value as nat == decimal_value(ds.take(i - start)),
        decreases len - i,
    {
        let c = s.as_str().get_char(i);
        assert(ds[i - start] == c);
        if !('0' <= c && c <= '9') {
            assert(!is_digit(ds[i - start]));
            assert(!all_digits(ds));
            return None;
        }
        let digit = (c as u32 - '0' as u32) as u64;
        assert(digit as nat == (c as nat - '0' as nat) as nat);
        assert(ds.take(i - start + 1).drop_last() =~= ds.take(i - start));
        assert(ds.take(i - start + 1).last() == c);
        assert(decimal_value(ds.take(i - start + 1)) == 10 * value + digit);
        match value.checked_mul(10) {
            Some(tens) => match tens.checked_add(digit) {
                Some(v) => {
                    value = v;
                },
                None => {
                    proof {
                        if all_digits(ds) {
                            lemma_decimal_value_grows(ds, i - start + 1, ds.len() as int);
                            assert(ds.take(ds.len() as int) =~= ds);
                        }
                    }
                    return None;
                },
            },
            None => {
                proof {
                    if all_digits(ds) {
                        lemma_decimal_value_grows(ds, i - start + 1, ds.len() as int);
                        assert(ds.take(ds.len() as int) =~= ds);
                    }
                }
                return None;
            },
        }
        i = i + 1;
    }
    assert(ds.take(len - start) =~= ds);
    Some(value)
}

/// An optional text, or the default where it is missing.
fn text_or(v: Option<String>, default: &str) -> (r: String)
    ensures
        r@ == match v {
            Some(s) => s@,
            None => default@,
        },
{
    match v {
        Some(s) => s,
        None => default.to_owned(),
    }
}

/// The import interval that a variable's value gives: its number, or the
/// default when it is missing or not a number.
pub open spec fn interval_of(v: Option<Seq<char>>) -> u64 {
    match v {
        Some(s) => match spec_parse_u64(s) {
            Some(n) => n,
            None => DEFAULT_IMPORT_INTERVAL_SECONDS,
        },
        None => DEFAULT_IMPORT_INTERVAL_SECONDS,
    }
}

/// The text of an optional string.
pub open spec fn opt_chars(o: Option<String>) -> Option<Seq<char>> {
    match o {
        Some(s) => Some(s@),
        None => None,
    }
}

impl Config {
    /// The configuration from the variables' values: the first missing one
    /// of the six required variables, in the order of the fields, is the
    /// error; the import endpoints and interval fall back to their defaults.
    pub fn new(vars: ConfigVars) -> (r: Result<Config, ConfigError>)
        ensures
            vars.sol_rpc_endpoint is None ==> r == Err::<Config, ConfigError>(ConfigError::MissingSolRpcEndpoint),
            vars.sol_rpc_endpoint is Some && vars.sol_wss_endpoint is None ==> r == Err::<Config, ConfigError>(
                ConfigError::MissingSolWssEndpoint,
            ),
            vars.sol_rpc_endpoint is Some && vars.sol_wss_endpoint is Some && vars.tokens_file is None
                ==> r == Err::<Config, ConfigError>(ConfigError::MissingTokensFile),
            vars.sol_rpc_endpoint is Some && vars.sol_wss_endpoint is Some && vars.tokens_file is Some
                && vars.trigger_endpoint is None ==> r == Err::<Config, ConfigError>(
                ConfigError::MissingTriggerEndpoint,
            ),
            vars.sol_rpc_endpoint is Some && vars.sol_wss_endpoint is Some && vars.tokens_file is Some
                && vars.trigger_endpoint is Some && vars.trigger_api_token is None ==> r == Err::<
                Config,
                ConfigError,
            >(ConfigError::MissingTriggerApiToken),
            vars.sol_rpc_endpoint is Some && vars.sol_wss_endpoint is Some && vars.tokens_file is Some
                && vars.trigger_endpoint is Some && vars.trigger_api_token is Some
                && vars.wallets_file is None ==> r == Err::<Config, ConfigError>(
                ConfigError::MissingWalletsFile,
            ),
            r matches Ok(c) ==> {
                &&& Some(c.sol_rpc_endpoint@) == opt_chars(vars.sol_rpc_endpoint)
                &&& Some(c.sol_wss_endpoint@) == opt_chars(vars.sol_wss_endpoint)
                &&& Some(c.tokens_file@) == opt_chars(vars.tokens_file)
                &&& Some(c.trigger_endpoint@) == opt_chars(vars.trigger_endpoint)
                &&& Some(c.trigger_api_token@) == opt_chars(vars.trigger_api_token)
                &&& Some(c.wallets_file@) == opt_chars(vars.wallets_file)
                &&& c.import_tokens_endpoint@ == match vars.import_tokens_endpoint {
                    Some(s) => s@,
                    None => DEFAULT_IMPORT_TOKENS_ENDPOINT@,
                }
                &&& c.import_wallets_endpoint@ == match vars.import_wallets_endpoint {
                    Some(s) => s@,
                    None => DEFAULT_IMPORT_WALLETS_ENDPOINT@,
                }
                &&& c.import_interval_seconds == interval_of(opt_chars(vars.import_interval_seconds))
            },
            (vars.sol_rpc_endpoint is Some && vars.sol_wss_endpoint is Some && vars.tokens_file is Some
                && vars.trigger_endpoint is Some && vars.trigger_api_token is Some
                && vars.wallets_file is Some) ==> r is Ok,
    {
        let sol_rpc_endpoint = match vars.sol_rpc_endpoint {
            Some(v) => v,
            None => return Err(ConfigError::MissingSolRpcEndpoint),
        };
        let sol_wss_endpoint = match vars.sol_wss_endpoint {
            Some(v) => v,
            None => return Err(ConfigError::MissingSolWssEndpoint),
        };
        let tokens_file = match vars.tokens_file {
            Some(v) => v,
            None => return Err(ConfigError::MissingTokensFile),
        };
        let trigger_endpoint = match vars.trigger_endpoint {
            Some(v) => v,
            None => return Err(ConfigError::MissingTriggerEndpoint),
        };
        let trigger_api_token = match vars.trigger_api_token {
            Some(v) => v,
            None => return Err(ConfigError::MissingTriggerApiToken),
        };
        let wallets_file = match vars.wallets_file {
            Some(v) => v,
            None => return Err(ConfigError::MissingWalletsFile),
        };
        let import_tokens_endpoint = text_or(vars.import_tokens_endpoint, DEFAULT_IMPORT_TOKENS_ENDPOINT);
        let import_wallets_endpoint = text_or(vars.import_wallets_endpoint, DEFAULT_IMPORT_WALLETS_ENDPOINT);
        let import_interval_seconds = match &vars.import_interval_seconds {
            Some(s) => match parse_u64(s) {
                Some(n) => n,
                None => DEFAULT_IMPORT_INTERVAL_SECONDS,
            },
            None => DEFAULT_IMPORT_INTERVAL_SECONDS,
        };
        Ok(Config {
            sol_rpc_endpoint,
            sol_wss_endpoint,
            tokens_file,
            trigger_endpoint,
            trigger_api_token,
            wallets_file,
            import_tokens_endpoint,
            import_wallets_endpoint,
            import_interval_seconds,
        })
    }
}

} // verus!
