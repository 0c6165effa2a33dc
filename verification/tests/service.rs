use chase::block::{after_fetch_error, block_to_process, is_block_too_old, FetchError, FetchStep};
use chase::config::{parse_u64, Config, ConfigError, ConfigVars};
use chase::import::{tokens_from_api, ApiToken};
use chase::trigger::{after_send_attempt, authorization_header, SendOutcome, SendStep};

fn vars() -> ConfigVars {
    ConfigVars {
        sol_rpc_endpoint: Some("http://rpc".to_string()),
        sol_wss_endpoint: Some("ws://rpc".to_string()),
        tokens_file: Some("tokens.json".to_string()),
        trigger_endpoint: Some("http://charge".to_string()),
        trigger_api_token: Some("secret".to_string()),
        wallets_file: Some("wallets.json".to_string()),
        import_tokens_endpoint: None,
        import_wallets_endpoint: Some("http://wallets".to_string()),
        import_interval_seconds: Some("60".to_string()),
    }
}

#[test]
fn config_defaults_and_values() {
    let c = match Config::new(vars()) {
        Ok(c) => c,
        Err(_) => panic!("complete configuration refused"),
    };
    assert_eq!(c.sol_rpc_endpoint, "http://rpc");
    assert_eq!(c.wallets_file, "wallets.json");
    assert_eq!(
        c.import_tokens_endpoint,
        "https://api.ompfinex.com/internal/v1/supported-tokens?networkId="
    );
    assert_eq!(c.import_wallets_endpoint, "http://wallets");
    assert_eq!(c.import_interval_seconds, 60);
}

#[test]
fn config_interval_falls_back_to_an_hour() {
    let mut v = vars();
    v.import_interval_seconds = Some("soon".to_string());
    assert_eq!(Config::new(v).ok().unwrap().import_interval_seconds, 3600);
    let mut v = vars();
    v.import_interval_seconds = None;
    assert_eq!(Config::new(v).ok().unwrap().import_interval_seconds, 3600);
}

#[test]
fn config_reports_first_missing_variable() {
    let mut v = vars();
    v.trigger_endpoint = None;
    v.wallets_file = None;
    match Config::new(v) {
        Err(e) => {
            assert!(matches!(e, ConfigError::MissingTriggerEndpoint));
            assert_eq!(e.variable(), "TRIGGER_ENDPOINT");
        }
        Ok(_) => panic!("missing variable accepted"),
    }
    let mut v = vars();
    v.sol_rpc_endpoint = None;
    assert!(matches!(Config::new(v), Err(ConfigError::MissingSolRpcEndpoint)));
}

#[test]
fn parse_u64_follows_std() {
    for text in ["0", "42", "+42", "007", "18446744073709551615", "18446744073709551616", "", "+", "-1", "4 2", "12a", "99999999999999999999x"] {
        assert_eq!(parse_u64(&text.to_string()), text.parse::<u64>().ok(), "{text}");
    }
}

#[test]
fn api_tokens_become_tokens() {
    let out = tokens_from_api(vec![
        ApiToken { contract: "mintA".to_string(), decimal_precision: 6, currency_id: "USDC".to_string() },
        ApiToken { contract: "mintB".to_string(), decimal_precision: 9, currency_id: "BONK".to_string() },
    ]);
    assert_eq!(out.len(), 2);
    assert_eq!(out[0].name, "USDC");
    assert_eq!(out[0].mint, "mintA");
    assert_eq!(out[1].name, "BONK");
    assert_eq!(out[1].mint, "mintB");
}

#[test]
fn unavailable_block_is_retried_with_doubling_waits() {
    let mut retries = 0;
    let mut waits = Vec::new();
    loop {
        let (next, step) = after_fetch_error(retries, &FetchError::RpcResponse(-32004));
        retries = next;
        match step {
            FetchStep::RetryAfter(s) => waits.push(s),
            FetchStep::Abandon => break,
        }
    }
    assert_eq!(waits, vec![1, 2, 4, 8, 16]);
    assert_eq!(retries, 6);
}

#[test]
fn other_fetch_errors_abandon() {
    assert!(matches!(after_fetch_error(0, &FetchError::RpcResponse(-32007)), (0, FetchStep::Abandon)));
    assert!(matches!(after_fetch_error(2, &FetchError::Other), (2, FetchStep::Abandon)));
}

#[test]
fn block_age_and_lag() {
    assert!(is_block_too_old(10, 200_000));
    assert!(!is_block_too_old(99_500, 200_000));
    assert!(!is_block_too_old(99_499 + 1, 200_000));
    assert!(is_block_too_old(99_499, 200_000));
    assert_eq!(block_to_process(1000), 936);
    assert_eq!(block_to_process(64), 0);
}

#[test]
fn delivery_retries_back_off() {
    let mut waits = Vec::new();
    for attempt in 0..=5u64 {
        match after_send_attempt(attempt, &SendOutcome::Answered(500)) {
            SendStep::RetryAfter(s) => waits.push(s),
            SendStep::GiveUp => {
                assert_eq!(attempt, 5);
                break;
            }
            SendStep::Delivered => panic!("500 is not delivery"),
        }
    }
    assert_eq!(waits, vec![0, 60, 180, 420, 900]);
    assert!(matches!(after_send_attempt(3, &SendOutcome::Answered(200)), SendStep::Delivered));
    assert!(matches!(after_send_attempt(5, &SendOutcome::Failed), SendStep::GiveUp));
    assert!(matches!(after_send_attempt(0, &SendOutcome::Answered(201)), SendStep::RetryAfter(0)));
}

#[test]
fn authorization_header_is_bearer() {
    assert_eq!(authorization_header(&"abc".to_string()), "Bearer abc");
}
