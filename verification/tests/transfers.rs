use chase::block::{
    apply_statuses, collect_block_transfers, select_signatures, signature_flags_of,
    signatures_to_query, successful_records, BlockTransaction,
    ParsedInstruction,
};
use chase::json::{JsonMember, JsonNode, JsonValue};
use chase::registry::{load_tokens, load_wallets, Token, TokenRegistry, WalletSet};
use chase::transaction::{
    match_transfer, parse_tx, record_transfer, try_parse_tx, ParseFault, ParsedTransaction,
    TransferAmount, SOL_MINT, TOKEN_PROGRAM_ID,
};

fn model(v: &serde_json::Value) -> JsonValue {
    let text = v.to_string();
    let node = match v {
        serde_json::Value::Null => JsonNode::Null,
        serde_json::Value::Bool(b) => JsonNode::Bool(*b),
        serde_json::Value::Number(_) => JsonNode::Number,
        serde_json::Value::String(s) => JsonNode::Str(s.clone()),
        serde_json::Value::Array(a) => JsonNode::Array(a.iter().map(model).collect()),
        serde_json::Value::Object(m) => JsonNode::Object(
            m.iter()
                .map(|(k, v)| JsonMember { key: k.clone(), value: model(v) })
                .collect(),
        ),
    };
    JsonValue { node, text }
}

fn json(text: &str) -> JsonValue {
    model(&serde_json::from_str::<serde_json::Value>(text).unwrap())
}

const USDC: &str = "EPjFWdd5AufqSSqeM2qN1xzybapC8G4wEGGkZwyTDt1v";
const ALICE: &str = "AliceWa11et1111111111111111111111111111111";
const BOB: &str = "BobWa11et11111111111111111111111111111111111";
const ALICE_TOKEN_ACCOUNT: &str = "A1iceTokenAccount11111111111111111111111111";

fn tokens() -> TokenRegistry {
    load_tokens(vec![Token { name: "USDC".to_string(), mint: USDC.to_string() }])
}

fn wallets() -> WalletSet {
    load_wallets(vec![ALICE.to_string()])
}

fn sigs() -> Vec<String> {
    vec!["1".repeat(64), "2".repeat(64)]
}

fn empty_meta() -> JsonValue {
    json(r#"{"postTokenBalances": [], "preTokenBalances": [], "accountKeys": []}"#)
}

#[test]
fn json_navigation_reads_members() {
    let v = json(r#"{"a": {"b": "x"}, "n": 1.5, "z": null}"#);
    let a = v.get(&"a".to_string()).unwrap();
    assert_eq!(a.get(&"b".to_string()).unwrap().as_str().unwrap(), "x");
    assert_eq!(v.get(&"n".to_string()).unwrap().text, "1.5");
    assert!(v.get(&"z".to_string()).unwrap().is_null());
    assert!(v.get(&"missing".to_string()).is_none());
    assert!(a.as_array().is_none());
}

#[test]
fn later_token_with_same_mint_wins() {
    let reg = load_tokens(vec![
        Token { name: "OLD".to_string(), mint: "m1".to_string() },
        Token { name: "B".to_string(), mint: "m2".to_string() },
        Token { name: "NEW".to_string(), mint: "m1".to_string() },
    ]);
    assert_eq!(reg.name_of(&"m1".to_string()), Some("NEW".to_string()));
    assert_eq!(reg.name_of(&"m2".to_string()), Some("B".to_string()));
    assert_eq!(reg.name_of(&"m3".to_string()), None);
    assert!(reg.contains_mint(&"m2".to_string()));
}

#[test]
fn wallet_set_membership() {
    let w = load_wallets(vec!["a".to_string(), "b".to_string(), "a".to_string()]);
    assert!(w.contains(&"a".to_string()));
    assert!(w.contains(&"b".to_string()));
    assert!(!w.contains(&"c".to_string()));
}

#[test]
fn native_transfer_to_watched_wallet_uses_lamports() {
    let obj = json(&format!(
        r#"{{"type": "transfer", "info": {{"destination": "{}", "lamports": 1500000000, "source": "{}"}}}}"#,
        ALICE, BOB
    ));
    let m = match_transfer(&obj, &empty_meta(), &wallets(), &tokens()).unwrap();
    assert_eq!(m.wallet, ALICE);
    assert_eq!(m.token, "SOL");
    assert_eq!(m.mint, Some(SOL_MINT.to_string()));
    assert!(matches!(m.amount, TransferAmount::Lamports));

    let mut res: Vec<ParsedTransaction> = Vec::new();
    parse_tx(&obj, &empty_meta(), 0, &wallets(), &tokens(), &sigs(), &"1.5".to_string(), &mut res);
    assert_eq!(res.len(), 1);
    let t = &res[0];
    assert_eq!(t.network, "SOL");
    assert_eq!(t.blocktime, "1970-01-01 00:00:00");
    assert_eq!(t.destination, ALICE);
    assert_eq!(t.token, "SOL");
    assert_eq!(t.mint, SOL_MINT);
    assert_eq!(t.amount, "1.5");
    assert_eq!(t.signature, "1".repeat(64));
    assert!(!t.success);
}

#[test]
fn blocktime_is_rendered_in_utc() {
    let obj = json(&format!(
        r#"{{"type": "transfer", "info": {{"destination": "{}", "lamports": 5}}}}"#,
        ALICE
    ));
    let mut res: Vec<ParsedTransaction> = Vec::new();
    parse_tx(&obj, &empty_meta(), 1700000000, &wallets(), &tokens(), &sigs(), &"5e-9".to_string(), &mut res);
    assert_eq!(res[0].blocktime, "2023-11-14 22:13:20");
}

#[test]
fn transfer_to_unwatched_wallet_is_ignored() {
    let obj = json(&format!(
        r#"{{"type": "transfer", "info": {{"destination": "{}", "lamports": 10}}}}"#,
        BOB
    ));
    assert!(match_transfer(&obj, &empty_meta(), &wallets(), &tokens()).is_none());
    let mut res: Vec<ParsedTransaction> = Vec::new();
    record_transfer(&obj, &empty_meta(), "t".to_string(), &wallets(), &tokens(), &sigs(), &String::new(), &mut res);
    assert!(res.is_empty());
}

#[test]
fn only_transfer_instructions_count() {
    let obj = json(&format!(
        r#"{{"type": "createAccount", "info": {{"destination": "{}", "lamports": 10}}}}"#,
        ALICE
    ));
    assert!(match_transfer(&obj, &empty_meta(), &wallets(), &tokens()).is_none());
    let no_type = json(&format!(r#"{{"info": {{"destination": "{}", "lamports": 10}}}}"#, ALICE));
    assert!(match_transfer(&no_type, &empty_meta(), &wallets(), &tokens()).is_none());
}

#[test]
fn token_transfer_found_through_post_balances() {
    let obj = json(&format!(
        r#"{{"type": "transferChecked", "info": {{"destination": "{}", "mint": "{}", "tokenAmount": {{"uiAmount": 12.5, "decimals": 6}}}}}}"#,
        ALICE_TOKEN_ACCOUNT, USDC
    ));
    let meta = json(&format!(
        r#"{{"postTokenBalances": [{{"owner": "{}", "mint": "{}", "uiTokenAmount": {{"uiAmount": 99.0}}}}, {{"owner": "{}", "mint": "{}", "uiTokenAmount": {{"uiAmount": 3.0}}}}]}}"#,
        BOB, USDC, ALICE, USDC
    ));
    let m = match_transfer(&obj, &meta, &wallets(), &tokens()).unwrap();
    assert_eq!(m.wallet, ALICE);
    assert_eq!(m.token, "USDC");
    assert_eq!(m.mint, Some(USDC.to_string()));
    match m.amount {
        TransferAmount::Reported(a) => assert_eq!(a, "12.5"),
        TransferAmount::Lamports => panic!("expected a reported amount"),
    }
}

#[test]
fn balance_amount_used_when_instruction_has_none() {
    let obj = json(&format!(
        r#"{{"type": "transfer", "info": {{"destination": "{}", "amount": "100"}}}}"#,
        ALICE_TOKEN_ACCOUNT
    ));
    let meta = json(&format!(
        r#"{{"postTokenBalances": "not a list", "preTokenBalances": [{{"owner": "{}", "mint": "{}", "uiTokenAmount": {{"uiAmount": 7.25}}}}]}}"#,
        ALICE, USDC
    ));
    let m = match_transfer(&obj, &meta, &wallets(), &tokens()).unwrap();
    assert_eq!(m.wallet, ALICE);
    assert_eq!(m.token, "USDC");
    match m.amount {
        TransferAmount::Reported(a) => assert_eq!(a, "7.25"),
        TransferAmount::Lamports => panic!("expected a reported amount"),
    }
}

#[test]
fn token_account_owner_is_the_wallet() {
    let obj = json(&format!(
        r#"{{"type": "transfer", "info": {{"destination": "{}", "lamports": 2039280}}}}"#,
        ALICE_TOKEN_ACCOUNT
    ));
    let meta = json(&format!(
        r#"{{"accountKeys": [
            {{"pubkey": "{acct}", "owner": "SomeOtherProgram111111111111111111111111111", "data": {{"parsed": {{"info": {{"owner": "{bob}"}}}}}}}},
            {{"pubkey": "{acct}", "owner": "{prog}", "data": {{"parsed": {{"info": {{"owner": "{alice}"}}}}}}}}
        ]}}"#,
        acct = ALICE_TOKEN_ACCOUNT,
        prog = TOKEN_PROGRAM_ID,
        alice = ALICE,
        bob = BOB
    ));
    let m = match_transfer(&obj, &meta, &wallets(), &tokens()).unwrap();
    assert_eq!(m.wallet, ALICE);
    assert_eq!(m.token, "SOL");
}

#[test]
fn token_program_id_is_spl_token() {
    assert_eq!(TOKEN_PROGRAM_ID, "TokenkegQfeZyiNwAJbNbGKPFXCWuBvf9Ss623VQ5DA");
    // An account owned by another program is not taken as a token account.
    let obj = json(&format!(
        r#"{{"type": "transfer", "info": {{"destination": "{}", "lamports": 1}}}}"#,
        ALICE_TOKEN_ACCOUNT
    ));
    let meta = json(&format!(
        r#"{{"accountKeys": [{{"pubkey": "{}", "owner": "TokenzQdBNbLqP5VEhdkAS6EPFLC1PHnBqCXEpPxuEb", "data": {{"parsed": {{"info": {{"owner": "{}"}}}}}}}}]}}"#,
        ALICE_TOKEN_ACCOUNT, ALICE
    ));
    assert!(match_transfer(&obj, &meta, &wallets(), &tokens()).is_none());
}

#[test]
fn missing_destination_gives_nothing() {
    let obj = json(r#"{"type": "transfer", "info": {"lamports": 1}}"#);
    assert!(match_transfer(&obj, &empty_meta(), &wallets(), &tokens()).is_none());
}

#[test]
fn amount_without_mint_is_a_fault() {
    // The balance gives an amount but its mint is not supported, so no mint is known.
    let obj = json(r#"{"type": "transfer", "info": {"destination": "x"}}"#);
    let meta = json(&format!(
        r#"{{"postTokenBalances": [{{"owner": "{}", "mint": "UnknownMint", "uiTokenAmount": {{"uiAmount": 1.0}}}}]}}"#,
        ALICE
    ));
    let mut res: Vec<ParsedTransaction> = Vec::new();
    let r = try_parse_tx(&obj, &meta, 0, &wallets(), &tokens(), &sigs(), &String::new(), &mut res);
    assert!(matches!(r, Err(ParseFault::MintNotText)));
    assert!(res.is_empty());
}

#[test]
fn transfer_without_signature_is_a_fault() {
    let obj = json(&format!(r#"{{"type": "transfer", "info": {{"destination": "{}", "lamports": 1}}}}"#, ALICE));
    let mut res: Vec<ParsedTransaction> = Vec::new();
    let r = try_parse_tx(&obj, &empty_meta(), 0, &wallets(), &tokens(), &Vec::new(), &"1e-9".to_string(), &mut res);
    assert!(matches!(r, Err(ParseFault::NoSignature)));
}

fn instruction(obj: JsonValue, lamports: &str) -> Option<ParsedInstruction> {
    Some(ParsedInstruction { parsed: obj, lamports_amount: lamports.to_string() })
}

#[test]
fn block_records_follow_instruction_order() {
    let to_alice = json(&format!(r#"{{"type": "transfer", "info": {{"destination": "{}", "lamports": 1000000000}}}}"#, ALICE));
    let to_bob = json(&format!(r#"{{"type": "transfer", "info": {{"destination": "{}", "lamports": 5}}}}"#, BOB));
    let tx1 = BlockTransaction {
        signatures: Some(vec!["sigA".to_string()]),
        meta: Some(empty_meta()),
        instructions: Some(vec![None, instruction(to_bob, "5e-9"), instruction(to_alice.clone_model(), "1.0")]),
        inner_instructions: Some(vec![vec![instruction(to_alice.clone_model(), "1.0")]]),
    };
    let skipped = BlockTransaction {
        signatures: None,
        meta: Some(empty_meta()),
        instructions: Some(vec![instruction(to_alice.clone_model(), "1.0")]),
        inner_instructions: None,
    };
    let no_meta = BlockTransaction {
        signatures: Some(vec!["sigC".to_string()]),
        meta: None,
        instructions: Some(vec![instruction(to_alice.clone_model(), "1.0")]),
        inner_instructions: None,
    };
    let tx2 = BlockTransaction {
        signatures: Some(vec!["sigB".to_string()]),
        meta: Some(empty_meta()),
        instructions: None,
        inner_instructions: Some(vec![vec![], vec![instruction(to_alice, "1.0")]]),
    };
    let out = match collect_block_transfers(&vec![tx1, skipped, no_meta, tx2], 0, &wallets(), &tokens()) {
        Ok(v) => v,
        Err(_) => panic!("no fault expected"),
    };
    let sigs: Vec<&str> = out.iter().map(|t| t.signature.as_str()).collect();
    assert_eq!(sigs, vec!["sigA", "sigA", "sigB"]);
    assert!(out.iter().all(|t| t.destination == ALICE && t.amount == "1.0"));
}

#[test]
fn block_fault_stops_collection() {
    let to_alice = json(&format!(r#"{{"type": "transfer", "info": {{"destination": "{}", "lamports": 1}}}}"#, ALICE));
    let tx = BlockTransaction {
        signatures: Some(vec![]),
        meta: Some(empty_meta()),
        instructions: Some(vec![instruction(to_alice, "1e-9")]),
        inner_instructions: None,
    };
    assert!(matches!(collect_block_transfers(&vec![tx], 0, &wallets(), &tokens()), Err(ParseFault::NoSignature)));
}

trait CloneModel {
    fn clone_model(&self) -> JsonValue;
}

impl CloneModel for JsonValue {
    fn clone_model(&self) -> JsonValue {
        json(&self.text)
    }
}

fn record(sig: &str) -> ParsedTransaction {
    ParsedTransaction::new(
        "t".to_string(),
        ALICE.to_string(),
        "SOL".to_string(),
        SOL_MINT.to_string(),
        "1".to_string(),
        sig.to_string(),
        false,
    )
}

#[test]
fn only_parsable_signatures_are_queried() {
    let valid = "1".repeat(64);
    let res = vec![record(&valid), record("not-base58!"), record(&"2".repeat(10))];
    assert_eq!(signatures_to_query(&res), vec![valid]);
}

#[test]
fn statuses_set_success_in_order() {
    let mut res = vec![record("a"), record("b"), record("c")];
    apply_statuses(&mut res, &vec![Some(true), Some(false)]);
    assert!(res[0].success);
    assert!(!res[1].success);
    assert!(!res[2].success);
    assert_eq!(res[1].signature, "b");
    let mut more = vec![record("a")];
    apply_statuses(&mut more, &vec![Some(true), None]);
    assert!(more[0].success);
}

#[test]
fn statuses_are_applied_by_position() {
    let valid_a = "1".repeat(64);
    let valid_c = format!("{}2", "1".repeat(63));
    let mut res = vec![record(&valid_a), record("not-a-signature"), record(&valid_c)];
    let flags = signature_flags_of(&res);
    assert_eq!(flags, vec![true, false, true]);
    assert_eq!(signatures_to_query(&res), vec![valid_a.clone(), valid_c.clone()]);
    // The statuses of the two queried signatures go to the first two records.
    apply_statuses(&mut res, &vec![Some(false), Some(true)]);
    assert!(!res[0].success);
    assert!(res[1].success);
    assert!(!res[2].success);
}

#[test]
fn only_successful_records_are_charged() {
    let mut res = vec![record("a"), record("b"), record("c")];
    res[0].success = true;
    res[2].success = true;
    let sent = successful_records(&res);
    let sigs: Vec<&str> = sent.iter().map(|t| t.signature.as_str()).collect();
    assert_eq!(sigs, vec!["a", "c"]);
    assert!(successful_records(&vec![record("z")]).is_empty());
}

#[test]
fn new_record_is_on_sol_network() {
    let t = record("s");
    assert_eq!(t.network, "SOL");
    assert_eq!(t.destination, ALICE);
    assert!(!t.success);
}

#[test]
fn flagged_signatures_are_selected() {
    let res = vec![record("a"), record("b"), record("c")];
    assert_eq!(select_signatures(&res, &vec![true, false, true]), vec!["a".to_string(), "c".to_string()]);
    assert!(select_signatures(&res, &vec![false, false, false]).is_empty());
}

#[test]
fn first_watched_balance_wins_and_post_before_pre() {
    let w = load_wallets(vec![ALICE.to_string(), BOB.to_string()]);
    let obj = json(r#"{"type": "transfer", "info": {"destination": "elsewhere"}}"#);
    let meta = json(&format!(
        r#"{{"postTokenBalances": [{{"owner": "nobody"}}, {{"owner": "{}", "mint": "{}", "uiTokenAmount": {{"uiAmount": 2.0}}}}, {{"owner": "{}", "mint": "{}", "uiTokenAmount": {{"uiAmount": 3.0}}}}],
             "preTokenBalances": [{{"owner": "{}", "mint": "{}", "uiTokenAmount": {{"uiAmount": 4.0}}}}]}}"#,
        BOB, USDC, ALICE, USDC, ALICE, USDC
    ));
    let m = match_transfer(&obj, &meta, &w, &tokens()).unwrap();
    assert_eq!(m.wallet, BOB);
    match m.amount {
        TransferAmount::Reported(a) => assert_eq!(a, "2.0"),
        TransferAmount::Lamports => panic!("expected a reported amount"),
    }
}

#[test]
fn instruction_amount_keeps_its_mint() {
    let obj = json(&format!(
        r#"{{"type": "transfer", "info": {{"destination": "x", "mint": "{}", "tokenAmount": {{"uiAmount": 1.25}}}}}}"#,
        USDC
    ));
    let reg = load_tokens(vec![
        Token { name: "USDC".to_string(), mint: USDC.to_string() },
        Token { name: "OTHER".to_string(), mint: "OtherMint".to_string() },
    ]);
    let meta = json(&format!(
        r#"{{"postTokenBalances": [{{"owner": "{}", "mint": "OtherMint", "uiTokenAmount": {{"uiAmount": 9.0}}}}]}}"#,
        ALICE
    ));
    let m = match_transfer(&obj, &meta, &wallets(), &reg).unwrap();
    assert_eq!(m.token, "USDC");
    assert_eq!(m.mint, Some(USDC.to_string()));
    match m.amount {
        TransferAmount::Reported(a) => assert_eq!(a, "1.25"),
        TransferAmount::Lamports => panic!("expected a reported amount"),
    }
}

#[test]
fn null_amount_falls_back_to_lamports() {
    let obj = json(&format!(
        r#"{{"type": "transfer", "info": {{"destination": "{}", "mint": "{}", "tokenAmount": {{"uiAmount": null}}, "lamports": 7}}}}"#,
        ALICE, USDC
    ));
    let m = match_transfer(&obj, &empty_meta(), &wallets(), &tokens()).unwrap();
    assert!(matches!(m.amount, TransferAmount::Lamports));
    assert_eq!(m.token, "SOL");
}
