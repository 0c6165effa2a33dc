//! Recognising transfers to watched wallets in the parsed instructions of a
//! block, and the records reported for them.

use vstd::prelude::*;
use crate::json::{
    array_of, array_of_opt, deref_opt, field, field_of, str_of, str_of_opt, JsonValue,
};
use crate::registry::{TokenRegistry, WalletSet};

verus! {

/// The mint address reported for transfers of native SOL.
pub const SOL_MINT: &'static str = "So11111111111111111111111111111111111111112";

/// The address of the SPL token program, which owns token accounts.
pub const TOKEN_PROGRAM_ID: &'static str = "TokenkegQfeZyiNwAJbNbGKPFXCWuBvf9Ss623VQ5DA";

/// Calls `spl_token::id()` and renders it with `to_string()`. The crate
/// declares the id with `declare_id!` on the literal above, and a public key
/// renders as the base58 text it was declared with; that is the claim.
#[verifier::external_body]
fn token_program_id() -> (s: String)
    ensures
        s@ == TOKEN_PROGRAM_ID@,
{
    spl_token::id().to_string()
}

/// The record of one transfer to a watched wallet, as sent to the charging
/// endpoint.
pub struct ParsedTransaction {
    pub network: String,
    pub blocktime: String,
    pub destination: String,
    pub token: String,
    pub mint: String,
    pub amount: String,
    pub signature: String,
    pub success: bool,
}

/// The text of each field of a record.
pub struct ParsedTransactionView {
    pub network: Seq<char>,
    pub blocktime: Seq<char>,
    pub destination: Seq<char>,
    pub token: Seq<char>,
    pub mint: Seq<char>,
    pub amount: Seq<char>,
    pub signature: Seq<char>,
    pub success: bool,
}

impl View for ParsedTransaction {
    type V = ParsedTransactionView;

    open spec fn view(&self) -> ParsedTransactionView {
        ParsedTransactionView {
            network: self.network@,
            blocktime: self.blocktime@,
            destination: self.destination@,
            token: self.token@,
            mint: self.mint@,
            amount: self.amount@,
            signature: self.signature@,
            success: self.success,
        }
    }
}

/// The views of a list of records.
pub open spec fn records(v: Seq<ParsedTransaction>) -> Seq<ParsedTransactionView> {
    v.map_values(|t: ParsedTransaction| t@)
}

impl ParsedTransaction {
    /// A copy of this record.
    pub fn duplicate(&self) -> (t: ParsedTransaction)
        ensures
            t@ == self@,
    {
        ParsedTransaction {
            network: self.network.clone(),
            blocktime: self.blocktime.clone(),
            destination: self.destination.clone(),
            token: self.token.clone(),
            mint: self.mint.clone(),
            amount: self.amount.clone(),
            signature: self.signature.clone(),
            success: self.success,
        }
    }

    /// A record on the SOL network with the given fields.
    pub fn new(
        blocktime: String,
        destination: String,
        token: String,
        mint: String,
        amount: String,
        signature: String,
        success: bool,
    ) -> (t: ParsedTransaction)
        ensures
            t@ == (ParsedTransactionView {
                network: "SOL"@,
                blocktime: blocktime@,
                destination: destination@,
                token: token@,
                mint: mint@,
                amount: amount@,
                signature: signature@,
                success: success,
            }),
    {
        ParsedTransaction {
            network: "SOL".to_owned(),
            blocktime,
            destination,
            token,
            mint,
            amount,
            signature,
            success,
        }
    }
}

/// An optional string read as its text.
pub open spec fn opt_text(o: Option<String>) -> Option<Seq<char>> {
    match o {
        Some(s) => Some(s@),
        None => None,
    }
}

// ---------------------------------------------------------------------
// What an instruction and its transaction's metadata say about a transfer
// ---------------------------------------------------------------------

/// The `info` object of a parsed instruction.
pub open spec fn info_of(obj: JsonValue) -> Option<JsonValue> {
    field(Some(obj), "info"@)
}

/// Whether no amount has been found yet: none was read, or the one read is
/// `null`.
pub open spec fn amount_unset(a: Option<JsonValue>) -> bool {
    match a {
        Some(v) => v.node is Null,
        None => true,
    }
}

/// What has been found so far: the amount value, the token name and the
/// mint address.
pub struct Pending {
    pub amount: Option<JsonValue>,
    pub token: Seq<char>,
    pub mint: Option<Seq<char>>,
}

/// Nothing found yet.
pub open spec fn pending_none() -> Pending {
    Pending { amount: None, token: Seq::empty(), mint: None }
}

/// What the instruction itself says: when its `info.mint` is a supported
/// mint, that token and the amount at `info.tokenAmount.uiAmount`.
pub open spec fn pending_after_instruction(obj: JsonValue, tokens: Map<Seq<char>, Seq<char>>) -> Pending {
    match str_of(field(info_of(obj), "mint"@)) {
        Some(m) => if tokens.contains_key(m) {
            Pending {
                amount: field(field(info_of(obj), "tokenAmount"@), "uiAmount"@),
                token: tokens[m],
                mint: Some(m),
            }
        } else {
            pending_none()
        },
        None => pending_none(),
    }
}

/// The `owner` of a token balance entry, when it is a string.
pub open spec fn balance_owner(b: JsonValue) -> Option<Seq<char>> {
    str_of(field(Some(b), "owner"@))
}

/// Whether a token balance entry belongs to a watched wallet.
pub open spec fn balance_watched(b: JsonValue, wallets: Set<Seq<char>>) -> bool {
    match balance_owner(b) {
        Some(o) => wallets.contains(o),
        None => false,
    }
}

/// `i` is the first entry of `bs` that belongs to a watched wallet.
pub open spec fn is_first_watched(bs: Seq<JsonValue>, wallets: Set<Seq<char>>, i: int) -> bool {
    &&& 0 <= i < bs.len()
    &&& balance_watched(bs[i], wallets)
    &&& forall|j: int| 0 <= j < i ==> !balance_watched(#[trigger] bs[j], wallets)
}

/// The first entry of `bs` that belongs to a watched wallet.
pub open spec fn first_watched(bs: Seq<JsonValue>, wallets: Set<Seq<char>>) -> Option<int> {
    if exists|i: int| is_first_watched(bs, wallets, i) {
        Some(choose|i: int| is_first_watched(bs, wallets, i))
    } else {
        None
    }
}

/// What a watched wallet's balance entry adds while no amount is known:
/// the amount at `uiTokenAmount.uiAmount`, and its mint and token when the
/// mint is supported.
pub open spec fn pending_after_balance(p: Pending, b: JsonValue, tokens: Map<Seq<char>, Seq<char>>) -> Pending {
    if amount_unset(p.amount) {
        let amount = match field(field(Some(b), "uiTokenAmount"@), "uiAmount"@) {
            Some(a) => Some(a),
            None => p.amount,
        };
        match str_of(field(Some(b), "mint"@)) {
            Some(m) => if tokens.contains_key(m) {
                Pending { amount: amount, token: tokens[m], mint: Some(m) }
            } else {
                Pending { amount: amount, token: p.token, mint: p.mint }
            },
            None => Pending { amount: amount, token: p.token, mint: p.mint },
        }
    } else {
        p
    }
}

/// The wallet and findings from a list of token balances, when it is an
/// array with an entry of a watched wallet.
pub open spec fn scan_balances(
    p: Pending,
    list: Option<Seq<JsonValue>>,
    wallets: Set<Seq<char>>,
    tokens: Map<Seq<char>, Seq<char>>,
) -> Option<(Seq<char>, Pending)> {
    match list {
        Some(bs) => match first_watched(bs, wallets) {
            Some(i) => Some(
                (balance_owner(bs[i]).unwrap(), pending_after_balance(p, bs[i], tokens)),
            ),
            None => None,
        },
        None => None,
    }
}

/// The owner recorded in an account key's parsed token account data.
pub open spec fn account_token_owner(acc: JsonValue) -> Option<Seq<char>> {
    str_of(
        field(field(field(field(Some(acc), "data"@), "parsed"@), "info"@), "owner"@),
    )
}

/// Whether an account key is the token account `dest`, owned by the token
/// program, of a watched wallet.
pub open spec fn account_matches(acc: JsonValue, dest: Seq<char>, wallets: Set<Seq<char>>) -> bool {
    &&& str_of(field(Some(acc), "pubkey"@)) == Some(dest)
    &&& str_of(field(Some(acc), "owner"@)) == Some(TOKEN_PROGRAM_ID@)
    &&& match account_token_owner(acc) {
        Some(o) => wallets.contains(o),
        None => false,
    }
}

/// `i` is the first account key that matches.
pub open spec fn is_first_account(accs: Seq<JsonValue>, dest: Seq<char>, wallets: Set<Seq<char>>, i: int) -> bool {
    &&& 0 <= i < accs.len()
    &&& account_matches(accs[i], dest, wallets)
    &&& forall|j: int| 0 <= j < i ==> !account_matches(#[trigger] accs[j], dest, wallets)
}

/// The first account key that matches.
pub open spec fn first_account(accs: Seq<JsonValue>, dest: Seq<char>, wallets: Set<Seq<char>>) -> Option<int> {
    if exists|i: int| is_first_account(accs, dest, wallets, i) {
        Some(choose|i: int| is_first_account(accs, dest, wallets, i))
    } else {
        None
    }
}

/// The instruction's `info.destination`, as text (empty when not a string).
pub open spec fn destination_text(d: JsonValue) -> Seq<char> {
    match str_of(Some(d)) {
        Some(s) => s,
        None => Seq::empty(),
    }
}

/// The watched wallet that the instruction's destination names: the
/// destination itself, or the owner of the token account it names.
pub open spec fn destination_wallet(obj: JsonValue, meta: JsonValue, wallets: Set<Seq<char>>) -> Option<Seq<char>> {
    match field(info_of(obj), "destination"@) {
        Some(d) => {
            let dest = destination_text(d);
            if wallets.contains(dest) {
                Some(dest)
            } else {
                match array_of(field(Some(meta), "accountKeys"@)) {
                    Some(accs) => match first_account(accs, dest, wallets) {
                        Some(i) => Some(account_token_owner(accs[i]).unwrap()),
                        None => None,
                    },
                    None => None,
                }
            }
        },
        None => None,
    }
}

/// The watched wallet and the findings: from the post-transaction balances,
/// else from the pre-transaction balances, else from the destination.
pub open spec fn locate_wallet(
    obj: JsonValue,
    meta: JsonValue,
    wallets: Set<Seq<char>>,
    tokens: Map<Seq<char>, Seq<char>>,
) -> Option<(Seq<char>, Pending)> {
    let p0 = pending_after_instruction(obj, tokens);
    match scan_balances(p0, array_of(field(Some(meta), "postTokenBalances"@)), wallets, tokens) {
        Some(r) => Some(r),
        None => match scan_balances(
            p0,
            array_of(field(Some(meta), "preTokenBalances"@)),
            wallets,
            tokens,
        ) {
            Some(r) => Some(r),
            None => match destination_wallet(obj, meta, wallets) {
                Some(w) => Some((w, p0)),
                None => None,
            },
        },
    }
}

/// Whether the instruction's `type` is `transfer` or `transferChecked`
/// (a `type` that is not a string reads as empty).
pub open spec fn is_transfer_kind(obj: JsonValue) -> bool {
    match field(Some(obj), "type"@) {
        Some(t) => {
            let kind = match str_of(Some(t)) {
                Some(s) => s,
                None => Seq::empty(),
            };
            kind == "transfer"@ || kind == "transferChecked"@
        },
        None => false,
    }
}

/// Where the reported amount comes from.
pub enum TransferAmount {
    /// The rendering of an amount value found in the instruction or balances.
    Reported(String),
    /// The instruction's `info.lamports`, reported in SOL.
    Lamports,
}

/// The text side of a `TransferAmount`.
pub enum AmountView {
    Reported(Seq<char>),
    Lamports,
}

impl View for TransferAmount {
    type V = AmountView;

    open spec fn view(&self) -> AmountView {
        match self {
            TransferAmount::Reported(t) => AmountView::Reported(t@),
            TransferAmount::Lamports => AmountView::Lamports,
        }
    }
}

/// A transfer to a watched wallet, before it becomes a record.
pub struct TransferMatch {
    pub wallet: String,
    pub token: String,
    pub mint: Option<String>,
    pub amount: TransferAmount,
}

/// The text side of a `TransferMatch`.
pub struct TransferView {
    pub wallet: Seq<char>,
    pub token: Seq<char>,
    pub mint: Option<Seq<char>>,
    pub amount: AmountView,
}

impl View for TransferMatch {
    type V = TransferView;

    open spec fn view(&self) -> TransferView {
        TransferView {
            wallet: self.wallet@,
            token: self.token@,
            mint: opt_text(self.mint),
            amount: self.amount@,
        }
    }
}

/// An optional match read as its text side.
pub open spec fn opt_match(m: Option<TransferMatch>) -> Option<TransferView> {
    match m {
        Some(t) => Some(t@),
        None => None,
    }
}

/// The transfer, if any, that a parsed instruction makes to a watched
/// wallet: a wallet must be located, the instruction must be a transfer, and
/// an amount must be known, from the findings or, failing them, from
/// `info.lamports` as SOL.
pub open spec fn spec_match_transfer(
    obj: JsonValue,
    meta: JsonValue,
    wallets: Set<Seq<char>>,
    tokens: Map<Seq<char>, Seq<char>>,
) -> Option<TransferView> {
    match locate_wallet(obj, meta, wallets, tokens) {
        Some((wallet, p)) => if !is_transfer_kind(obj) {
            None
        } else if amount_unset(p.amount) {
            match field(info_of(obj), "lamports"@) {
                Some(_) => Some(
                    TransferView {
                        wallet: wallet,
                        token: "SOL"@,
                        mint: Some(SOL_MINT@),
                        amount: AmountView::Lamports,
                    },
                ),
                None => None,
            }
        } else {
            Some(
                TransferView {
                    wallet: wallet,
                    token: p.token,
                    mint: p.mint,
                    amount: AmountView::Reported(p.amount.unwrap().text@),
                },
            )
        },
        None => None,
    }
}

// ---------------------------------------------------------------------
// The executable side
// ---------------------------------------------------------------------

/// The findings so far, holding the amount value by reference.
pub struct PendingState<'a> {
    pub amount: Option<&'a JsonValue>,
    pub token: String,
    pub mint: Option<String>,
}

impl<'a> PendingState<'a> {
    pub open spec fn spec_pending(&self) -> Pending {
        Pending { amount: deref_opt(self.amount), token: self.token@, mint: opt_text(self.mint) }
    }

    fn duplicate(&self) -> (r: PendingState<'a>)
        ensures
            r.spec_pending() == self.spec_pending(),
    {
        let mint = match &self.mint {
            Some(m) => Some(m.clone()),
            None => None,
        };
        PendingState { amount: self.amount, token: self.token.clone(), mint }
    }
}

fn amount_unset_exec(a: Option<&JsonValue>) -> (b: bool)
    ensures
        b == amount_unset(deref_opt(a)),
{
    match a {
        Some(v) => v.is_null(),
        None => true,
    }
}

fn pending_from_instruction<'a>(obj: &'a JsonValue, tokens: &TokenRegistry) -> (p: PendingState<'a>)
    requires
        tokens.wf(),
    ensures
        p.spec_pending() == pending_after_instruction(*obj, tokens@),
{
    let info = obj.get(&"info".to_owned());
    let none = PendingState { amount: None, token: String::new(), mint: None };
    match str_of_opt(field_of(info, &"mint".to_owned())) {
        Some(m) => match tokens.name_of(m) {
            Some(name) => {
                let amount = field_of(field_of(info, &"tokenAmount".to_owned()), &"uiAmount".to_owned());
                PendingState { amount, token: name, mint: Some(m.clone()) }
            },
            None => none,
        },
        None => none,
    }
}

fn balance_owner_exec(b: &JsonValue) -> (r: Option<&String>)
    ensures
        opt_text(match r { Some(s) => Some(*s), None => None }) == balance_owner(*b),
{
    str_of_opt(b.get(&"owner".to_owned()))
}

fn balance_watched_exec(b: &JsonValue, wallets: &WalletSet) -> (r: bool)
    ensures
        r == balance_watched(*b, wallets@),
{
    match balance_owner_exec(b) {
        Some(o) => wallets.contains(o),
        None => false,
    }
}

fn first_watched_exec(bs: &Vec<JsonValue>, wallets: &WalletSet) -> (r: Option<usize>)
    ensures
        match r {
            Some(i) => first_watched(bs@, wallets@) == Some(i as int),
            None => first_watched(bs@, wallets@) is None,
        },
{
    let n = bs.len();
    let mut i: usize = 0;
    while i < n
        invariant
            n == bs@.len(),
            i <= n,
            forall|j: int| 0 <= j < i ==> !balance_watched(#[trigger] bs@[j], wallets@),
        decreases n - i,
    {
        if balance_watched_exec(&bs[i], wallets) {
            proof {
                assert(is_first_watched(bs@, wallets@, i as int));
                let k = choose|k: int| is_first_watched(bs@, wallets@, k);
                if k < i {
                    assert(!balance_watched(bs@[k], wallets@));
                } else if k > i {
                    assert(!balance_watched(bs@[i as int], wallets@));
                }
            }
            return Some(i);
        }
        i = i + 1;
    }
    None
}

fn pending_from_balance<'a>(p: PendingState<'a>, b: &'a JsonValue, tokens: &TokenRegistry) -> (r: PendingState<'a>)
    requires
        tokens.wf(),
    ensures
        r.spec_pending() == pending_after_balance(p.spec_pending(), *b, tokens@),
{
    if amount_unset_exec(p.amount) {
        let amount = match field_of(b.get(&"uiTokenAmount".to_owned()), &"uiAmount".to_owned()) {
            Some(a) => Some(a),
            None => p.amount,
        };
        match str_of_opt(b.get(&"mint".to_owned())) {
            Some(m) => match tokens.name_of(m) {
                Some(name) => PendingState { amount, token: name, mint: Some(m.clone()) },
                None => PendingState { amount, token: p.token, mint: p.mint },
            },
            None => PendingState { amount, token: p.token, mint: p.mint },
        }
    } else {
        p
    }
}

fn scan_balances_exec<'a>(
    p: &PendingState<'a>,
    list: Option<&'a Vec<JsonValue>>,
    wallets: &WalletSet,
    tokens: &TokenRegistry,
) -> (r: Option<(String, PendingState<'a>)>)
    requires
        tokens.wf(),
    ensures
        match r {
            Some((w, q)) => scan_balances(
                p.spec_pending(),
                match list { Some(l) => Some(l@), None => None },
                wallets@,
                tokens@,
            ) == Some((w@, q.spec_pending())),
            None => scan_balances(
                p.spec_pending(),
                match list { Some(l) => Some(l@), None => None },
                wallets@,
                tokens@,
            ) is None,
        },
{
    match list {
        Some(bs) => match first_watched_exec(bs, wallets) {
            Some(i) => {
                let owner = balance_owner_exec(&bs[i]).unwrap().clone();
                let q = pending_from_balance(p.duplicate(), &bs[i], tokens);
                Some((owner, q))
            },
            None => None,
        },
        None => None,
    }
}

fn account_matches_exec(acc: &JsonValue, dest: &String, wallets: &WalletSet, program: &String) -> (r: bool)
    requires
        program@ == TOKEN_PROGRAM_ID@,
    ensures
        r == account_matches(*acc, dest@, wallets@),
{
    let pubkey_ok = match str_of_opt(acc.get(&"pubkey".to_owned())) {
        Some(pk) => *pk == *dest,
        None => false,
    };
    if !pubkey_ok {
        return false;
    }
    let owner_ok = match str_of_opt(acc.get(&"owner".to_owned())) {
        Some(o) => *o == *program,
        None => false,
    };
    if !owner_ok {
        return false;
    }
    let owner = str_of_opt(
        field_of(
            field_of(field_of(acc.get(&"data".to_owned()), &"parsed".to_owned()), &"info".to_owned()),
            &"owner".to_owned(),
        ),
    );
    match owner {
        Some(o) => wallets.contains(o),
        None => false,
    }
}

fn first_account_exec(accs: &Vec<JsonValue>, dest: &String, wallets: &WalletSet) -> (r: Option<usize>)
    ensures
        match r {
            Some(i) => first_account(accs@, dest@, wallets@) == Some(i as int),
            None => first_account(accs@, dest@, wallets@) is None,
        },
{
    let program = token_program_id();
    let n = accs.len();
    let mut i: usize = 0;
    while i < n
        invariant
            n == accs@.len(),
            i <= n,
            program@ == TOKEN_PROGRAM_ID@,
            forall|j: int| 0 <= j < i ==> !account_matches(#[trigger] accs@[j], dest@, wallets@),
        decreases n - i,
    {
        if account_matches_exec(&accs[i], dest, wallets, &program) {
            proof {
                assert(is_first_account(accs@, dest@, wallets@, i as int));
                let k = choose|k: int| is_first_account(accs@, dest@, wallets@, k);
                if k < i {
                    assert(!account_matches(accs@[k], dest@, wallets@));
                } else if k > i {
                    assert(!account_matches(accs@[i as int], dest@, wallets@));
                }
            }
            return Some(i);
        }
        i = i + 1;
    }
    None
}

fn destination_wallet_exec(obj: &JsonValue, meta: &JsonValue, wallets: &WalletSet) -> (r: Option<String>)
    ensures
        opt_text(r) == destination_wallet(*obj, *meta, wallets@),
{
    let info = obj.get(&"info".to_owned());
    match field_of(info, &"destination".to_owned()) {
        Some(d) => {
            let dest = match d.as_str() {
                Some(s) => s.clone(),
                None => String::new(),
            };
            if wallets.contains(&dest) {
                Some(dest)
            } else {
                match meta.get(&"accountKeys".to_owned()) {
                    Some(keys) => match keys.as_array() {
                        Some(accs) => match first_account_exec(accs, &dest, wallets) {
                            Some(i) => {
                                let owner = str_of_opt(
                                    field_of(
                                        field_of(
                                            field_of(accs[i].get(&"data".to_owned()), &"parsed".to_owned()),
                                            &"info".to_owned(),
                                        ),
                                        &"owner".to_owned(),
                                    ),
                                );
                                Some(owner.unwrap().clone())
                            },
                            None => None,
                        },
                        None => None,
                    },
                    None => None,
                }
            }
        },
        None => None,
    }
}

fn locate_wallet_exec<'a>(
    obj: &'a JsonValue,
    meta: &'a JsonValue,
    wallets: &WalletSet,
    tokens: &TokenRegistry,
) -> (r: Option<(String, PendingState<'a>)>)
    requires
        tokens.wf(),
    ensures
        match r {
            Some((w, q)) => locate_wallet(*obj, *meta, wallets@, tokens@) == Some((w@, q.spec_pending())),
            None => locate_wallet(*obj, *meta, wallets@, tokens@) is None,
        },
{
    let p0 = pending_from_instruction(obj, tokens);
    let post = array_of_opt(meta.get(&"postTokenBalances".to_owned()));
    match scan_balances_exec(&p0, post, wallets, tokens) {
        Some(r) => Some(r),
        None => {
            let pre = array_of_opt(meta.get(&"preTokenBalances".to_owned()));
            match scan_balances_exec(&p0, pre, wallets, tokens) {
                Some(r) => Some(r),
                None => match destination_wallet_exec(obj, meta, wallets) {
                    Some(w) => Some((w, p0)),
                    None => None,
                },
            }
        },
    }
}

fn is_transfer_kind_exec(obj: &JsonValue) -> (b: bool)
    ensures
        b == is_transfer_kind(*obj),
{
    match obj.get(&"type".to_owned()) {
        Some(t) => {
            let kind = match t.as_str() {
                Some(s) => s.clone(),
                None => String::new(),
            };
            kind == "transfer".to_owned() || kind == "transferChecked".to_owned()
        },
        None => false,
    }
}

/// The instruction's `info.lamports`, the value that a SOL amount is read
/// from.
pub fn transfer_lamports(obj: &JsonValue) -> (r: Option<&JsonValue>)
    ensures
        deref_opt(r) == field(info_of(*obj), "lamports"@),
{
    field_of(obj.get(&"info".to_owned()), &"lamports".to_owned())
}

/// The transfer, if any, that the parsed instruction `obj` makes to a
/// watched wallet, reading the transaction's metadata `meta`.
pub fn match_transfer(
    obj: &JsonValue,
    meta: &JsonValue,
    wallets: &WalletSet,
    tokens: &TokenRegistry,
) -> (r: Option<TransferMatch>)
    requires
        tokens.wf(),
    ensures
        opt_match(r) == spec_match_transfer(*obj, *meta, wallets@, tokens@),
{
    match locate_wallet_exec(obj, meta, wallets, tokens) {
        Some((wallet, p)) => {
            if !is_transfer_kind_exec(obj) {
                return None;
            }
            if amount_unset_exec(p.amount) {
                let info = obj.get(&"info".to_owned());
                match field_of(info, &"lamports".to_owned()) {
                    Some(_) => Some(
                        TransferMatch {
                            wallet,
                            token: "SOL".to_owned(),
                            mint: Some(SOL_MINT.to_owned()),
                            amount: TransferAmount::Lamports,
                        },
                    ),
                    None => None,
                }
            } else {
                let text = p.amount.unwrap().text.clone();
                Some(
                    TransferMatch {
                        wallet,
                        token: p.token,
                        mint: p.mint,
                        amount: TransferAmount::Reported(text),
                    },
                )
            }
        },
        None => None,
    }
}

// ---------------------------------------------------------------------
// Records
// ---------------------------------------------------------------------

/// The `chrono` format in which block times are reported.
pub const BLOCKTIME_FORMAT: &'static str = "%Y-%m-%d %H:%M:%S";

/// A Unix `timestamp` as `chrono` renders it in `format`, in UTC.
pub uninterp spec fn blocktime_text(timestamp: i64, format: Seq<char>) -> Seq<char>;

/// The block time reported for a block with Unix `timestamp`.
pub open spec fn block_time_of(timestamp: i64) -> Seq<char> {
    blocktime_text(timestamp, BLOCKTIME_FORMAT@)
}

/// Calls `chrono::DateTime::from_timestamp(timestamp, 0)`, takes the Unix
/// epoch where it gives `None` (`unwrap_or_default`), and renders it with
/// `format`. Rendering panics on a format that chrono cannot read, so only
/// the block time format is admitted. The claim is only that the text
/// depends on the timestamp and the format alone.
#[verifier::external_body]
fn format_blocktime(timestamp: i64, format: &str) -> (s: String)
    requires
        format@ == BLOCKTIME_FORMAT@,
    ensures
        s@ == blocktime_text(timestamp, format@),
{
    chrono::DateTime::from_timestamp(timestamp, 0).unwrap_or_default().format(format).to_string()
}

/// The inputs on which building a record would fail: a transfer whose mint
/// is not known as text, or a transaction without signatures.
pub enum ParseFault {
    MintNotText,
    NoSignature,
}

/// The fault, if any, of turning a match into a record.
pub open spec fn transfer_fault(m: Option<TransferView>, n_signatures: nat) -> Option<ParseFault> {
    match m {
        Some(t) => if t.mint is None {
            Some(ParseFault::MintNotText)
        } else if n_signatures == 0 {
            Some(ParseFault::NoSignature)
        } else {
            None
        },
        None => None,
    }
}

/// The record of a transfer: on the SOL network, at `blocktime`, under the
/// transaction's first `signature`, not yet known to have succeeded; a
/// lamports amount is reported as `lamports_amount`.
pub open spec fn record_of(
    t: TransferView,
    blocktime: Seq<char>,
    signature: Seq<char>,
    lamports_amount: Seq<char>,
) -> ParsedTransactionView {
    ParsedTransactionView {
        network: "SOL"@,
        blocktime: blocktime,
        destination: t.wallet,
        token: t.token,
        mint: t.mint.unwrap(),
        amount: match t.amount {
            AmountView::Reported(a) => a,
            AmountView::Lamports => lamports_amount,
        },
        signature: signature,
        success: false,
    }
}

/// The records that an instruction adds: one for a match, none otherwise.
pub open spec fn records_of_match(
    m: Option<TransferView>,
    blocktime: Seq<char>,
    signatures: Seq<String>,
    lamports_amount: Seq<char>,
) -> Seq<ParsedTransactionView> {
    match m {
        Some(t) => seq![record_of(t, blocktime, signatures[0]@, lamports_amount)],
        None => Seq::empty(),
    }
}

fn push_record(
    m: TransferMatch,
    blocktime: String,
    signatures: &Vec<String>,
    lamports_amount: &String,
    res: &mut Vec<ParsedTransaction>,
)
    requires
        m.mint is Some,
        signatures@.len() > 0,
    ensures
        records(final(res)@) == records(old(res)@).push(
            record_of(m@, blocktime@, signatures@[0]@, lamports_amount@),
        ),
{
    let amount = match m.amount {
        TransferAmount::Reported(a) => a,
        TransferAmount::Lamports => lamports_amount.clone(),
    };
    let mint = match m.mint {
        Some(x) => x,
        None => String::new(),
    };
    let t = ParsedTransaction::new(
        blocktime,
        m.wallet,
        m.token,
        mint,
        amount,
        signatures[0].clone(),
        false,
    );
    res.push(t);
    assert(records(final(res)@) =~= records(old(res)@).push(
        record_of(m@, blocktime@, signatures@[0]@, lamports_amount@),
    ));
}

/// Adds the record of the transfer that the parsed instruction `obj` makes
/// to a watched wallet, if it makes one, stamped with `blocktime`.
pub fn record_transfer(
    obj: &JsonValue,
    meta: &JsonValue,
    blocktime: String,
    wallets: &WalletSet,
    tokens: &TokenRegistry,
    tx_signatures: &Vec<String>,
    lamports_amount: &String,
    res: &mut Vec<ParsedTransaction>,
)
    requires
        tokens.wf(),
        transfer_fault(spec_match_transfer(*obj, *meta, wallets@, tokens@), tx_signatures@.len())
            is None,
    ensures
        records(final(res)@) == records(old(res)@) + records_of_match(
            spec_match_transfer(*obj, *meta, wallets@, tokens@),
            blocktime@,
            tx_signatures@,
            lamports_amount@,
        ),
{
    match match_transfer(obj, meta, wallets, tokens) {
        Some(m) => {
            push_record(m, blocktime, tx_signatures, lamports_amount, res);
        },
        None => {
            assert(records(final(res)@) =~= records(old(res)@) + Seq::empty());
        },
    }
}

/// Adds the record of the transfer that the parsed instruction `obj` makes
/// to a watched wallet, if it makes one, in a block with Unix `timestamp`.
/// `lamports_amount` is the SOL amount that the instruction's
/// `info.lamports` stands for, reported when no other amount is found.
pub fn parse_tx(
    obj: &JsonValue,
    meta: &JsonValue,
    timestamp: i64,
    wallets: &WalletSet,
    tokens: &TokenRegistry,
    tx_signatures: &Vec<String>,
    lamports_amount: &String,
    res: &mut Vec<ParsedTransaction>,
)
    requires
        tokens.wf(),
        transfer_fault(spec_match_transfer(*obj, *meta, wallets@, tokens@), tx_signatures@.len())
            is None,
    ensures
        records(final(res)@) == records(old(res)@) + records_of_match(
            spec_match_transfer(*obj, *meta, wallets@, tokens@),
            block_time_of(timestamp),
            tx_signatures@,
            lamports_amount@,
        ),
{
    let blocktime = format_blocktime(timestamp, BLOCKTIME_FORMAT);
    record_transfer(obj, meta, blocktime, wallets, tokens, tx_signatures, lamports_amount, res);
}

/// As `parse_tx`, for every input: returns the fault, and adds nothing,
/// exactly when the transfer's record cannot be built.
pub fn try_parse_tx(
    obj: &JsonValue,
    meta: &JsonValue,
    timestamp: i64,
    wallets: &WalletSet,
    tokens: &TokenRegistry,
    tx_signatures: &Vec<String>,
    lamports_amount: &String,
    res: &mut Vec<ParsedTransaction>,
) -> (r: Result<(), ParseFault>)
    requires
        tokens.wf(),
    ensures
        match transfer_fault(spec_match_transfer(*obj, *meta, wallets@, tokens@), tx_signatures@.len()) {
            Some(f) => r == Err::<(), ParseFault>(f) && final(res)@ == old(res)@,
            None => r is Ok && records(final(res)@) == records(old(res)@) + records_of_match(
                spec_match_transfer(*obj, *meta, wallets@, tokens@),
                block_time_of(timestamp),
                tx_signatures@,
                lamports_amount@,
            ),
        },
{
    match match_transfer(obj, meta, wallets, tokens) {
        Some(m) => {
            if m.mint.is_none() {
                return Err(ParseFault::MintNotText);
            }
            if tx_signatures.len() == 0 {
                return Err(ParseFault::NoSignature);
            }
            let blocktime = format_blocktime(timestamp, BLOCKTIME_FORMAT);
            push_record(m, blocktime, tx_signatures, lamports_amount, res);
            Ok(())
        },
        None => {
            assert(records(final(res)@) =~= records(old(res)@) + Seq::empty());
            Ok(())
        },
    }
}

// ---------------------------------------------------------------------
// Laws
// ---------------------------------------------------------------------

/// A transfer is only ever reported for an instruction of type `transfer`
/// or `transferChecked`, and only to a watched wallet: the owner of a
/// watched token balance, the destination itself, or the owner of the token
/// account that the destination names.
pub proof fn lemma_match_is_transfer_to_watched_wallet(
    obj: JsonValue,
    meta: JsonValue,
    wallets: Set<Seq<char>>,
    tokens: Map<Seq<char>, Seq<char>>,
)
    ensures
        spec_match_transfer(obj, meta, wallets, tokens) matches Some(t) ==> {
            &&& wallets.contains(t.wallet)
            &&& is_transfer_kind(obj)
        },
{
    let p0 = pending_after_instruction(obj, tokens);
    let post = array_of(field(Some(meta), "postTokenBalances"@));
    let pre = array_of(field(Some(meta), "preTokenBalances"@));
    if let Some(bs) = post {
        if let Some(i) = first_watched(bs, wallets) {
            assert(is_first_watched(bs, wallets, i));
        }
    }
    if let Some(bs) = pre {
        if let Some(i) = first_watched(bs, wallets) {
            assert(is_first_watched(bs, wallets, i));
        }
    }
    if let Some(d) = field(info_of(obj), "destination"@) {
        if let Some(accs) = array_of(field(Some(meta), "accountKeys"@)) {
            if let Some(i) = first_account(accs, destination_text(d), wallets) {
                assert(is_first_account(accs, destination_text(d), wallets, i));
            }
        }
    }
}

/// The token reported with a mint is the registry's name for that mint,
/// except for a SOL transfer read from lamports, which is reported as token
/// `SOL` with the SOL mint.
pub proof fn lemma_match_token_names_its_mint(
    obj: JsonValue,
    meta: JsonValue,
    wallets: Set<Seq<char>>,
    tokens: Map<Seq<char>, Seq<char>>,
)
    ensures
        spec_match_transfer(obj, meta, wallets, tokens) matches Some(t) ==> match t.amount {
            AmountView::Lamports => t.token == "SOL"@ && t.mint == Some(SOL_MINT@),
            AmountView::Reported(_) => match t.mint {
                Some(m) => tokens.contains_key(m) && tokens[m] == t.token,
                None => t.token == Seq::<char>::empty(),
            },
        },
{
    let p0 = pending_after_instruction(obj, tokens);
    assert(p0.mint matches Some(m) ==> tokens.contains_key(m) && tokens[m] == p0.token);
    assert(p0.mint is None ==> p0.token == Seq::<char>::empty());
    let post = array_of(field(Some(meta), "postTokenBalances"@));
    let pre = array_of(field(Some(meta), "preTokenBalances"@));
    if let Some(bs) = post {
        if let Some(i) = first_watched(bs, wallets) {
            let q = pending_after_balance(p0, bs[i], tokens);
            assert(q.mint matches Some(m) ==> tokens.contains_key(m) && tokens[m] == q.token);
            assert(q.mint is None ==> q.token == Seq::<char>::empty());
        }
    }
    if let Some(bs) = pre {
        if let Some(i) = first_watched(bs, wallets) {
            let q = pending_after_balance(p0, bs[i], tokens);
            assert(q.mint matches Some(m) ==> tokens.contains_key(m) && tokens[m] == q.token);
            assert(q.mint is None ==> q.token == Seq::<char>::empty());
        }
    }
}

/// Where the reported wallet comes from: it is watched, and it is the
/// owner of a post- or pre-transaction token balance, or the instruction's
/// destination itself, or the token-program owner recorded for the account
/// key that *is* the destination (never some other account key).
pub proof fn lemma_match_wallet_is_where_the_transfer_lands(
    obj: JsonValue,
    meta: JsonValue,
    wallets: Set<Seq<char>>,
    tokens: Map<Seq<char>, Seq<char>>,
)
    ensures
        spec_match_transfer(obj, meta, wallets, tokens) matches Some(t) ==> {
            &&& wallets.contains(t.wallet)
            &&& {
                ||| (array_of(field(Some(meta), "postTokenBalances"@)) matches Some(bs) && exists|i: int|
                    0 <= i < bs.len() && str_of(field(Some(bs[i]), "owner"@)) == Some(t.wallet))
                ||| (array_of(field(Some(meta), "preTokenBalances"@)) matches Some(bs) && exists|i: int|
                    0 <= i < bs.len() && str_of(field(Some(bs[i]), "owner"@)) == Some(t.wallet))
                ||| (field(field(Some(obj), "info"@), "destination"@) matches Some(d) && {
                    let dest = match str_of(Some(d)) {
                        Some(s) => s,
                        None => Seq::<char>::empty(),
                    };
                    ||| dest == t.wallet
                    ||| (array_of(field(Some(meta), "accountKeys"@)) matches Some(accs) && exists|i: int|
                        0 <= i < accs.len() && str_of(field(Some(accs[i]), "pubkey"@)) == Some(dest)
                            && str_of(field(Some(accs[i]), "owner"@)) == Some(TOKEN_PROGRAM_ID@)
                            && str_of(
                            field(
                                field(field(field(Some(accs[i]), "data"@), "parsed"@), "info"@),
                                "owner"@,
                            ),
                        ) == Some(t.wallet))
                })
            }
        },
{
    lemma_match_is_transfer_to_watched_wallet(obj, meta, wallets, tokens);
    let post = array_of(field(Some(meta), "postTokenBalances"@));
    let pre = array_of(field(Some(meta), "preTokenBalances"@));
    if let Some(bs) = post {
        if let Some(i) = first_watched(bs, wallets) {
            assert(is_first_watched(bs, wallets, i));
            assert(str_of(field(Some(bs[i]), "owner"@)) == Some(balance_owner(bs[i]).unwrap()));
        }
    }
    if let Some(bs) = pre {
        if let Some(i) = first_watched(bs, wallets) {
            assert(is_first_watched(bs, wallets, i));
            assert(str_of(field(Some(bs[i]), "owner"@)) == Some(balance_owner(bs[i]).unwrap()));
        }
    }
    if let Some(d) = field(info_of(obj), "destination"@) {
        if let Some(accs) = array_of(field(Some(meta), "accountKeys"@)) {
            if let Some(i) = first_account(accs, destination_text(d), wallets) {
                assert(is_first_account(accs, destination_text(d), wallets, i));
                assert(account_matches(accs[i], destination_text(d), wallets));
            }
        }
    }
}

/// Whether a JSON value is an amount value that the instruction or a token
/// balance of its transaction carries: the instruction's
/// `info.tokenAmount.uiAmount`, or a post- or pre-transaction balance's
/// `uiTokenAmount.uiAmount`.
pub open spec fn is_carried_amount(v: JsonValue, obj: JsonValue, meta: JsonValue) -> bool {
    ||| field(field(field(Some(obj), "info"@), "tokenAmount"@), "uiAmount"@) == Some(v)
    ||| (array_of(field(Some(meta), "postTokenBalances"@)) matches Some(bs) && exists|i: int|
        0 <= i < bs.len() && field(field(Some(bs[i]), "uiTokenAmount"@), "uiAmount"@) == Some(v))
    ||| (array_of(field(Some(meta), "preTokenBalances"@)) matches Some(bs) && exists|i: int|
        0 <= i < bs.len() && field(field(Some(bs[i]), "uiTokenAmount"@), "uiAmount"@) == Some(v))
}

/// The record of a matched transfer carries what was found: the wallet,
/// the token, the first signature, and, unless the amount is read from
/// lamports, the rendering of a non-null amount value that the instruction
/// or one of its transaction's token balances carries, whatever SOL amount
/// text is passed for lamports. A lamports amount is reported exactly as
/// that SOL text, and needs the instruction's `info.lamports`.
pub proof fn lemma_record_reports_the_found_amount(
    obj: JsonValue,
    meta: JsonValue,
    wallets: Set<Seq<char>>,
    tokens: Map<Seq<char>, Seq<char>>,
    blocktime: Seq<char>,
    signatures: Seq<String>,
    lamports_amount: Seq<char>,
)
    ensures
        spec_match_transfer(obj, meta, wallets, tokens) matches Some(t) ==> {
            let recs = records_of_match(Some(t), blocktime, signatures, lamports_amount);
            &&& recs.len() == 1
            &&& recs[0].network == "SOL"@
            &&& recs[0].blocktime == blocktime
            &&& recs[0].destination == t.wallet
            &&& recs[0].token == t.token
            &&& recs[0].signature == signatures[0]@
            &&& !recs[0].success
            &&& match t.amount {
                AmountView::Reported(a) => {
                    &&& recs[0].amount == a
                    &&& exists|v: JsonValue|
                        !(v.node is Null) && v.text@ == a && #[trigger] is_carried_amount(v, obj, meta)
                },
                AmountView::Lamports => {
                    &&& recs[0].amount == lamports_amount
                    &&& field(field(Some(obj), "info"@), "lamports"@) is Some
                },
            }
        },
{
    let p0 = pending_after_instruction(obj, tokens);
    assert(p0.amount matches Some(v) ==> is_carried_amount(v, obj, meta));
    let post = array_of(field(Some(meta), "postTokenBalances"@));
    let pre = array_of(field(Some(meta), "preTokenBalances"@));
    if let Some(bs) = post {
        if let Some(i) = first_watched(bs, wallets) {
            assert(is_first_watched(bs, wallets, i));
            let q = pending_after_balance(p0, bs[i], tokens);
            if let Some(v) = field(field(Some(bs[i]), "uiTokenAmount"@), "uiAmount"@) {
                assert(is_carried_amount(v, obj, meta));
            }
            assert(q.amount matches Some(v) ==> is_carried_amount(v, obj, meta));
        }
    }
    if let Some(bs) = pre {
        if let Some(i) = first_watched(bs, wallets) {
            assert(is_first_watched(bs, wallets, i));
            let q = pending_after_balance(p0, bs[i], tokens);
            if let Some(v) = field(field(Some(bs[i]), "uiTokenAmount"@), "uiAmount"@) {
                assert(is_carried_amount(v, obj, meta));
            }
            assert(q.amount matches Some(v) ==> is_carried_amount(v, obj, meta));
        }
    }
    if let Some(t) = spec_match_transfer(obj, meta, wallets, tokens) {
        if let AmountView::Reported(a) = t.amount {
            let (w, p) = locate_wallet(obj, meta, wallets, tokens).unwrap();
            let v = p.amount.unwrap();
            assert(is_carried_amount(v, obj, meta));
        }
    }
}

} // verus!
