//! Processing one block: collecting the transfer records of its
//! transactions, the decisions around fetching it, and folding the
//! signature statuses into the records.

use vstd::prelude::*;
use vstd::arithmetic::power2::{lemma2_to64, pow2};
use vstd::bits::lemma_u64_shl_is_mul;
use crate::json::JsonValue;
use crate::registry::{TokenRegistry, WalletSet};
use crate::transaction::{
    block_time_of, lemma_match_is_transfer_to_watched_wallet, records, records_of_match,
    spec_match_transfer, transfer_fault, try_parse_tx, ParseFault, ParsedTransaction,
    ParsedTransactionView,
};

verus! {

/// An instruction in `jsonParsed` form: its parsed object, and the SOL
/// amount that its `info.lamports` stands for (empty when it has none).
pub struct ParsedInstruction {
    pub parsed: JsonValue,
    pub lamports_amount: String,
}

/// What the transfer logic reads of one transaction of a block.
pub struct BlockTransaction {
    /// The signatures, when the transaction is JSON-encoded.
    pub signatures: Option<Vec<String>>,
    /// The status metadata as JSON, when the block has it.
    pub meta: Option<JsonValue>,
    /// The instructions of a parsed message; `None` entries are instructions
    /// not in parsed form.
    pub instructions: Option<Vec<Option<ParsedInstruction>>>,
    /// The inner instruction groups recorded in the metadata.
    pub inner_instructions: Option<Vec<Vec<Option<ParsedInstruction>>>>,
}

/// Running two steps in turn: the first fault stops, records accumulate.
pub open spec fn and_then_records(
    a: Result<Seq<ParsedTransactionView>, ParseFault>,
    b: Result<Seq<ParsedTransactionView>, ParseFault>,
) -> Result<Seq<ParsedTransactionView>, ParseFault> {
    match a {
        Err(f) => Err(f),
        Ok(x) => match b {
            Err(f) => Err(f),
            Ok(y) => Ok(x + y),
        },
    }
}

/// What one instruction gives: nothing for an instruction not in parsed
/// form, otherwise its record or the fault of building it.
pub open spec fn instruction_outcome(
    ins: Option<ParsedInstruction>,
    meta: JsonValue,
    blocktime: Seq<char>,
    wallets: Set<Seq<char>>,
    tokens: Map<Seq<char>, Seq<char>>,
    signatures: Seq<String>,
) -> Result<Seq<ParsedTransactionView>, ParseFault> {
    match ins {
        Some(pi) => {
            let m = spec_match_transfer(pi.parsed, meta, wallets, tokens);
            match transfer_fault(m, signatures.len()) {
                Some(f) => Err(f),
                None => Ok(records_of_match(m, blocktime, signatures, pi.lamports_amount@)),
            }
        },
        None => Ok(Seq::empty()),
    }
}

/// What a list of instructions gives, in order.
pub open spec fn instructions_outcome(
    ins: Seq<Option<ParsedInstruction>>,
    meta: JsonValue,
    blocktime: Seq<char>,
    wallets: Set<Seq<char>>,
    tokens: Map<Seq<char>, Seq<char>>,
    signatures: Seq<String>,
) -> Result<Seq<ParsedTransactionView>, ParseFault>
    decreases ins.len(),
{
    if ins.len() == 0 {
        Ok(Seq::empty())
    } else {
        and_then_records(
            instructions_outcome(ins.drop_last(), meta, blocktime, wallets, tokens, signatures),
            instruction_outcome(ins.last(), meta, blocktime, wallets, tokens, signatures),
        )
    }
}

/// What a list of inner instruction groups gives, in order.
pub open spec fn groups_outcome(
    groups: Seq<Vec<Option<ParsedInstruction>>>,
    meta: JsonValue,
    blocktime: Seq<char>,
    wallets: Set<Seq<char>>,
    tokens: Map<Seq<char>, Seq<char>>,
    signatures: Seq<String>,
) -> Result<Seq<ParsedTransactionView>, ParseFault>
    decreases groups.len(),
{
    if groups.len() == 0 {
        Ok(Seq::empty())
    } else {
        and_then_records(
            groups_outcome(groups.drop_last(), meta, blocktime, wallets, tokens, signatures),
            instructions_outcome(groups.last()@, meta, blocktime, wallets, tokens, signatures),
        )
    }
}

/// What a transaction gives: nothing without signatures or metadata;
/// otherwise its message's instructions, then its inner instructions.
pub open spec fn transaction_outcome(
    tx: BlockTransaction,
    blocktime: Seq<char>,
    wallets: Set<Seq<char>>,
    tokens: Map<Seq<char>, Seq<char>>,
) -> Result<Seq<ParsedTransactionView>, ParseFault> {
    match (tx.signatures, tx.meta) {
        (Some(sigs), Some(meta)) => and_then_records(
            match tx.instructions {
                Some(ins) => instructions_outcome(ins@, meta, blocktime, wallets, tokens, sigs@),
                None => Ok(Seq::empty()),
            },
            match tx.inner_instructions {
                Some(groups) => groups_outcome(groups@, meta, blocktime, wallets, tokens, sigs@),
                None => Ok(Seq::empty()),
            },
        ),
        _ => Ok(Seq::empty()),
    }
}

/// What a block's transactions give, in order.
pub open spec fn block_outcome(
    txs: Seq<BlockTransaction>,
    blocktime: Seq<char>,
    wallets: Set<Seq<char>>,
    tokens: Map<Seq<char>, Seq<char>>,
) -> Result<Seq<ParsedTransactionView>, ParseFault>
    decreases txs.len(),
{
    if txs.len() == 0 {
        Ok(Seq::empty())
    } else {
        and_then_records(
            block_outcome(txs.drop_last(), blocktime, wallets, tokens),
            transaction_outcome(txs.last(), blocktime, wallets, tokens),
        )
    }
}

proof fn lemma_instructions_fault_sticks(
    ins: Seq<Option<ParsedInstruction>>,
    k: int,
    meta: JsonValue,
    blocktime: Seq<char>,
    wallets: Set<Seq<char>>,
    tokens: Map<Seq<char>, Seq<char>>,
    signatures: Seq<String>,
)
    requires
        0 <= k <= ins.len(),
        instructions_outcome(ins.take(k), meta, blocktime, wallets, tokens, signatures) is Err,
    ensures
        instructions_outcome(ins, meta, blocktime, wallets, tokens, signatures)
            == instructions_outcome(ins.take(k), meta, blocktime, wallets, tokens, signatures),
    decreases ins.len() - k,
{
    if k == ins.len() {
        assert(ins.take(k) =~= ins);
    } else {
        assert(ins.drop_last().take(k) =~= ins.take(k));
        lemma_instructions_fault_sticks(ins.drop_last(), k, meta, blocktime, wallets, tokens, signatures);
    }
}

proof fn lemma_groups_fault_sticks(
    groups: Seq<Vec<Option<ParsedInstruction>>>,
    k: int,
    meta: JsonValue,
    blocktime: Seq<char>,
    wallets: Set<Seq<char>>,
    tokens: Map<Seq<char>, Seq<char>>,
    signatures: Seq<String>,
)
    requires
        0 <= k <= groups.len(),
        groups_outcome(groups.take(k), meta, blocktime, wallets, tokens, signatures) is Err,
    ensures
        groups_outcome(groups, meta, blocktime, wallets, tokens, signatures)
            == groups_outcome(groups.take(k), meta, blocktime, wallets, tokens, signatures),
    decreases groups.len() - k,
{
    if k == groups.len() {
        assert(groups.take(k) =~= groups);
    } else {
        assert(groups.drop_last().take(k) =~= groups.take(k));
        lemma_groups_fault_sticks(groups.drop_last(), k, meta, blocktime, wallets, tokens, signatures);
    }
}

proof fn lemma_block_fault_sticks(
    txs: Seq<BlockTransaction>,
    k: int,
    blocktime: Seq<char>,
    wallets: Set<Seq<char>>,
    tokens: Map<Seq<char>, Seq<char>>,
)
    requires
        0 <= k <= txs.len(),
        block_outcome(txs.take(k), blocktime, wallets, tokens) is Err,
    ensures
        block_outcome(txs, blocktime, wallets, tokens) == block_outcome(txs.take(k), blocktime, wallets, tokens),
    decreases txs.len() - k,
{
    if k == txs.len() {
        assert(txs.take(k) =~= txs);
    } else {
        assert(txs.drop_last().take(k) =~= txs.take(k));
        lemma_block_fault_sticks(txs.drop_last(), k, blocktime, wallets, tokens);
    }
}

/// Adds the records of a list of instructions of one transaction, in order;
/// stops at the first fault.
pub fn parse_instructions(
    instructions: &Vec<Option<ParsedInstruction>>,
    meta: &JsonValue,
    timestamp: i64,
    wallets: &WalletSet,
    tokens: &TokenRegistry,
    tx_signatures: &Vec<String>,
    res: &mut Vec<ParsedTransaction>,
) -> (r: Result<(), ParseFault>)
    requires
        tokens.wf(),
    ensures
        match instructions_outcome(
            instructions@,
            *meta,
            block_time_of(timestamp),
            wallets@,
            tokens@,
            tx_signatures@,
        ) {
            Ok(s) => r is Ok && records(final(res)@) == records(old(res)@) + s,
            Err(f) => r == Err::<(), ParseFault>(f),
        },
{
    let ghost bt = block_time_of(timestamp);
    let ghost start = records(res@);
    let ghost mut acc: Seq<ParsedTransactionView> = Seq::empty();
    let n = instructions.len();
    let mut i: usize = 0;
    assert(instructions@.take(0) =~= Seq::<Option<ParsedInstruction>>::empty());
    assert(start + acc =~= start);
    while i < n
        invariant
            tokens.wf(),
            n == instructions@.len(),
            i <= n,
            instructions_outcome(instructions@.take(i as int), *meta, bt, wallets@, tokens@, tx_signatures@)
                == Ok::<Seq<ParsedTransactionView>, ParseFault>(acc),
            records(res@) == start + acc,
            start == records(old(res)@),
            bt == block_time_of(timestamp),
        decreases n - i,
    {
        assert(instructions@.take(i + 1).drop_last() =~= instructions@.take(i as int));
        assert(instructions@.take(i + 1).last() == instructions@[i as int]);
        match &instructions[i] {
            Some(pi) => {
                match try_parse_tx(&pi.parsed, meta, timestamp, wallets, tokens, tx_signatures, &pi.lamports_amount, res) {
                    Ok(()) => {
                        let ghost added = records_of_match(
                            spec_match_transfer(pi.parsed, *meta, wallets@, tokens@),
                            bt,
                            tx_signatures@,
                            pi.lamports_amount@,
                        );
                        proof {
                            assert(start + acc + added =~= start + (acc + added));
                            acc = acc + added;
                        }
                    },
                    Err(f) => {
                        proof {
                            lemma_instructions_fault_sticks(
                                instructions@, i + 1, *meta, bt, wallets@, tokens@, tx_signatures@);
                        }
                        return Err(f);
                    },
                }
            },
            None => {
                assert(acc + Seq::<ParsedTransactionView>::empty() =~= acc);
            },
        }
        i = i + 1;
    }
    assert(instructions@.take(n as int) =~= instructions@);
    Ok(())
}

/// Adds the records of one transaction of a block: its message's
/// instructions, then its inner instructions; stops at the first fault.
pub fn parse_transaction(
    tx: &BlockTransaction,
    timestamp: i64,
    wallets: &WalletSet,
    tokens: &TokenRegistry,
    res: &mut Vec<ParsedTransaction>,
) -> (r: Result<(), ParseFault>)
    requires
        tokens.wf(),
    ensures
        match transaction_outcome(*tx, block_time_of(timestamp), wallets@, tokens@) {
            Ok(s) => r is Ok && records(final(res)@) == records(old(res)@) + s,
            Err(f) => r == Err::<(), ParseFault>(f),
        },
{
    let ghost bt = block_time_of(timestamp);
    let sigs = match &tx.signatures {
        Some(s) => s,
        None => {
            assert(records(final(res)@) =~= records(old(res)@) + Seq::empty());
            return Ok(());
        },
    };
    let meta = match &tx.meta {
        Some(m) => m,
        None => {
            assert(records(final(res)@) =~= records(old(res)@) + Seq::empty());
            return Ok(());
        },
    };
    let ghost start = records(res@);
    let ghost mut acc: Seq<ParsedTransactionView> = Seq::empty();
    match &tx.instructions {
        Some(ins) => {
            match parse_instructions(ins, meta, timestamp, wallets, tokens, sigs, res) {
                Ok(()) => {
                    proof {
                        acc = instructions_outcome(ins@, *meta, bt, wallets@, tokens@, sigs@)->Ok_0;
                    }
                },
                Err(f) => {
                    return Err(f);
                },
            }
        },
        None => {
            assert(start + acc =~= start);
        },
    }
    match &tx.inner_instructions {
        Some(groups) => {
            let ghost mut inner: Seq<ParsedTransactionView> = Seq::empty();
            let n = groups.len();
            let mut j: usize = 0;
            assert(groups@.take(0) =~= Seq::<Vec<Option<ParsedInstruction>>>::empty());
            assert(start + acc + inner =~= start + acc);
            assert(transaction_outcome(*tx, bt, wallets@, tokens@) == and_then_records(
                Ok(acc),
                groups_outcome(groups@, *meta, bt, wallets@, tokens@, sigs@),
            ));
            while j < n
                invariant
                    tokens.wf(),
                    n == groups@.len(),
                    j <= n,
                    groups_outcome(groups@.take(j as int), *meta, bt, wallets@, tokens@, sigs@)
                        == Ok::<Seq<ParsedTransactionView>, ParseFault>(inner),
                    records(res@) == start + acc + inner,
                    bt == block_time_of(timestamp),
                    transaction_outcome(*tx, bt, wallets@, tokens@) == and_then_records(
                        Ok(acc),
                        groups_outcome(groups@, *meta, bt, wallets@, tokens@, sigs@),
                    ),
                decreases n - j,
            {
                assert(groups@.take(j + 1).drop_last() =~= groups@.take(j as int));
                assert(groups@.take(j + 1).last() == groups@[j as int]);
                match parse_instructions(&groups[j], meta, timestamp, wallets, tokens, sigs, res) {
                    Ok(()) => {
                        let ghost added = instructions_outcome(groups@[j as int]@, *meta, bt, wallets@, tokens@, sigs@)->Ok_0;
                        proof {
                            assert(start + acc + inner + added =~= start + acc + (inner + added));
                            inner = inner + added;
                        }
                    },
                    Err(f) => {
                        proof {
                            lemma_groups_fault_sticks(groups@, j + 1, *meta, bt, wallets@, tokens@, sigs@);
                        }
                        return Err(f);
                    },
                }
                j = j + 1;
            }
            assert(groups@.take(n as int) =~= groups@);
            assert(start + acc + inner =~= start + (acc + inner));
        },
        None => {
            assert(start + acc =~= start + (acc + Seq::<ParsedTransactionView>::empty()));
        },
    }
    Ok(())
}

/// The transfer records of a block's transactions, in order, for a block
/// with Unix `timestamp`; or the first fault in building them.
pub fn collect_block_transfers(
    transactions: &Vec<BlockTransaction>,
    timestamp: i64,
    wallets: &WalletSet,
    tokens: &TokenRegistry,
) -> (r: Result<Vec<ParsedTransaction>, ParseFault>)
    requires
        tokens.wf(),
    ensures
        match block_outcome(transactions@, block_time_of(timestamp), wallets@, tokens@) {
            Ok(s) => r matches Ok(v) && records(v@) == s,
            Err(f) => r == Err::<Vec<ParsedTransaction>, ParseFault>(f),
        },
{
    let ghost bt = block_time_of(timestamp);
    let mut res: Vec<ParsedTransaction> = Vec::new();
    let n = transactions.len();
    let mut i: usize = 0;
    assert(transactions@.take(0) =~= Seq::<BlockTransaction>::empty());
    assert(records(res@) =~= Seq::<ParsedTransactionView>::empty());
    while i < n
        invariant
            tokens.wf(),
            n == transactions@.len(),
            i <= n,
            block_outcome(transactions@.take(i as int), bt, wallets@, tokens@)
                == Ok::<Seq<ParsedTransactionView>, ParseFault>(records(res@)),
            bt == block_time_of(timestamp),
        decreases n - i,
    {
        assert(transactions@.take(i + 1).drop_last() =~= transactions@.take(i as int));
        assert(transactions@.take(i + 1).last() == transactions@[i as int]);
        match parse_transaction(&transactions[i], timestamp, wallets, tokens, &mut res) {
            Ok(()) => {},
            Err(f) => {
                proof {
                    lemma_block_fault_sticks(transactions@, i + 1, bt, wallets@, tokens@);
                }
                return Err(f);
            },
        }
        i = i + 1;
    }
    assert(transactions@.take(n as int) =~= transactions@);
    Ok(res)
}

// ---------------------------------------------------------------------
// Signature statuses
// ---------------------------------------------------------------------

/// Whether `Signature::from_str` accepts the text.
pub uninterp spec fn is_signature_text(s: Seq<char>) -> bool;

/// Calls `solana_sdk::signature::Signature::from_str` on the text and tells
/// whether it succeeded. The claim is only that the answer depends on the
/// text alone.
#[verifier::external_body]
fn signature_parses(s: &String) -> (b: bool)
    ensures
        b == is_signature_text(s@),
{
    s.parse::<solana_sdk::signature::Signature>().is_ok()
}

/// The signatures of the records whose flag is set, in order.
pub open spec fn selected_signatures(rs: Seq<ParsedTransactionView>, flags: Seq<bool>) -> Seq<Seq<char>>
    decreases rs.len(),
{
    if rs.len() == 0 {
        Seq::empty()
    } else if flags[rs.len() - 1] {
        selected_signatures(rs.drop_last(), flags).push(rs.last().signature)
    } else {
        selected_signatures(rs.drop_last(), flags)
    }
}

/// Whether each record's signature parses as a signature.
pub open spec fn signature_flags(rs: Seq<ParsedTransactionView>) -> Seq<bool> {
    Seq::new(rs.len(), |i: int| is_signature_text(rs[i].signature))
}

/// The signatures of the records that parse as signatures, in order.
pub open spec fn queryable_signatures(rs: Seq<ParsedTransactionView>) -> Seq<Seq<char>> {
    selected_signatures(rs, signature_flags(rs))
}

/// The texts of a list of strings.
pub open spec fn texts(v: Seq<String>) -> Seq<Seq<char>> {
    v.map_values(|s: String| s@)
}

/// The signatures of the records whose flag is set, in the records' order.
pub fn select_signatures(res: &Vec<ParsedTransaction>, flags: &Vec<bool>) -> (r: Vec<String>)
    requires
        flags@.len() == res@.len(),
    ensures
        texts(r@) == selected_signatures(records(res@), flags@),
{
    let mut out: Vec<String> = Vec::new();
    let n = res.len();
    let mut i: usize = 0;
    assert(texts(out@) =~= Seq::<Seq<char>>::empty());
    while i < n
        invariant
            n == res@.len(),
            n == flags@.len(),
            i <= n,
            texts(out@) == selected_signatures(records(res@).take(i as int), flags@),
        decreases n - i,
    {
        let ghost prefix = records(res@).take(i + 1);
        assert(prefix.drop_last() =~= records(res@).take(i as int));
        assert(prefix.last() == res@[i as int]@);
        if flags[i] {
            out.push(res[i].signature.clone());
            assert(texts(out@) =~= selected_signatures(records(res@).take(i as int), flags@).push(
                prefix.last().signature,
            ));
        }
        i = i + 1;
    }
    assert(records(res@).take(n as int) =~= records(res@));
    out
}

/// Whether each record's signature parses as a signature.
pub fn signature_flags_of(res: &Vec<ParsedTransaction>) -> (r: Vec<bool>)
    ensures
        r@ == signature_flags(records(res@)),
{
    let mut flags: Vec<bool> = Vec::new();
    let n = res.len();
    let mut i: usize = 0;
    while i < n
        invariant
            n == res@.len(),
            i <= n,
            flags@.len() == i,
            forall|k: int| 0 <= k < i ==> flags@[k] == is_signature_text(#[trigger] res@[k].signature@),
        decreases n - i,
    {
        flags.push(signature_parses(&res[i].signature));
        i = i + 1;
    }
    assert(flags@ =~= signature_flags(records(res@)));
    flags
}

/// The signatures whose statuses are asked for: those of the records that
/// parse as signatures, in the records' order.
pub fn signatures_to_query(res: &Vec<ParsedTransaction>) -> (r: Vec<String>)
    ensures
        texts(r@) == queryable_signatures(records(res@)),
{
    let flags = signature_flags_of(res);
    select_signatures(res, &flags)
}

/// Records the outcome of each transaction by position: the record at
/// position `i` takes the status at position `i` (`Some(true)` when that
/// transaction succeeded), as far as both lists go; every other field is
/// kept. The statuses line up with the records when every record's
/// signature was queried (`lemma_statuses_line_up`).
pub fn apply_statuses(res: &mut Vec<ParsedTransaction>, statuses: &Vec<Option<bool>>)
    requires
        forall|i: int| 0 <= i < old(res)@.len() && 0 <= i < statuses@.len() ==> (#[trigger] statuses@[i]) is Some,
    ensures
        final(res)@.len() == old(res)@.len(),
        forall|i: int|
            0 <= i < final(res)@.len() ==> {
                let before = #[trigger] old(res)@[i]@;
                let after = final(res)@[i]@;
                &&& after.network == before.network
                &&& after.blocktime == before.blocktime
                &&& after.destination == before.destination
                &&& after.token == before.token
                &&& after.mint == before.mint
                &&& after.amount == before.amount
                &&& after.signature == before.signature
                &&& after.success == if i < statuses@.len() {
                    statuses@[i].unwrap()
                } else {
                    before.success
                }
            },
{
    let n = if res.len() < statuses.len() {
        res.len()
    } else {
        statuses.len()
    };
    let mut i: usize = 0;
    while i < n
        invariant
            n <= res@.len(),
            n <= statuses@.len(),
            n == res@.len() || n == statuses@.len(),
            i <= n,
            res@.len() == old(res)@.len(),
            forall|k: int| 0 <= k < old(res)@.len() && 0 <= k < statuses@.len() ==> (#[trigger] statuses@[k]) is Some,
            forall|k: int|
                0 <= k < res@.len() ==> {
                    let before = #[trigger] old(res)@[k]@;
                    let after = res@[k]@;
                    &&& after.network == before.network
                    &&& after.blocktime == before.blocktime
                    &&& after.destination == before.destination
                    &&& after.token == before.token
                    &&& after.mint == before.mint
                    &&& after.amount == before.amount
                    &&& after.signature == before.signature
                    &&& after.success == if k < i {
                        statuses@[k].unwrap()
                    } else {
                        before.success
                    }
                },
        decreases n - i,
    {
        let ok = match statuses[i] {
            Some(b) => b,
            None => false,
        };
        let mut t = res[i].duplicate();
        t.success = ok;
        let ghost prev = res@;
        res.set(i, t);
        assert forall|k: int| 0 <= k < res@.len() && k != i implies #[trigger] res@[k] == prev[k] by {}
        i = i + 1;
    }
}

/// Whether a record's transaction succeeded.
pub open spec fn succeeded() -> spec_fn(ParsedTransactionView) -> bool {
    |p: ParsedTransactionView| p.success
}

/// The records of the transactions that succeeded, in order: those that are
/// charged.
pub fn successful_records(res: &Vec<ParsedTransaction>) -> (r: Vec<ParsedTransaction>)
    ensures
        records(r@) == records(res@).filter(succeeded()),
{
    let mut out: Vec<ParsedTransaction> = Vec::new();
    let n = res.len();
    let mut i: usize = 0;
    assert(records(res@).take(0) =~= Seq::<ParsedTransactionView>::empty());
    assert(Seq::<ParsedTransactionView>::empty().filter(succeeded()) =~= Seq::<ParsedTransactionView>::empty()) by {
        reveal(Seq::filter);
    }
    assert(records(out@) =~= Seq::<ParsedTransactionView>::empty());
    while i < n
        invariant
            n == res@.len(),
            i <= n,
            records(out@) == records(res@).take(i as int).filter(succeeded()),
        decreases n - i,
    {
        let ghost prefix = records(res@).take(i as int);
        assert(records(res@).take(i + 1) =~= prefix.push(res@[i as int]@));
        proof {
            prefix.lemma_filter_push(res@[i as int]@, succeeded());
        }
        if res[i].success {
            let t = res[i].duplicate();
            out.push(t);
            assert(records(out@) =~= prefix.filter(succeeded()).push(res@[i as int]@));
        }
        i = i + 1;
    }
    assert(records(res@).take(n as int) =~= records(res@));
    out
}

// ---------------------------------------------------------------------
// Fetching the block
// ---------------------------------------------------------------------

/// How far behind the newest slot a block may be and still be asked for.
pub const MAX_BLOCK_AGE: u64 = 100500;

/// The JSON-RPC error code for a block that is not available.
pub const BLOCK_NOT_AVAILABLE: i64 = -32004;

/// How often a block that is not available is asked for again.
pub const MAX_FETCH_RETRIES: u64 = 5;

/// Whether block `slot` is too old to ask for, given the newest slot.
pub fn is_block_too_old(slot: u64, current_slot: u64) -> (b: bool)
    requires
        current_slot >= MAX_BLOCK_AGE,
    ensures
        b == (slot < current_slot - MAX_BLOCK_AGE),
{
    slot < current_slot - MAX_BLOCK_AGE
}

/// Why fetching a block failed.
pub enum FetchError {
    /// The node answered with a JSON-RPC error of this code.
    RpcResponse(i64),
    /// Any other failure.
    Other,
}

/// What to do after a failed fetch.
pub enum FetchStep {
    /// Ask again after this many seconds.
    RetryAfter(u64),
    /// Give up on the block.
    Abandon,
}

/// The wait before the `retries`-th renewed request: 2^(retries - 1) seconds.
pub open spec fn fetch_backoff_secs(retries: nat) -> nat {
    pow2(retries) / 2
}

/// The decision after a failed fetch, given how many renewed requests were
/// made already: a block that is not available is asked for again, after a
/// wait that doubles, at most `MAX_FETCH_RETRIES` times; any other failure
/// gives up. Returns the new count and the step.
pub fn after_fetch_error(retries: u64, err: &FetchError) -> (r: (u64, FetchStep))
    requires
        retries <= MAX_FETCH_RETRIES,
    ensures
        match err {
            FetchError::RpcResponse(code) if *code == BLOCK_NOT_AVAILABLE => {
                &&& r.0 == retries + 1
                &&& if retries + 1 > MAX_FETCH_RETRIES {
                    r.1 is Abandon
                } else {
                    r.1 == FetchStep::RetryAfter(fetch_backoff_secs((retries + 1) as nat) as u64)
                }
            },
            _ => r.0 == retries && r.1 is Abandon,
        },
{
    match err {
        FetchError::RpcResponse(code) => {
            if *code == BLOCK_NOT_AVAILABLE {
                let next = retries + 1;
                if next > MAX_FETCH_RETRIES {
                    (next, FetchStep::Abandon)
                } else {
                    proof {
                        lemma2_to64();
                        lemma_u64_shl_is_mul(1, next);
                    }
                    (next, FetchStep::RetryAfter((1u64 << next) / 2))
                }
            } else {
                (retries, FetchStep::Abandon)
            }
        },
        FetchError::Other => (retries, FetchStep::Abandon),
    }
}

/// How many slots behind a newly announced slot the processed block lies,
/// so that it is finalized.
pub const FINALITY_LAG: u64 = 64;

/// The block to process when `slot` is announced.
pub fn block_to_process(slot: u64) -> (r: u64)
    requires
        slot >= FINALITY_LAG,
    ensures
        r == slot - FINALITY_LAG,
{
    slot - FINALITY_LAG
}

// ---------------------------------------------------------------------
// Laws
// ---------------------------------------------------------------------

/// A record as a block yields it: on the SOL network, for a watched wallet,
/// and not yet known to have succeeded.
pub open spec fn is_pending_charge(r: ParsedTransactionView, wallets: Set<Seq<char>>) -> bool {
    &&& r.network == "SOL"@
    &&& wallets.contains(r.destination)
    &&& !r.success
}

/// Every record of a list is a pending charge.
pub open spec fn all_pending_charges(s: Seq<ParsedTransactionView>, wallets: Set<Seq<char>>) -> bool {
    forall|i: int| 0 <= i < s.len() ==> is_pending_charge(#[trigger] s[i], wallets)
}

proof fn lemma_and_then_keeps_pending(
    a: Result<Seq<ParsedTransactionView>, ParseFault>,
    b: Result<Seq<ParsedTransactionView>, ParseFault>,
    wallets: Set<Seq<char>>,
)
    requires
        a matches Ok(x) ==> all_pending_charges(x, wallets),
        b matches Ok(y) ==> all_pending_charges(y, wallets),
    ensures
        and_then_records(a, b) matches Ok(z) ==> all_pending_charges(z, wallets),
{
    if let Ok(x) = a {
        if let Ok(y) = b {
            assert forall|i: int| 0 <= i < (x + y).len() implies is_pending_charge(#[trigger] (x + y)[i], wallets) by {
                if i < x.len() {
                    assert((x + y)[i] == x[i]);
                } else {
                    assert((x + y)[i] == y[i - x.len()]);
                }
            }
        }
    }
}

proof fn lemma_instructions_pending(
    ins: Seq<Option<ParsedInstruction>>,
    meta: JsonValue,
    blocktime: Seq<char>,
    wallets: Set<Seq<char>>,
    tokens: Map<Seq<char>, Seq<char>>,
    signatures: Seq<String>,
)
    ensures
        instructions_outcome(ins, meta, blocktime, wallets, tokens, signatures) matches Ok(s)
            ==> all_pending_charges(s, wallets),
    decreases ins.len(),
{
    if ins.len() > 0 {
        lemma_instructions_pending(ins.drop_last(), meta, blocktime, wallets, tokens, signatures);
        if let Some(pi) = ins.last() {
            lemma_match_is_transfer_to_watched_wallet(pi.parsed, meta, wallets, tokens);
        }
        lemma_and_then_keeps_pending(
            instructions_outcome(ins.drop_last(), meta, blocktime, wallets, tokens, signatures),
            instruction_outcome(ins.last(), meta, blocktime, wallets, tokens, signatures),
            wallets,
        );
    }
}

proof fn lemma_groups_pending(
    groups: Seq<Vec<Option<ParsedInstruction>>>,
    meta: JsonValue,
    blocktime: Seq<char>,
    wallets: Set<Seq<char>>,
    tokens: Map<Seq<char>, Seq<char>>,
    signatures: Seq<String>,
)
    ensures
        groups_outcome(groups, meta, blocktime, wallets, tokens, signatures) matches Ok(s)
            ==> all_pending_charges(s, wallets),
    decreases groups.len(),
{
    if groups.len() > 0 {
        lemma_groups_pending(groups.drop_last(), meta, blocktime, wallets, tokens, signatures);
        lemma_instructions_pending(groups.last()@, meta, blocktime, wallets, tokens, signatures);
        lemma_and_then_keeps_pending(
            groups_outcome(groups.drop_last(), meta, blocktime, wallets, tokens, signatures),
            instructions_outcome(groups.last()@, meta, blocktime, wallets, tokens, signatures),
            wallets,
        );
    }
}

/// Every record that a block yields is a pending charge for a watched
/// wallet on the SOL network: the service charges only its own users'
/// wallets, and learns whether a transfer succeeded only from the statuses.
pub proof fn lemma_block_records_are_pending_charges(
    txs: Seq<BlockTransaction>,
    blocktime: Seq<char>,
    wallets: Set<Seq<char>>,
    tokens: Map<Seq<char>, Seq<char>>,
)
    ensures
        block_outcome(txs, blocktime, wallets, tokens) matches Ok(s) ==> all_pending_charges(s, wallets),
    decreases txs.len(),
{
    if txs.len() > 0 {
        lemma_block_records_are_pending_charges(txs.drop_last(), blocktime, wallets, tokens);
        let tx = txs.last();
        if let (Some(sigs), Some(meta)) = (tx.signatures, tx.meta) {
            if let Some(ins) = tx.instructions {
                lemma_instructions_pending(ins@, meta, blocktime, wallets, tokens, sigs@);
            }
            if let Some(groups) = tx.inner_instructions {
                lemma_groups_pending(groups@, meta, blocktime, wallets, tokens, sigs@);
            }
            lemma_and_then_keeps_pending(
                match tx.instructions {
                    Some(ins) => instructions_outcome(ins@, meta, blocktime, wallets, tokens, sigs@),
                    None => Ok(Seq::empty()),
                },
                match tx.inner_instructions {
                    Some(groups) => groups_outcome(groups@, meta, blocktime, wallets, tokens, sigs@),
                    None => Ok(Seq::empty()),
                },
                wallets,
            );
        }
        lemma_and_then_keeps_pending(
            block_outcome(txs.drop_last(), blocktime, wallets, tokens),
            transaction_outcome(tx, blocktime, wallets, tokens),
            wallets,
        );
    }
}

/// A block that stays unavailable is asked for six times in all, with
/// waits of 1, 2, 4, 8 and 16 seconds between the requests.
pub proof fn lemma_fetch_backoff_schedule()
    ensures
        fetch_backoff_secs(1) == 1,
        fetch_backoff_secs(2) == 2,
        fetch_backoff_secs(3) == 4,
        fetch_backoff_secs(4) == 8,
        fetch_backoff_secs(5) == 16,
        MAX_FETCH_RETRIES + 1 == 6,
{
    lemma2_to64();
}

/// When every record's signature parses, the signatures asked about are the
/// records' signatures in order, so the status at position `i` is that of
/// record `i`.
pub proof fn lemma_statuses_line_up(rs: Seq<ParsedTransactionView>)
    requires
        forall|i: int| 0 <= i < rs.len() ==> is_signature_text(#[trigger] rs[i].signature),
    ensures
        queryable_signatures(rs) == rs.map_values(|r: ParsedTransactionView| r.signature),
{
    lemma_all_selected(rs, signature_flags(rs));
}

proof fn lemma_all_selected(rs: Seq<ParsedTransactionView>, flags: Seq<bool>)
    requires
        rs.len() <= flags.len(),
        forall|i: int| 0 <= i < rs.len() ==> #[trigger] flags[i],
    ensures
        selected_signatures(rs, flags) == rs.map_values(|r: ParsedTransactionView| r.signature),
    decreases rs.len(),
{
    if rs.len() > 0 {
        let init = rs.drop_last();
        lemma_all_selected(init, flags);
        assert(flags[rs.len() - 1]);
        assert(rs.map_values(|r: ParsedTransactionView| r.signature) =~= init.map_values(
            |r: ParsedTransactionView| r.signature,
        ).push(rs.last().signature));
    }
}

/// The records kept for charging are exactly the successful ones, whatever
/// else they hold: the selection is the filter on `success` alone, every
/// kept record succeeded, and every successful record is kept.
pub proof fn lemma_successful_records_keep_exactly_successes(rs: Seq<ParsedTransactionView>)
    ensures
        rs.filter(succeeded()) == rs.filter(|p: ParsedTransactionView| p.success),
        forall|i: int| 0 <= i < rs.filter(succeeded()).len() ==> (#[trigger] rs.filter(succeeded())[i]).success,
        forall|i: int| 0 <= i < rs.len() && (#[trigger] rs[i]).success ==> rs.filter(succeeded()).contains(rs[i]),
{
    assert(succeeded() =~= (|p: ParsedTransactionView| p.success));
    assert forall|i: int| 0 <= i < rs.filter(succeeded()).len() implies (#[trigger] rs.filter(succeeded())[i]).success by {
        rs.lemma_filter_pred(succeeded(), i);
    }
    assert forall|i: int| 0 <= i < rs.len() && (#[trigger] rs[i]).success implies rs.filter(succeeded()).contains(rs[i]) by {
        rs.lemma_filter_contains(succeeded(), i);
    }
}

} // verus!
