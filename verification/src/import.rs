//! Turning the token list that the import endpoint serves into the token
//! list that the service loads.

use vstd::prelude::*;
use crate::registry::Token;

verus! {

/// A token as the import endpoint describes it.
pub struct ApiToken {
    pub contract: String,
    pub decimal_precision: u8,
    pub currency_id: String,
}

/// The tokens that the import gives: in the same order, each named by its
/// currency id and minted at its contract address.
pub fn tokens_from_api(api_tokens: Vec<ApiToken>) -> (r: Vec<Token>)
    ensures
        r@.len() == api_tokens@.len(),
        forall|i: int|
            0 <= i < r@.len() ==> (#[trigger] r@[i]).name@ == api_tokens@[i].currency_id@
                && r@[i].mint@ == api_tokens@[i].contract@,
{
    let mut out: Vec<Token> = Vec::new();
    let n = api_tokens.len();
    let mut i: usize = 0;
    while i < n
        invariant
            n == api_tokens@.len(),
            i <= n,
            out@.len() == i,
            forall|k: int|
                0 <= k < i ==> (#[trigger] out@[k]).name@ == api_tokens@[k].currency_id@
                    && out@[k].mint@ == api_tokens@[k].contract@,
        decreases n - i,
    {
        let t = &api_tokens[i];
        out.push(Token { name: t.currency_id.clone(), mint: t.contract.clone() });
        i = i + 1;
    }
    out
}

} // verus!
