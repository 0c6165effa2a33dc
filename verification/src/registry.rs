//! The watched wallets and the supported tokens, as loaded from their lists.

use vstd::prelude::*;

verus! {

/// A supported token: its display name and the address of its mint.
pub struct Token {
    pub name: String,
    pub mint: String,
}

/// The registry that a list of tokens gives, read in order: each token maps
/// its mint to its name, and a later token with the same mint replaces an
/// earlier one.
pub open spec fn tokens_map(tokens: Seq<Token>) -> Map<Seq<char>, Seq<char>>
    decreases tokens.len(),
{
    if tokens.len() == 0 {
        Map::empty()
    } else {
        tokens_map(tokens.drop_last()).insert(tokens.last().mint@, tokens.last().name@)
    }
}

/// The set of wallet addresses that a list holds.
pub open spec fn wallets_set(wallets: Seq<String>) -> Set<Seq<char>> {
    Set::new(|w: Seq<char>| exists|i: int| 0 <= i < wallets.len() && wallets[i]@ == w)
}

/// Supported tokens, keyed by mint address.
pub struct TokenRegistry {
    entries: Vec<Token>,
    mapping: Ghost<Map<Seq<char>, Seq<char>>>,
}

impl View for TokenRegistry {
    type V = Map<Seq<char>, Seq<char>>;

    closed spec fn view(&self) -> Map<Seq<char>, Seq<char>> {
        self.mapping@
    }
}

impl TokenRegistry {
    /// The entries hold each mint once, and the mapping is exactly theirs.
    pub closed spec fn wf(&self) -> bool {
        &&& forall|i: int, j: int|
            0 <= i < j < self.entries@.len() ==> #[trigger] self.entries@[i].mint@
                != #[trigger] self.entries@[j].mint@
        &&& forall|i: int|
            0 <= i < self.entries@.len() ==> #[trigger] self.mapping@.contains_key(
                self.entries@[i].mint@,
            ) && self.mapping@[self.entries@[i].mint@] == self.entries@[i].name@
        &&& forall|k: Seq<char>|
            #[trigger] self.mapping@.contains_key(k) ==> exists|i: int|
                0 <= i < self.entries@.len() && self.entries@[i].mint@ == k
    }

    /// An empty registry.
    pub fn new() -> (r: TokenRegistry)
        ensures
            r.wf(),
            r@ == Map::<Seq<char>, Seq<char>>::empty(),
    {
        TokenRegistry { entries: Vec::new(), mapping: Ghost(Map::empty()) }
    }

    /// Maps `token.mint` to `token.name`, replacing what the mint mapped to.
    pub fn insert(&mut self, token: Token)
        requires
            old(self).wf(),
        ensures
            final(self).wf(),
            final(self)@ == old(self)@.insert(token.mint@, token.name@),
    {
        let n = self.entries.len();
        let mut i: usize = 0;
        while i < n
            invariant
                self.wf(),
                n == self.entries@.len(),
                i <= n,
                self@ == old(self)@,
                forall|j: int| 0 <= j < i ==> self.entries@[j].mint@ != token.mint@,
            decreases n - i,
        {
            if self.entries[i].mint == token.mint {
                let ghost key = token.mint@;
                let ghost value = token.name@;
                let ghost old_entries = self.entries@;
                self.entries.set(i, token);
                self.mapping = Ghost(self.mapping@.insert(key, value));
                assert forall|j: int| 0 <= j < self.entries@.len() implies #[trigger] self.mapping@.contains_key(
                    self.entries@[j].mint@,
                ) && self.mapping@[self.entries@[j].mint@] == self.entries@[j].name@ by {
                    if j != i {
                        assert(old_entries[j] == self.entries@[j]);
                        assert(old_entries[i as int].mint@ == key);
                        if j < i {
                            assert(old_entries[j].mint@ != old_entries[i as int].mint@);
                        } else {
                            assert(old_entries[i as int].mint@ != old_entries[j].mint@);
                        }
                    }
                }
                assert forall|k: Seq<char>| #[trigger] self.mapping@.contains_key(k) implies exists|j: int|
                    0 <= j < self.entries@.len() && self.entries@[j].mint@ == k by {
                    if k != key {
                        let j = choose|j: int| 0 <= j < old_entries.len() && old_entries[j].mint@ == k;
                        assert(self.entries@[j].mint@ == k);
                    } else {
                        assert(self.entries@[i as int].mint@ == k);
                    }
                }
                return;
            }
            i = i + 1;
        }
        let ghost key = token.mint@;
        let ghost value = token.name@;
        let ghost old_entries = self.entries@;
        self.entries.push(token);
        self.mapping = Ghost(self.mapping@.insert(key, value));
        assert forall|j: int| 0 <= j < self.entries@.len() implies #[trigger] self.mapping@.contains_key(
            self.entries@[j].mint@,
        ) && self.mapping@[self.entries@[j].mint@] == self.entries@[j].name@ by {
            if j < n {
                assert(old_entries[j] == self.entries@[j]);
            }
        }
        assert forall|k: Seq<char>| #[trigger] self.mapping@.contains_key(k) implies exists|j: int|
            0 <= j < self.entries@.len() && self.entries@[j].mint@ == k by {
            if k != key {
                let j = choose|j: int| 0 <= j < old_entries.len() && old_entries[j].mint@ == k;
                assert(self.entries@[j].mint@ == k);
            } else {
                assert(self.entries@[n as int].mint@ == k);
            }
        }
    }

    /// The name of the token whose mint is `mint`, if it is supported.
    pub fn name_of(&self, mint: &String) -> (r: Option<String>)
        requires
            self.wf(),
        ensures
            match r {
                Some(name) => self@.contains_key(mint@) && self@[mint@] == name@,
                None => !self@.contains_key(mint@),
            },
    {
        let n = self.entries.len();
        let mut i: usize = 0;
        while i < n
            invariant
                self.wf(),
                n == self.entries@.len(),
                i <= n,
                forall|j: int| 0 <= j < i ==> self.entries@[j].mint@ != mint@,
            decreases n - i,
        {
            if self.entries[i].mint == *mint {
                return Some(self.entries[i].name.clone());
            }
            i = i + 1;
        }
        None
    }

    /// Whether `mint` is the mint of a supported token.
    pub fn contains_mint(&self, mint: &String) -> (b: bool)
        requires
            self.wf(),
        ensures
            b == self@.contains_key(mint@),
    {
        self.name_of(mint).is_some()
    }
}

/// Watched wallet addresses.
pub struct WalletSet {
    wallets: Vec<String>,
}

impl View for WalletSet {
    type V = Set<Seq<char>>;

    closed spec fn view(&self) -> Set<Seq<char>> {
        wallets_set(self.wallets@)
    }
}

impl WalletSet {
    /// Whether `wallet` is watched.
    pub fn contains(&self, wallet: &String) -> (b: bool)
        ensures
            b == self@.contains(wallet@),
    {
        let n = self.wallets.len();
        let mut i: usize = 0;
        while i < n
            invariant
                n == self.wallets@.len(),
                i <= n,
                forall|j: int| 0 <= j < i ==> self.wallets@[j]@ != wallet@,
            decreases n - i,
        {
            if self.wallets[i] == *wallet {
                assert(wallets_set(self.wallets@).contains(wallet@));
                return true;
            }
            i = i + 1;
        }
        false
    }
}

/// The token registry of a list of supported tokens: each mint maps to the
/// name of the last token in the list with that mint.
pub fn load_tokens(tokens: Vec<Token>) -> (r: TokenRegistry)
    ensures
        r.wf(),
        r@ == tokens_map(tokens@),
{
    let ghost all = tokens@;
    let mut registry = TokenRegistry::new();
    let mut rest = tokens;
    let n = rest.len();
    let mut i: usize = 0;
    while i < n
        invariant
            registry.wf(),
            n == all.len(),
            i <= n,
            rest@ == all.skip(i as int),
            registry@ == tokens_map(all.take(i as int)),
        decreases n - i,
    {
        // Tokens are taken from the front, so a later one replaces an earlier one.
        let token = rest.remove(0);
        proof {
            assert(token == all[i as int]);
            assert(all.take(i + 1).drop_last() =~= all.take(i as int));
            assert(all.take(i + 1).last() == all[i as int]);
            assert(rest@ =~= all.skip(i + 1));
        }
        registry.insert(token);
        i = i + 1;
    }
    assert(all.take(n as int) =~= all);
    registry
}

/// The wallet set of a list of watched wallet addresses.
pub fn load_wallets(wallets: Vec<String>) -> (r: WalletSet)
    ensures
        r@ == wallets_set(wallets@),
{
    WalletSet { wallets }
}

/// Loading a token list supports exactly the mints that occur in it, and
/// a mint names the last token in the list that has it.
pub proof fn lemma_tokens_map_last_wins(tokens: Seq<Token>, m: Seq<char>)
    ensures
        tokens_map(tokens).contains_key(m) <==> exists|i: int| 0 <= i < tokens.len() && tokens[i].mint@ == m,
        forall|i: int|
            0 <= i < tokens.len() && #[trigger] tokens[i].mint@ == m && (forall|j: int|
                i < j < tokens.len() ==> tokens[j].mint@ != m) ==> tokens_map(tokens)[m] == tokens[i].name@,
    decreases tokens.len(),
{
    if tokens.len() > 0 {
        let init = tokens.drop_last();
        lemma_tokens_map_last_wins(init, m);
        if tokens_map(tokens).contains_key(m) {
            if tokens.last().mint@ != m {
                let i = choose|i: int| 0 <= i < init.len() && init[i].mint@ == m;
                assert(tokens[i].mint@ == m);
            } else {
                assert(tokens[tokens.len() - 1].mint@ == m);
            }
        }
        if exists|i: int| 0 <= i < tokens.len() && tokens[i].mint@ == m {
            let i = choose|i: int| 0 <= i < tokens.len() && tokens[i].mint@ == m;
            if i < tokens.len() - 1 {
                assert(init[i].mint@ == m);
            }
        }
        assert forall|i: int|
            0 <= i < tokens.len() && #[trigger] tokens[i].mint@ == m && (forall|j: int|
                i < j < tokens.len() ==> tokens[j].mint@ != m) implies tokens_map(tokens)[m] == tokens[i].name@ by {
            if i < tokens.len() - 1 {
                assert(tokens[tokens.len() - 1].mint@ != m);
                assert(init[i] == tokens[i]);
                assert forall|j: int| i < j < init.len() implies init[j].mint@ != m by {
                    assert(init[j] == tokens[j]);
                }
            }
        }
    }
}

/// Every address in the wallet list is watched, and nothing else is.
pub proof fn lemma_listed_wallets_are_watched(wallets: Seq<String>)
    ensures
        forall|i: int| 0 <= i < wallets.len() ==> wallets_set(wallets).contains(#[trigger] wallets[i]@),
        forall|w: Seq<char>| #[trigger] wallets_set(wallets).contains(w) ==> exists|i: int|
            0 <= i < wallets.len() && wallets[i]@ == w,
{
    assert forall|i: int| 0 <= i < wallets.len() implies wallets_set(wallets).contains(#[trigger] wallets[i]@) by {
        assert(wallets[i]@ == wallets[i]@);
    }
}

} // verus!
