//! The two directories that stand beside the pools: one of the pools
//! deployed for pairs of assets, one of the tokens deployed.
//!
//! A directory does not deploy anything.  It decides whether a deployment may
//! go ahead, says with which code, and keeps the record of what its host has
//! deployed.

use crate::identity::Identity;
use vstd::prelude::*;

verus! {

/// The hash of the code that a factory deploys.
pub type WasmHash = [u8; 32];

/// Why a factory refused an operation.  A refused operation changes nothing.
#[derive(Clone, Copy, Debug, PartialEq, Eq, Structural)]
pub enum FactoryError {
    /// The caller is not the administrator, or has not authorized the
    /// operation.
    Unauthorized,
    /// No code hash has been set.
    HashNotSet,
    /// Both assets of the pair are the same.
    IdenticalTokens,
    /// A pool exists for the pair.
    PoolExists,
    /// No metadata is recorded for the token.
    MetadataNotSet,
    /// The directory cannot hold another record.
    Full,
}

impl FactoryError {
    /// The text that describes this error.
    pub fn message(self) -> (text: &'static str)
        ensures
            text@ == (match self {
                FactoryError::Unauthorized => "Unauthorized"@,
                FactoryError::HashNotSet => "Wasm hash not set"@,
                FactoryError::IdenticalTokens => "Tokens must be different"@,
                FactoryError::PoolExists => "Pool already exists for pair"@,
                FactoryError::MetadataNotSet => "Token metadata not set"@,
                FactoryError::Full => "Directory is full"@,
            }),
    {
        match self {
            FactoryError::Unauthorized => "Unauthorized",
            FactoryError::HashNotSet => "Wasm hash not set",
            FactoryError::IdenticalTokens => "Tokens must be different",
            FactoryError::PoolExists => "Pool already exists for pair",
            FactoryError::MetadataNotSet => "Token metadata not set",
            FactoryError::Full => "Directory is full",
        }
    }
}

/// A pool on record, as contracts see it.
pub struct PoolEntry {
    pub token_a: Seq<char>,
    pub token_b: Seq<char>,
    pub pool: Seq<char>,
}

/// Whether `pools` holds a pool for the pair `token_a`, `token_b`, in this
/// order.
pub open spec fn has_pair(pools: Seq<PoolEntry>, token_a: Seq<char>, token_b: Seq<char>) -> bool {
    exists|i: int|
        0 <= i < pools.len() && (#[trigger] pools[i]).token_a == token_a && pools[i].token_b
            == token_b
}

/// Whether no pair occurs twice in `pools`.
pub open spec fn pairs_distinct(pools: Seq<PoolEntry>) -> bool {
    forall|i: int, j: int|
        0 <= i < j < pools.len() ==> !((#[trigger] pools[i]).token_a == (
        #[trigger] pools[j]).token_a && pools[i].token_b == pools[j].token_b)
}

/// The pool on record for the pair, if there is one.
pub open spec fn pool_of(pools: Seq<PoolEntry>, token_a: Seq<char>, token_b: Seq<char>) -> Option<
    Seq<char>,
> {
    if has_pair(pools, token_a, token_b) {
        Some(
            pools[choose|i: int|
                0 <= i < pools.len() && (#[trigger] pools[i]).token_a == token_a
                    && pools[i].token_b == token_b].pool,
        )
    } else {
        None
    }
}

/// The directory of pools as contracts see it.
pub struct PoolFactoryState {
    pub admin: Seq<char>,
    pub pool_wasm_hash: Option<WasmHash>,
    /// The pools on record, in the order of their creation.
    pub pools: Seq<PoolEntry>,
}

impl PoolFactoryState {
    /// Whether the state is valid: no pair has two pools, no pool is of one
    /// asset with itself, and the number of pools is that of a `u32`.
    pub open spec fn wf(self) -> bool {
        &&& pairs_distinct(self.pools)
        &&& forall|i: int|
            0 <= i < self.pools.len() ==> (#[trigger] self.pools[i]).token_a
                != self.pools[i].token_b
        &&& self.pools.len() <= u32::MAX
    }
}

/// What setting the code hash comes to: it takes the administrator, and its
/// authorization.
pub open spec fn may_set_hash(admin: Seq<char>, caller: Seq<char>, authorized: bool) -> bool {
    caller == admin && authorized
}

/// What recording `pool` for the pair `token_a`, `token_b` comes to: the
/// hash of the code to deploy and the state with the pool on record.
///
/// The checks are made in this order, and the first that fails decides:
/// that the assets differ; that the pair has no pool; that a code hash is
/// set; that the directory is not full.
pub open spec fn create_pool_outcome(
    state: PoolFactoryState,
    token_a: Seq<char>,
    token_b: Seq<char>,
    pool: Seq<char>,
) -> Result<(WasmHash, PoolFactoryState), FactoryError> {
    if token_a == token_b {
        Err(FactoryError::IdenticalTokens)
    } else if has_pair(state.pools, token_a, token_b) {
        Err(FactoryError::PoolExists)
    } else if state.pool_wasm_hash is None {
        Err(FactoryError::HashNotSet)
    } else if state.pools.len() >= u32::MAX {
        Err(FactoryError::Full)
    } else {
        Ok(
            (
                state.pool_wasm_hash->Some_0,
                PoolFactoryState {
                    pools: state.pools.push(PoolEntry { token_a, token_b, pool }),
                    ..state
                },
            ),
        )
    }
}

/// A pool on record.
#[derive(Debug)]
pub struct PoolRecord {
    pub token_a: Identity,
    pub token_b: Identity,
    pub pool: Identity,
}

/// A list of pool records as contracts see it.
pub open spec fn pool_entries(records: Seq<PoolRecord>) -> Seq<PoolEntry> {
    Seq::new(
        records.len(),
        |i: int|
            PoolEntry {
                token_a: records[i].token_a@,
                token_b: records[i].token_b@,
                pool: records[i].pool@,
            },
    )
}

/// The directory of the pools deployed for pairs of assets.
pub struct PoolFactory {
    admin: Identity,
    pool_wasm_hash: Option<WasmHash>,
    pools: Vec<PoolRecord>,
}

impl View for PoolFactory {
    type V = PoolFactoryState;

    closed spec fn view(&self) -> PoolFactoryState {
        PoolFactoryState {
            admin: self.admin@,
            pool_wasm_hash: self.pool_wasm_hash,
            pools: pool_entries(self.pools@),
        }
    }
}

impl PoolFactory {
    /// Whether the factory is valid: its state is, see
    /// [`PoolFactoryState::wf`].
    pub open spec fn wf(&self) -> bool {
        self@.wf()
    }

    /// An empty directory under the administrator `admin`, without a code
    /// hash.
    pub fn new(admin: Identity) -> (factory: PoolFactory)
        ensures
            factory.wf(),
            factory@ == (PoolFactoryState {
                admin: admin@,
                pool_wasm_hash: None,
                pools: Seq::empty(),
            }),
    {
        let factory = PoolFactory { admin, pool_wasm_hash: None, pools: Vec::new() };
        assert(factory@.pools =~= Seq::<PoolEntry>::empty());
        factory
    }

    /// The directory with the given administrator, code hash and records,
    /// where these make a valid directory.
    pub fn restore(
        admin: Identity,
        pool_wasm_hash: Option<WasmHash>,
        pools: Vec<PoolRecord>,
    ) -> (factory: Option<PoolFactory>)
        ensures
            match factory {
                Some(factory) => factory.wf() && factory@ == (PoolFactoryState {
                    admin: admin@,
                    pool_wasm_hash,
                    pools: pool_entries(pools@),
                }),
                None => !(PoolFactoryState {
                    admin: admin@,
                    pool_wasm_hash,
                    pools: pool_entries(pools@),
                }).wf(),
            },
    {
        if pools.len() > 0xffff_ffff {
            return None;
        }
        let ghost entries = pool_entries(pools@);
        let mut i: usize = 0;
        while i < pools.len()
            invariant
                i <= pools@.len(),
                entries == pool_entries(pools@),
                pairs_distinct(entries.subrange(0, i as int)),
                forall|k: int| 0 <= k < i ==> (#[trigger] entries[k]).token_a != entries[k].token_b,
            decreases pools@.len() - i,
        {
            if pools[i].token_a.same(&pools[i].token_b) {
                assert(entries[i as int].token_a == entries[i as int].token_b);
                return None;
            }
            let mut j: usize = 0;
            while j < i
                invariant
                    j <= i < pools@.len(),
                    entries == pool_entries(pools@),
                    forall|k: int|
                        0 <= k < j ==> !((#[trigger] entries[k]).token_a
                            == entries[i as int].token_a && entries[k].token_b
                            == entries[i as int].token_b),
                decreases i - j,
            {
                if pools[j].token_a.same(&pools[i].token_a) && pools[j].token_b.same(
                    &pools[i].token_b,
                ) {
                    assert(entries[j as int].token_a == entries[i as int].token_a
                        && entries[j as int].token_b == entries[i as int].token_b);
                    return None;
                }
                j += 1;
            }
            proof {
                let before = entries.subrange(0, i as int);
                let after = entries.subrange(0, i + 1);
                assert forall|a: int, b: int| 0 <= a < b < after.len() implies !((
                #[trigger] after[a]).token_a == (#[trigger] after[b]).token_a && after[a].token_b
                    == after[b].token_b) by {
                }
            }
            i += 1;
        }
        assert(entries.subrange(0, i as int) =~= entries);
        Some(PoolFactory { admin, pool_wasm_hash, pools })
    }

    /// The administrator.
    pub fn admin(&self) -> (admin: Identity)
        ensures
            admin@ == self@.admin,
    {
        self.admin.clone()
    }

    /// Sets the hash of the code that pools are deployed with.  Only the
    /// administrator may do so.
    ///
    /// `authorized` says whether `admin_addr` has authorized the operation.
    pub fn update_pool_wasm_hash(
        &mut self,
        admin_addr: &Identity,
        authorized: bool,
        new_hash: WasmHash,
    ) -> (result: Result<(), FactoryError>)
        ensures
            match result {
                Ok(()) => may_set_hash(old(self)@.admin, admin_addr@, authorized) && final(self)@
                    == (PoolFactoryState { pool_wasm_hash: Some(new_hash), ..old(self)@ }),
                Err(error) => !may_set_hash(old(self)@.admin, admin_addr@, authorized) && error
                    == FactoryError::Unauthorized && final(self)@ == old(self)@,
            },
    {
        if !self.admin.same(admin_addr) || !authorized {
            return Err(FactoryError::Unauthorized);
        }
        self.pool_wasm_hash = Some(new_hash);
        Ok(())
    }

    /// The hash of the code that pools are deployed with.
    pub fn get_pool_wasm_hash(&self) -> (result: Result<WasmHash, FactoryError>)
        ensures
            match self@.pool_wasm_hash {
                Some(hash) => result == Ok::<WasmHash, FactoryError>(hash),
                None => result == Err::<WasmHash, FactoryError>(FactoryError::HashNotSet),
            },
    {
        match self.pool_wasm_hash {
            Some(hash) => Ok(hash),
            None => Err(FactoryError::HashNotSet),
        }
    }

    /// Where the pair `token_a`, `token_b` is on record, if anywhere.
    fn find_pair(&self, token_a: &Identity, token_b: &Identity) -> (found: Option<usize>)
        ensures
            match found {
                Some(i) => i < self@.pools.len() && self@.pools[i as int].token_a == token_a@
                    && self@.pools[i as int].token_b == token_b@,
                None => !has_pair(self@.pools, token_a@, token_b@),
            },
    {
        let mut i: usize = 0;
        while i < self.pools.len()
            invariant
                i <= self.pools@.len(),
                self@.pools == pool_entries(self.pools@),
                forall|k: int|
                    0 <= k < i ==> !((#[trigger] self@.pools[k]).token_a == token_a@
                        && self@.pools[k].token_b == token_b@),
            decreases self.pools@.len() - i,
        {
            if self.pools[i].token_a.same(token_a) && self.pools[i].token_b.same(token_b) {
                return Some(i);
            }
            i += 1;
        }
        None
    }

    /// Puts the pool `pool`, which the host deploys for the pair `token_a`,
    /// `token_b`, on record, and gives the hash of the code to deploy it
    /// with.  A pair can have one pool only.
    pub fn create_pool(
        &mut self,
        token_a: &Identity,
        token_b: &Identity,
        pool: Identity,
    ) -> (result: Result<WasmHash, FactoryError>)
        requires
            old(self).wf(),
        ensures
            final(self).wf(),
            match create_pool_outcome(old(self)@, token_a@, token_b@, pool@) {
                Ok(created) => result == Ok::<WasmHash, FactoryError>(created.0) && final(self)@
                    == created.1,
                Err(error) => result == Err::<WasmHash, FactoryError>(error) && final(self)@
                    == old(self)@,
            },
    {
        if token_a.same(token_b) {
            return Err(FactoryError::IdenticalTokens);
        }
        if self.find_pair(token_a, token_b).is_some() {
            return Err(FactoryError::PoolExists);
        }
        let hash = match self.pool_wasm_hash {
            Some(hash) => hash,
            None => {
                return Err(FactoryError::HashNotSet);
            },
        };
        if self.pools.len() >= 0xffff_ffff {
            return Err(FactoryError::Full);
        }
        let ghost before = self@.pools;
        let ghost entry = PoolEntry { token_a: token_a@, token_b: token_b@, pool: pool@ };
        self.pools.push(PoolRecord { token_a: token_a.clone(), token_b: token_b.clone(), pool });
        proof {
            let after = self@.pools;
            assert(after =~= before.push(entry));
            assert forall|a: int, b: int| 0 <= a < b < after.len() implies !((
            #[trigger] after[a]).token_a == (#[trigger] after[b]).token_a && after[a].token_b
                == after[b].token_b) by {
            }
            assert forall|k: int| 0 <= k < after.len() implies (#[trigger] after[k]).token_a
                != after[k].token_b by {
            }
        }
        Ok(hash)
    }

    /// The pool on record for the pair `token_a`, `token_b`, in this order.
    pub fn get_pool(&self, token_a: &Identity, token_b: &Identity) -> (pool: Option<Identity>)
        requires
            self.wf(),
        ensures
            match pool {
                Some(address) => pool_of(self@.pools, token_a@, token_b@) == Some(address@),
                None => pool_of(self@.pools, token_a@, token_b@) is None,
            },
    {
        match self.find_pair(token_a, token_b) {
            Some(i) => {
                proof {
                    let pools = self@.pools;
                    let chosen = choose|k: int|
                        0 <= k < pools.len() && (#[trigger] pools[k]).token_a == token_a@
                            && pools[k].token_b == token_b@;
                    if chosen < i {
                        assert(!(pools[chosen].token_a == pools[i as int].token_a
                            && pools[chosen].token_b == pools[i as int].token_b));
                    }
                    if i < chosen {
                        assert(!(pools[i as int].token_a == pools[chosen].token_a
                            && pools[i as int].token_b == pools[chosen].token_b));
                    }
                }
                Some(self.pools[i].pool.clone())
            },
            None => None,
        }
    }

    /// The records of all pools, in the order of their creation.
    pub fn records(&self) -> (records: &Vec<PoolRecord>)
        ensures
            pool_entries(records@) == self@.pools,
    {
        &self.pools
    }

    /// All pools on record, in the order of their creation.
    pub fn get_all_pools(&self) -> (pools: Vec<Identity>)
        ensures
            pools@.len() == self@.pools.len(),
            forall|i: int| 0 <= i < pools@.len() ==> (#[trigger] pools@[i])@ == self@.pools[i].pool,
    {
        let mut pools: Vec<Identity> = Vec::new();
        let mut i: usize = 0;
        while i < self.pools.len()
            invariant
                i <= self.pools@.len(),
                pools@.len() == i,
                self@.pools == pool_entries(self.pools@),
                forall|k: int| 0 <= k < i ==> (#[trigger] pools@[k])@ == self@.pools[k].pool,
            decreases self.pools@.len() - i,
        {
            pools.push(self.pools[i].pool.clone());
            i += 1;
        }
        pools
    }

    /// The number of pools on record.
    pub fn get_pool_count(&self) -> (count: u32)
        requires
            self.wf(),
        ensures
            count == self@.pools.len(),
    {
        self.pools.len() as u32
    }
}

/// A token on record, as contracts see it.
pub struct TokenEntry {
    pub token: Seq<char>,
    pub metadata: Seq<char>,
}

/// Whether `tokens` holds a record of `token`.
pub open spec fn has_token(tokens: Seq<TokenEntry>, token: Seq<char>) -> bool {
    exists|i: int| 0 <= i < tokens.len() && (#[trigger] tokens[i]).token == token
}

/// Whether the entry at `i` is the last record of `token`.
pub open spec fn is_last_record(tokens: Seq<TokenEntry>, token: Seq<char>, i: int) -> bool {
    &&& 0 <= i < tokens.len()
    &&& tokens[i].token == token
    &&& forall|j: int| i < j < tokens.len() ==> (#[trigger] tokens[j]).token != token
}

/// The directory of tokens as contracts see it.
pub struct TokenFactoryState {
    pub admin: Seq<char>,
    pub token_wasm_hash: Option<WasmHash>,
    /// The tokens on record, in the order of their creation.
    pub tokens: Seq<TokenEntry>,
}

/// A token on record.
#[derive(Debug)]
pub struct TokenRecord {
    pub token: Identity,
    pub metadata: String,
}

/// A list of token records as contracts see it.
pub open spec fn token_entries(records: Seq<TokenRecord>) -> Seq<TokenEntry> {
    Seq::new(
        records.len(),
        |i: int| TokenEntry { token: records[i].token@, metadata: records[i].metadata@ },
    )
}

/// The directory of the tokens deployed.
pub struct TokenFactory {
    admin: Identity,
    token_wasm_hash: Option<WasmHash>,
    tokens: Vec<TokenRecord>,
}

impl View for TokenFactory {
    type V = TokenFactoryState;

    closed spec fn view(&self) -> TokenFactoryState {
        TokenFactoryState {
            admin: self.admin@,
            token_wasm_hash: self.token_wasm_hash,
            tokens: token_entries(self.tokens@),
        }
    }
}

impl TokenFactory {
    /// An empty directory under the administrator `admin`, without a code
    /// hash.
    pub fn new(admin: Identity) -> (factory: TokenFactory)
        ensures
            factory@ == (TokenFactoryState {
                admin: admin@,
                token_wasm_hash: None,
                tokens: Seq::empty(),
            }),
    {
        let factory = TokenFactory { admin, token_wasm_hash: None, tokens: Vec::new() };
        assert(factory@.tokens =~= Seq::<TokenEntry>::empty());
        factory
    }

    /// The directory with the given administrator, code hash and records.
    pub fn restore(
        admin: Identity,
        token_wasm_hash: Option<WasmHash>,
        tokens: Vec<TokenRecord>,
    ) -> (factory: TokenFactory)
        ensures
            factory@ == (TokenFactoryState {
                admin: admin@,
                token_wasm_hash,
                tokens: token_entries(tokens@),
            }),
    {
        TokenFactory { admin, token_wasm_hash, tokens }
    }

    /// The administrator.
    pub fn admin(&self) -> (admin: Identity)
        ensures
            admin@ == self@.admin,
    {
        self.admin.clone()
    }

    /// Sets the hash of the code that tokens are deployed with.  Only the
    /// administrator may do so.
    ///
    /// `authorized` says whether `admin_addr` has authorized the operation.
    pub fn update_pool_wasm_hash(
        &mut self,
        admin_addr: &Identity,
        authorized: bool,
        new_hash: WasmHash,
    ) -> (result: Result<(), FactoryError>)
        ensures
            match result {
                Ok(()) => may_set_hash(old(self)@.admin, admin_addr@, authorized) && final(self)@
                    == (TokenFactoryState { token_wasm_hash: Some(new_hash), ..old(self)@ }),
                Err(error) => !may_set_hash(old(self)@.admin, admin_addr@, authorized) && error
                    == FactoryError::Unauthorized && final(self)@ == old(self)@,
            },
    {
        if !self.admin.same(admin_addr) || !authorized {
            return Err(FactoryError::Unauthorized);
        }
        self.token_wasm_hash = Some(new_hash);
        Ok(())
    }

    /// The hash of the code that tokens are deployed with.
    pub fn get_pool_wasm_hash(&self) -> (result: Result<WasmHash, FactoryError>)
        ensures
            match self@.token_wasm_hash {
                Some(hash) => result == Ok::<WasmHash, FactoryError>(hash),
                None => result == Err::<WasmHash, FactoryError>(FactoryError::HashNotSet),
            },
    {
        match self.token_wasm_hash {
            Some(hash) => Ok(hash),
            None => Err(FactoryError::HashNotSet),
        }
    }

    /// Puts the token `token`, which the host deploys, on record with its
    /// metadata, and gives the hash of the code to deploy it with.
    pub fn create_token(&mut self, token: Identity, token_metadata: String) -> (result: Result<
        WasmHash,
        FactoryError,
    >)
        ensures
            match old(self)@.token_wasm_hash {
                Some(hash) => result == Ok::<WasmHash, FactoryError>(hash) && final(self)@ == (
                TokenFactoryState {
                    tokens: old(self)@.tokens.push(
                        TokenEntry { token: token@, metadata: token_metadata@ },
                    ),
                    ..old(self)@
                }),
                None => result == Err::<WasmHash, FactoryError>(FactoryError::HashNotSet)
                    && final(self)@ == old(self)@,
            },
    {
        let hash = match self.token_wasm_hash {
            Some(hash) => hash,
            None => {
                return Err(FactoryError::HashNotSet);
            },
        };
        let ghost before = self@.tokens;
        let ghost entry = TokenEntry { token: token@, metadata: token_metadata@ };
        self.tokens.push(TokenRecord { token, metadata: token_metadata });
        assert(self@.tokens =~= before.push(entry));
        Ok(hash)
    }

    /// The records of all tokens, in the order of their creation.
    pub fn records(&self) -> (records: &Vec<TokenRecord>)
        ensures
            token_entries(records@) == self@.tokens,
    {
        &self.tokens
    }

    /// All tokens on record, in the order of their creation.
    pub fn get_all_deployed_tokens(&self) -> (tokens: Vec<Identity>)
        ensures
            tokens@.len() == self@.tokens.len(),
            forall|i: int|
                0 <= i < tokens@.len() ==> (#[trigger] tokens@[i])@ == self@.tokens[i].token,
    {
        let mut tokens: Vec<Identity> = Vec::new();
        let mut i: usize = 0;
        while i < self.tokens.len()
            invariant
                i <= self.tokens@.len(),
                tokens@.len() == i,
                self@.tokens == token_entries(self.tokens@),
                forall|k: int| 0 <= k < i ==> (#[trigger] tokens@[k])@ == self@.tokens[k].token,
            decreases self.tokens@.len() - i,
        {
            tokens.push(self.tokens[i].token.clone());
            i += 1;
        }
        tokens
    }

    /// The metadata of `token_addr`, as it was last recorded.
    pub fn get_token_metadata(&self, token_addr: &Identity) -> (result: Result<
        String,
        FactoryError,
    >)
        ensures
            match result {
                Ok(metadata) => exists|i: int|
                    is_last_record(self@.tokens, token_addr@, i) && metadata@
                        == self@.tokens[i].metadata,
                Err(error) => error == FactoryError::MetadataNotSet && !has_token(
                    self@.tokens,
                    token_addr@,
                ),
            },
    {
        let mut i: usize = self.tokens.len();
        while i > 0
            invariant
                i <= self.tokens@.len(),
                self@.tokens == token_entries(self.tokens@),
                forall|k: int|
                    i <= k < self.tokens@.len() ==> (#[trigger] self@.tokens[k]).token
                        != token_addr@,
            decreases i,
        {
            i -= 1;
            if self.tokens[i].token.same(token_addr) {
                assert(is_last_record(self@.tokens, token_addr@, i as int));
                return Ok(self.tokens[i].metadata.clone());
            }
        }
        Err(FactoryError::MetadataNotSet)
    }
}

} // verus!
