//! The bridge itself: already-validated external-chain block records come in
//! strictly by block number, the value locked in their transactions is minted
//! to the submitter, and holders remit or unlock (burn) the wrapped supply.
use crate::state::State;
use crate::store::lemma_nonce_map_of_push;
use crate::store::lemma_nonce_map_of_skip;
use crate::store::lemma_states_map_of_dom;
use crate::store::lemma_states_map_of_push;
use crate::store::lemma_states_map_of_skip;
use crate::store::nonce_map_of;
use crate::store::states_map_of;
use crate::token::Token;
use crate::H256;
use vstd::prelude::*;

verus! {

/// Metadata of an external-chain block, handed in already validated.
pub struct EthereumHeader<Hash, BlockNumber, Balance> {
    pub hash: Hash,
    pub parent_hash: Hash,
    pub uncles_hash: Hash,
    pub author: Vec<u8>,
    pub state_root: Hash,
    pub transactions_root: Hash,
    pub receipts_root: Hash,
    pub number: BlockNumber,
    pub gas_used: Balance,
    pub gas_limit: Balance,
    pub extra_data: Vec<u8>,
    pub logs_bloom: Vec<u8>,
    pub timestamp: u16,
    pub difficulty: Vec<u8>,
    pub mix_hash: Hash,
    pub nonce: Vec<u8>,
}

/// One transaction of an external-chain block; only `value` feeds the mint.
pub struct EthereumTx<Hash, BlockNumber, Balance> {
    pub hash: Hash,
    pub nonce: u64,
    pub block_hash: Hash,
    pub block_number: BlockNumber,
    pub transactions_index: u16,
    pub from: Vec<u8>,
    pub to: Vec<u8>,
    pub value: Balance,
    pub gas_price: Balance,
    pub gas: Balance,
    pub input: Vec<u8>,
}

/// A block record: its header and its ordered transactions.
pub struct EthereumData<Hash, BlockNumber, Balance> {
    pub header: EthereumHeader<Hash, BlockNumber, Balance>,
    pub txs: Vec<EthereumTx<Hash, BlockNumber, Balance>>,
}

/// A block record in the representation the ledger stores.
pub type BlockData = EthereumData<H256, u64, u64>;

/// The reasons an operation is rejected; every rejection happens before any
/// write, so a failed operation leaves the ledger untouched.
#[derive(Clone, Copy, PartialEq, Eq, Debug)]
pub enum Error {
    AlreadyInitialized,
    NotInitialized,
    InvalidBlockSequence,
    MissingPriorToken,
    MissingPriorState,
    InsufficientBalance,
    InsufficientIssuedSupply,
}

/// The notifications a successful operation emits, in emission order.
#[derive(Clone, Copy, PartialEq, Eq, Debug)]
pub enum Event {
    /// A new block record was stored under this data-nonce.
    TokenUpdate(u64),
    /// Locked value was minted: the credited account and its new amount.
    Mint(u64, u64),
    /// A remittance moved value: sender, sender's new amount, recipient,
    /// recipient's new amount.
    Remit(u64, u64, u64, u64),
    /// Issued supply was unlocked: the debited account and its new amount.
    Burn(u64, u64),
}

/// The 32-byte digest that blake2b, keyed empty, gives these bytes.
pub uninterp spec fn blake2b_256_of(data: Seq<u8>) -> Seq<u8>;

/// Relies on blake2_rfc::blake2b::blake2b with digest length 32 and an empty
/// key: the digest is 32 bytes and a function of the input bytes alone.
#[verifier::external_body]
fn blake2b_256(data: &[u8]) -> (r: H256)
    ensures
        r@ == blake2b_256_of(data@),
{
    let digest = blake2_rfc::blake2b::blake2b(32, &[], data);
    let mut out = [0u8; 32];
    out.copy_from_slice(digest.as_bytes());
    out
}

/// The label "ethereum" in its stored wire form: one length byte (the compact
/// encoding of 8), then the eight ASCII bytes of the label.
pub open spec fn ethereum_label_bytes() -> Seq<u8> {
    seq![0x20u8, 0x65u8, 0x74u8, 0x68u8, 0x65u8, 0x72u8, 0x65u8, 0x75u8, 0x6du8]
}

/// The token identifier: the digest of the label "ethereum" in its wire form.
/// Every stored token version and account snapshot carries this identifier.
pub open spec fn ethereum_token_id() -> Seq<u8> {
    blake2b_256_of(ethereum_label_bytes())
}

/// Derives the token identifier by hashing the label "ethereum".
fn derive_token_id() -> (r: H256)
    ensures
        r@ == ethereum_token_id(),
{
    let label: Vec<u8> = vec![0x20u8, 0x65u8, 0x74u8, 0x68u8, 0x65u8, 0x72u8, 0x65u8, 0x75u8, 0x6du8];
    proof {
        assert(label@ =~= ethereum_label_bytes());
    }
    blake2b_256(label.as_slice())
}

/// The mathematical sum of the values carried by a block's transactions.
pub open spec fn sum_tx_values(txs: Seq<EthereumTx<H256, u64, u64>>) -> int
    decreases txs.len(),
{
    if txs.len() == 0 {
        0
    } else {
        sum_tx_values(txs.drop_last()) + txs.last().value
    }
}

/// The locked value a block mints: the sum of its transaction values, added
/// with saturation at the largest representable balance.
pub open spec fn locked_of(txs: Seq<EthereumTx<H256, u64, u64>>) -> int {
    if sum_tx_values(txs) <= u64::MAX {
        sum_tx_values(txs)
    } else {
        u64::MAX as int
    }
}

/// Transaction values are unsigned, so their sum is never negative.
pub proof fn lemma_sum_tx_values_nonneg(txs: Seq<EthereumTx<H256, u64, u64>>)
    ensures
        sum_tx_values(txs) >= 0,
    decreases txs.len(),
{
    if txs.len() > 0 {
        lemma_sum_tx_values_nonneg(txs.drop_last());
    }
}

/// Adds up the values of a block's transactions, saturating at the largest
/// representable balance.
fn locked_sum(txs: &Vec<EthereumTx<H256, u64, u64>>) -> (r: u64)
    ensures
        r as int == locked_of(txs@),
{
    let mut acc: u64 = 0;
    let mut i: usize = 0;
    while i < txs.len()
        invariant
            i <= txs@.len(),
            acc as int == locked_of(txs@.take(i as int)),
        decreases txs@.len() - i,
    {
        let v = txs[i].value;
        proof {
            assert(txs@.take(i + 1).drop_last() =~= txs@.take(i as int));
            assert(txs@.take(i + 1).last() == txs@[i as int]);
            lemma_sum_tx_values_nonneg(txs@.take(i as int));
        }
        acc = if acc <= u64::MAX - v {
            acc + v
        } else {
            u64::MAX
        };
        i = i + 1;
    }
    proof {
        assert(txs@.take(txs@.len() as int) =~= txs@);
    }
    acc
}

/// The whole persisted state surface of the bridge, passed to every
/// operation: the initialized flag, the ledger-wide mutation counter, the
/// versioned account and supply histories with their latest-nonce pointers,
/// the stored block records, and the notification log. Two ghost counters
/// carry the running totals of minted and unlocked value, so that
/// conservation of the issued supply is part of well-formedness.
pub struct Ledger {
    /// False until initialization runs once; true forever after.
    pub init: bool,
    /// Ledger-wide counter, advanced once per state-producing mutation.
    pub nonce: u64,
    /// Append-only log of account snapshots, keyed by `(owner, nonce)`.
    pub owned_state: Vec<State>,
    /// Owner-to-latest-nonce entries; the last entry for an owner is current.
    pub state_nonce: Vec<(u64, u64)>,
    /// Supply versions; the version with nonce `i` sits at position `i`.
    pub indexed_token: Vec<Token>,
    /// Nonce of the latest supply version.
    pub last_token_nonce: u64,
    /// Stored block records with their data-nonces, in ingestion order.
    pub token_data: Vec<(u64, BlockData)>,
    /// Data-nonce of the latest ingested block.
    pub last_data_nonce: u64,
    /// Notifications emitted by successful operations, in emission order.
    pub events: Vec<Event>,
    /// Ghost total of all locked value ever minted.
    pub minted: Ghost<int>,
    /// Ghost total of all value ever unlocked (burned).
    pub burned: Ghost<int>,
}

impl Ledger {
    /// The owner-to-latest-nonce map the stored entries describe.
    pub open spec fn nonce_map(self) -> Map<u64, u64> {
        nonce_map_of(self.state_nonce@)
    }

    /// The `(owner, nonce)`-to-snapshot map the stored log describes.
    pub open spec fn states_map(self) -> Map<(u64, u64), State> {
        states_map_of(self.owned_state@)
    }

    /// Whether `owner` has a recorded account history.
    pub open spec fn has_account(self, owner: u64) -> bool {
        self.nonce_map().contains_key(owner)
    }

    /// The owner's latest nonce; 0 for an owner with no history yet.
    pub open spec fn cur_nonce(self, owner: u64) -> u64 {
        if self.has_account(owner) {
            self.nonce_map()[owner]
        } else {
            0
        }
    }

    /// The owner's current balance; 0 for an owner with no history yet.
    pub open spec fn cur_amount(self, owner: u64) -> u64 {
        if self.has_account(owner) {
            self.states_map()[(owner, self.cur_nonce(owner))].amount
        } else {
            0
        }
    }

    /// The latest supply version.
    pub open spec fn cur_token(self) -> Token {
        self.indexed_token@[self.last_token_nonce as int]
    }

    /// The wrapped value currently outstanding.
    pub open spec fn cur_issued(self) -> u64 {
        self.cur_token().issued
    }

    /// The snapshot stored under `(owner, nonce)`, if any.
    pub open spec fn spec_state_at(self, owner: u64, nonce: u64) -> Option<State> {
        if self.states_map().contains_key((owner, nonce)) {
            Some(self.states_map()[(owner, nonce)])
        } else {
            None
        }
    }

    /// The owner's latest nonce, if the owner has a history.
    pub open spec fn spec_nonce_of(self, owner: u64) -> Option<u64> {
        if self.has_account(owner) {
            Some(self.nonce_map()[owner])
        } else {
            None
        }
    }

    /// The supply version stored under nonce `n`, if any.
    pub open spec fn spec_token_at(self, n: u64) -> Option<Token> {
        if n < self.indexed_token@.len() {
            Some(self.indexed_token@[n as int])
        } else {
            None
        }
    }

    /// The data-nonce of the first stored block record.
    pub open spec fn first_data_nonce(self) -> u64 {
        self.token_data@[0].0
    }

    /// The block record stored under data-nonce `n`, if any.
    pub open spec fn spec_data_at(self, n: u64) -> Option<BlockData> {
        if self.token_data@.len() > 0 && self.first_data_nonce() <= n && n
            <= self.first_data_nonce() + self.token_data@.len() - 1 {
            Some(self.token_data@[n - self.first_data_nonce()].1)
        } else {
            None
        }
    }

    /// Account histories are sound: every owner's latest nonce is at least 1
    /// and the owner's history is gapless — a snapshot is stored under every
    /// nonce from 1 up to the latest; every stored snapshot carries a nonce
    /// between 1 and its owner's latest, the token identifier, and sits under
    /// a key that repeats its own owner and nonce.
    pub open spec fn accounts_wf(self) -> bool {
        &&& forall|o: u64| #[trigger]
            self.nonce_map().contains_key(o) ==> self.nonce_map()[o] >= 1
                && self.states_map().contains_key((o, self.nonce_map()[o]))
        &&& forall|o: u64, k: u64|
            self.nonce_map().contains_key(o) && 1 <= k <= self.nonce_map()[o]
                ==> #[trigger] self.states_map().contains_key((o, k))
        &&& forall|i: int|
            0 <= i < self.owned_state@.len() ==> {
                let s = #[trigger] self.owned_state@[i];
                &&& s.nonce >= 1
                &&& self.nonce_map().contains_key(s.owner)
                &&& s.nonce <= self.nonce_map()[s.owner]
                &&& s.token@ == ethereum_token_id()
            }
        &&& forall|k: (u64, u64)| #[trigger]
            self.states_map().contains_key(k) ==> self.states_map()[k].owner == k.0
                && self.states_map()[k].nonce == k.1
    }

    /// Supply versions are dense: after initialization the version with nonce
    /// `i` sits at position `i`, up to the latest nonce, and every version
    /// carries the token identifier.
    pub open spec fn tokens_wf(self) -> bool {
        &&& self.init ==> self.indexed_token@.len() == self.last_token_nonce as int + 1
        &&& !self.init ==> self.indexed_token@.len() == 0
        &&& forall|i: int|
            0 <= i < self.indexed_token@.len() ==> (#[trigger] self.indexed_token@[i]).nonce == i
                && self.indexed_token@[i].id@ == ethereum_token_id()
    }

    /// Block records are stored gaplessly: their data-nonces run from the
    /// first ingested block number to the latest, one by one.
    pub open spec fn records_wf(self) -> bool {
        &&& self.init ==> {
            &&& self.token_data@.len() >= 1
            &&& self.last_data_nonce == self.first_data_nonce() + self.token_data@.len() - 1
            &&& forall|i: int|
                0 <= i < self.token_data@.len() ==> (#[trigger] self.token_data@[i]).0
                    == self.first_data_nonce() + i
        }
        &&& !self.init ==> self.token_data@.len() == 0
    }

    /// Conservation: the issued supply equals the total minted locked value
    /// minus the total unlocked value since initialization.
    pub open spec fn conservation_wf(self) -> bool {
        self.init ==> self.minted@ >= 0 && self.burned@ >= 0 && self.cur_issued() == self.minted@
            - self.burned@
    }

    /// A ledger on which nothing has happened yet.
    pub open spec fn pristine(self) -> bool {
        &&& !self.init
        &&& self.nonce == 0
        &&& self.owned_state@.len() == 0
        &&& self.state_nonce@.len() == 0
        &&& self.indexed_token@.len() == 0
        &&& self.last_token_nonce == 0
        &&& self.token_data@.len() == 0
        &&& self.last_data_nonce == 0
        &&& self.events@.len() == 0
        &&& self.minted@ == 0
        &&& self.burned@ == 0
    }

    /// Well-formedness: established by `new`, preserved by every operation.
    pub open spec fn wf(self) -> bool {
        &&& self.accounts_wf()
        &&& self.tokens_wf()
        &&& self.records_wf()
        &&& self.conservation_wf()
        &&& !self.init ==> self.pristine()
    }

    /// A ledger before initialization: empty histories, zero counters.
    pub fn new() -> (r: Ledger)
        ensures
            r.wf(),
            r.pristine(),
    {
        Ledger {
            init: false,
            nonce: 0,
            owned_state: Vec::new(),
            state_nonce: Vec::new(),
            indexed_token: Vec::new(),
            last_token_nonce: 0,
            token_data: Vec::new(),
            last_data_nonce: 0,
            events: Vec::new(),
            minted: Ghost(0int),
            burned: Ghost(0int),
        }
    }

    /// Whether initialization has run.
    pub fn already(&self) -> (r: bool)
        ensures
            r == self.init,
    {
        self.init
    }

    /// The ledger-wide mutation counter.
    pub fn db_nonce(&self) -> (r: u64)
        ensures
            r == self.nonce,
    {
        self.nonce
    }

    /// The owner's latest nonce, if the owner has a history.
    pub fn nonce_of_state(&self, owner: u64) -> (r: Option<u64>)
        ensures
            r == self.spec_nonce_of(owner),
    {
        let mut i: usize = self.state_nonce.len();
        while i > 0
            invariant
                i <= self.state_nonce@.len(),
                forall|j: int|
                    i <= j < self.state_nonce@.len() ==> (#[trigger] self.state_nonce@[j]).0
                        != owner,
            decreases i,
        {
            i = i - 1;
            let e = self.state_nonce[i];
            if e.0 == owner {
                proof {
                    lemma_nonce_map_of_skip(self.state_nonce@, owner, i + 1);
                    assert(self.state_nonce@.take(i + 1).drop_last() =~= self.state_nonce@.take(
                        i as int,
                    ));
                    assert(self.state_nonce@.take(i + 1).last() == self.state_nonce@[i as int]);
                }
                return Some(e.1);
            }
        }
        proof {
            lemma_nonce_map_of_skip(self.state_nonce@, owner, 0);
        }
        None
    }

    /// The snapshot stored under `(owner, nonce)`, if any.
    pub fn states_of_owner(&self, key: (u64, u64)) -> (r: Option<State>)
        ensures
            r == self.spec_state_at(key.0, key.1),
    {
        let mut i: usize = self.owned_state.len();
        while i > 0
            invariant
                i <= self.owned_state@.len(),
                forall|j: int|
                    i <= j < self.owned_state@.len() ==> !((#[trigger] self.owned_state@[j]).owner
                        == key.0 && self.owned_state@[j].nonce == key.1),
            decreases i,
        {
            i = i - 1;
            let s = self.owned_state[i];
            if s.owner == key.0 && s.nonce == key.1 {
                proof {
                    lemma_states_map_of_skip(self.owned_state@, key.0, key.1, i + 1);
                    assert(self.owned_state@.take(i + 1).drop_last() =~= self.owned_state@.take(
                        i as int,
                    ));
                    assert(self.owned_state@.take(i + 1).last() == self.owned_state@[i as int]);
                }
                return Some(s);
            }
        }
        proof {
            lemma_states_map_of_skip(self.owned_state@, key.0, key.1, 0);
        }
        None
    }

    /// The supply version stored under nonce `n`, if any.
    pub fn token_of_nonce(&self, n: u64) -> (r: Option<Token>)
        ensures
            r == self.spec_token_at(n),
    {
        if n < self.indexed_token.len() as u64 {
            Some(self.indexed_token[n as usize])
        } else {
            None
        }
    }

    /// The nonce of the latest supply version.
    pub fn last_token_nonce(&self) -> (r: u64)
        ensures
            r == self.last_token_nonce,
    {
        self.last_token_nonce
    }

    /// The block record stored under data-nonce `n`, if any.
    pub fn data_of_token(&self, n: u64) -> (r: Option<&BlockData>)
        ensures
            match r {
                Some(d) => self.spec_data_at(n) == Some(*d),
                None => self.spec_data_at(n) is None,
            },
    {
        if self.token_data.len() == 0 {
            return None;
        }
        let first = self.token_data[0].0;
        if n < first {
            return None;
        }
        let idx = n - first;
        if idx >= self.token_data.len() as u64 {
            return None;
        }
        Some(&self.token_data[idx as usize].1)
    }

    /// The data-nonce of the latest ingested block.
    pub fn nonce_of_data(&self) -> (r: u64)
        ensures
            r == self.last_data_nonce,
    {
        self.last_data_nonce
    }

    /// The notifications emitted so far, in emission order.
    pub fn emitted_events(&self) -> (r: &Vec<Event>)
        ensures
            r@ == self.events@,
    {
        &self.events
    }

    /// No snapshot is ever stored under nonce 0: an owner's history starts at
    /// nonce 1.
    proof fn lemma_no_state_at_zero(self, owner: u64)
        requires
            self.accounts_wf(),
        ensures
            !self.states_map().contains_key((owner, 0u64)),
    {
        if self.states_map().contains_key((owner, 0u64)) {
            lemma_states_map_of_dom(self.owned_state@, owner, 0u64);
            let j = choose|j: int|
                0 <= j < self.owned_state@.len() && (#[trigger] self.owned_state@[j]).owner
                    == owner && self.owned_state@[j].nonce == 0u64;
            assert(self.owned_state@[j].nonce >= 1);
        }
    }

    /// Law: the key a mutation writes next for `owner` is absent from the
    /// stored history, so every prior snapshot stays retrievable unchanged
    /// when the mutation commits.
    pub proof fn lemma_next_state_key_fresh(self, owner: u64)
        requires
            self.wf(),
            self.cur_nonce(owner) < u64::MAX,
        ensures
            !self.states_map().contains_key((owner, (self.cur_nonce(owner) + 1) as u64)),
    {
        let n = (self.cur_nonce(owner) + 1) as u64;
        if self.states_map().contains_key((owner, n)) {
            lemma_states_map_of_dom(self.owned_state@, owner, n);
            let j = choose|j: int|
                0 <= j < self.owned_state@.len() && (#[trigger] self.owned_state@[j]).owner
                    == owner && self.owned_state@[j].nonce == n;
            assert(self.owned_state@[j].nonce <= self.nonce_map()[owner]);
        }
    }

    /// What a bootstrap call does: reject a second initialization outright;
    /// otherwise write the supply baseline (version 0, nothing issued), store
    /// the given block record under its own number as the data-nonce
    /// baseline, set the flag, and notify.
    pub open spec fn init_transition(
        pre: Ledger,
        post: Ledger,
        data: BlockData,
        r: Result<(), Error>,
    ) -> bool {
        &&& pre.init ==> r == Err::<(), Error>(Error::AlreadyInitialized) && post == pre
        &&& !pre.init ==> {
            &&& r == Ok::<(), Error>(())
            &&& post.init
            &&& post.nonce == 0
            &&& post.owned_state@ == pre.owned_state@
            &&& post.state_nonce@ == pre.state_nonce@
            &&& post.indexed_token@.len() == 1
            &&& post.last_token_nonce == 0
            &&& post.cur_token().nonce == 0
            &&& post.cur_token().deposit == 0
            &&& post.cur_token().issued == 0
            &&& post.cur_token().id@ == ethereum_token_id()
            &&& post.token_data@ == pre.token_data@.push((data.header.number, data))
            &&& post.last_data_nonce == data.header.number
            &&& post.events@ == pre.events@.push(Event::TokenUpdate(data.header.number))
            &&& post.minted@ == 0
            &&& post.burned@ == 0
        }
    }

    /// One-shot bootstrap: establishes the supply and block-sequence
    /// baselines. Creates no account snapshot and mints nothing.
    pub fn init(&mut self, data: BlockData) -> (r: Result<(), Error>)
        requires
            old(self).wf(),
        ensures
            final(self).wf(),
            Self::init_transition(*old(self), *final(self), data, r),
    {
        if self.init {
            return Err(Error::AlreadyInitialized);
        }
        let token_id = derive_token_id();
        let first_index = data.header.number;
        let first_token = Token::new(token_id, 0, 0, 0);
        self.init = true;
        self.nonce = 0;
        self.indexed_token.push(first_token);
        self.last_token_nonce = 0;
        self.token_data.push((first_index, data));
        self.last_data_nonce = first_index;
        self.events.push(Event::TokenUpdate(first_index));
        self.minted = Ghost(0int);
        self.burned = Ghost(0int);
        Ok(())
    }

    /// The machine limits a mint must fit in: counters one step below their
    /// maximum, and the credited sums representable.
    pub open spec fn record_fits(pre: Ledger, sender: u64, data: BlockData) -> bool {
        pre.init && data.header.number == pre.last_data_nonce + 1 ==> {
            &&& pre.cur_nonce(sender) < u64::MAX
            &&& pre.nonce < u64::MAX
            &&& pre.last_token_nonce < u64::MAX
            &&& pre.cur_issued() + locked_of(data.txs@) <= u64::MAX
            &&& pre.cur_amount(sender) + locked_of(data.txs@) <= u64::MAX
        }
    }

    /// What a successful mint commits: one ledger-wide tick; a new snapshot
    /// for the submitter, credited with the whole locked value of the block,
    /// under the submitter's next nonce; a new supply version with the locked
    /// value added to `issued`; the block record stored under the next
    /// data-nonce; a token-update and a mint notification.
    pub open spec fn record_ok(pre: Ledger, post: Ledger, sender: u64, data: BlockData) -> bool {
        let locked = locked_of(data.txs@);
        let new_nonce = (pre.cur_nonce(sender) + 1) as u64;
        let new_amount = (pre.cur_amount(sender) + locked) as u64;
        let new_state = post.owned_state@.last();
        &&& post.init
        &&& post.nonce == pre.nonce + 1
        &&& post.owned_state@ == pre.owned_state@.push(new_state)
        &&& new_state.owner == sender
        &&& new_state.nonce == new_nonce
        &&& new_state.amount == new_amount
        &&& new_state.token@ == ethereum_token_id()
        &&& post.nonce_map() == pre.nonce_map().insert(sender, new_nonce)
        &&& post.states_map() == pre.states_map().insert((sender, new_nonce), new_state)
        &&& post.last_token_nonce == pre.last_token_nonce + 1
        &&& post.indexed_token@ == pre.indexed_token@.push(post.cur_token())
        &&& post.cur_token().nonce == post.last_token_nonce
        &&& post.cur_token().deposit == pre.cur_token().deposit
        &&& post.cur_token().issued == pre.cur_issued() + locked
        &&& post.cur_token().id@ == ethereum_token_id()
        &&& post.last_data_nonce == pre.last_data_nonce + 1
        &&& post.token_data@ == pre.token_data@.push((post.last_data_nonce, data))
        &&& post.events@ == pre.events@.push(Event::TokenUpdate(post.last_data_nonce)).push(
            Event::Mint(sender, new_amount),
        )
        &&& post.minted@ == pre.minted@ + locked
        &&& post.burned@ == pre.burned@
    }

    /// What a block-ingestion call does: before initialization it is
    /// rejected; a block whose number is not exactly one past the latest
    /// data-nonce is rejected; otherwise the mint commits.
    pub open spec fn record_transition(
        pre: Ledger,
        post: Ledger,
        sender: u64,
        data: BlockData,
        r: Result<(), Error>,
    ) -> bool {
        &&& !pre.init ==> r == Err::<(), Error>(Error::NotInitialized) && post == pre
        &&& pre.init && data.header.number != pre.last_data_nonce + 1 ==> r == Err::<(), Error>(
            Error::InvalidBlockSequence,
        ) && post == pre
        &&& pre.init && data.header.number == pre.last_data_nonce + 1 ==> r == Ok::<(), Error>(())
            && Self::record_ok(pre, post, sender, data)
    }

    /// Ingests the next external block: mints its aggregate locked value to
    /// the submitting account and stores the record. The whole locked value
    /// is credited to the single submitter, not distributed per transaction
    /// sender: the bridge deliberately treats the submitter as receiving the
    /// aggregate delta.
    pub fn record_header(&mut self, sender: u64, data: BlockData) -> (r: Result<(), Error>)
        requires
            old(self).wf(),
            Self::record_fits(*old(self), sender, data),
        ensures
            final(self).wf(),
            Self::record_transition(*old(self), *final(self), sender, data, r),
    {
        if !self.init {
            return Err(Error::NotInitialized);
        }
        let pre_data_nonce = self.last_data_nonce;
        if pre_data_nonce == u64::MAX || data.header.number != pre_data_nonce + 1 {
            return Err(Error::InvalidBlockSequence);
        }
        let new_data_nonce = pre_data_nonce + 1;
        let pre_token_nonce = self.last_token_nonce;
        let token_id = derive_token_id();
        let pre_token = match self.token_of_nonce(pre_token_nonce) {
            None => {
                return Err(Error::MissingPriorToken);
            },
            Some(t) => t,
        };
        let new_token_nonce = pre_token_nonce + 1;
        let locked = locked_sum(&data.txs);
        let issued = pre_token.issued + locked;
        let new_token = Token::new(token_id, new_token_nonce, pre_token.deposit, issued);
        let pre_sender_nonce = match self.nonce_of_state(sender) {
            None => 0,
            Some(n) => n,
        };
        proof {
            if !old(self).has_account(sender) {
                old(self).lemma_no_state_at_zero(sender);
            }
        }
        let pre_state = match self.states_of_owner((sender, pre_sender_nonce)) {
            None => State::new(0, token_id, sender, 0),
            Some(s) => s,
        };
        let new_state_nonce = pre_sender_nonce + 1;
        let new_balance = pre_state.amount + locked;
        let new_state = State::new(new_state_nonce, token_id, sender, new_balance);
        self.nonce = self.nonce + 1;
        self.owned_state.push(new_state);
        self.state_nonce.push((sender, new_state_nonce));
        self.indexed_token.push(new_token);
        self.last_token_nonce = new_token_nonce;
        self.token_data.push((new_data_nonce, data));
        self.last_data_nonce = new_data_nonce;
        self.events.push(Event::TokenUpdate(new_data_nonce));
        self.events.push(Event::Mint(sender, new_balance));
        self.minted = Ghost(self.minted@ + locked as int);
        proof {
            lemma_nonce_map_of_push(old(self).state_nonce@, (sender, new_state_nonce));
            lemma_states_map_of_push(old(self).owned_state@, new_state);
        }
        Ok(())
    }

    /// The machine limits an unlock must fit in: counters one step below
    /// their maximum. The debited amounts only shrink.
    pub open spec fn unlock_fits(pre: Ledger, signer: u64, value: u64) -> bool {
        pre.init && pre.has_account(signer) && pre.cur_amount(signer) >= value && pre.cur_issued()
            >= value ==> {
            &&& pre.cur_nonce(signer) < u64::MAX
            &&& pre.nonce < u64::MAX
            &&& pre.last_token_nonce < u64::MAX
        }
    }

    /// What a successful unlock commits: one ledger-wide tick; a new snapshot
    /// for the signer, debited by the unlocked value, under the signer's next
    /// nonce; a new supply version with the value taken out of `issued`; a
    /// burn notification.
    pub open spec fn unlock_ok(pre: Ledger, post: Ledger, signer: u64, value: u64) -> bool {
        let new_nonce = (pre.cur_nonce(signer) + 1) as u64;
        let new_amount = (pre.cur_amount(signer) - value) as u64;
        let new_state = post.owned_state@.last();
        &&& post.init
        &&& post.nonce == pre.nonce + 1
        &&& post.owned_state@ == pre.owned_state@.push(new_state)
        &&& new_state.owner == signer
        &&& new_state.nonce == new_nonce
        &&& new_state.amount == new_amount
        &&& new_state.token@ == ethereum_token_id()
        &&& post.nonce_map() == pre.nonce_map().insert(signer, new_nonce)
        &&& post.states_map() == pre.states_map().insert((signer, new_nonce), new_state)
        &&& post.last_token_nonce == pre.last_token_nonce + 1
        &&& post.indexed_token@ == pre.indexed_token@.push(post.cur_token())
        &&& post.cur_token().nonce == post.last_token_nonce
        &&& post.cur_token().deposit == pre.cur_token().deposit
        &&& post.cur_token().issued == pre.cur_issued() - value
        &&& post.cur_token().id@ == ethereum_token_id()
        &&& post.last_data_nonce == pre.last_data_nonce
        &&& post.token_data@ == pre.token_data@
        &&& post.events@ == pre.events@.push(Event::Burn(signer, new_amount))
        &&& post.minted@ == pre.minted@
        &&& post.burned@ == pre.burned@ + value
    }

    /// What an unlock call does: rejected before initialization, for a signer
    /// without history, for a value above the signer's balance, or — a sign
    /// of corrupted state — above the issued supply; otherwise the burn
    /// commits.
    pub open spec fn unlock_transition(
        pre: Ledger,
        post: Ledger,
        signer: u64,
        value: u64,
        r: Result<(), Error>,
    ) -> bool {
        &&& !pre.init ==> r == Err::<(), Error>(Error::NotInitialized) && post == pre
        &&& pre.init && !pre.has_account(signer) ==> r == Err::<(), Error>(
            Error::MissingPriorState,
        ) && post == pre
        &&& pre.init && pre.has_account(signer) && pre.cur_amount(signer) < value ==> r == Err::<
            (),
            Error,
        >(Error::InsufficientBalance) && post == pre
        &&& pre.init && pre.has_account(signer) && pre.cur_amount(signer) >= value
            && pre.cur_issued() < value ==> r == Err::<(), Error>(Error::InsufficientIssuedSupply)
            && post == pre
        &&& pre.init && pre.has_account(signer) && pre.cur_amount(signer) >= value
            && pre.cur_issued() >= value ==> r == Ok::<(), Error>(()) && Self::unlock_ok(
            pre,
            post,
            signer,
            value,
        )
    }

    /// Unlocks (burns) issued supply: debits the signer and reduces the
    /// issued total by the same value.
    pub fn unlock(&mut self, signer: u64, value: u64) -> (r: Result<(), Error>)
        requires
            old(self).wf(),
            Self::unlock_fits(*old(self), signer, value),
        ensures
            final(self).wf(),
            Self::unlock_transition(*old(self), *final(self), signer, value, r),
    {
        if !self.init {
            return Err(Error::NotInitialized);
        }
        let signer_pre_nonce = match self.nonce_of_state(signer) {
            None => {
                return Err(Error::MissingPriorState);
            },
            Some(n) => n,
        };
        let signer_pre_state = match self.states_of_owner((signer, signer_pre_nonce)) {
            None => {
                return Err(Error::MissingPriorState);
            },
            Some(s) => s,
        };
        if signer_pre_state.amount < value {
            return Err(Error::InsufficientBalance);
        }
        let pre_token_nonce = self.last_token_nonce;
        let pre_token = match self.token_of_nonce(pre_token_nonce) {
            None => {
                return Err(Error::MissingPriorToken);
            },
            Some(t) => t,
        };
        if pre_token.issued < value {
            return Err(Error::InsufficientIssuedSupply);
        }
        let token_id = derive_token_id();
        let signer_new_nonce = signer_pre_nonce + 1;
        let signer_new_amount = signer_pre_state.amount - value;
        let signer_new_state = State::new(signer_new_nonce, token_id, signer, signer_new_amount);
        let new_token_nonce = pre_token_nonce + 1;
        let deposit = pre_token.deposit;
        let issued = pre_token.issued - value;
        let new_token = Token::new(token_id, new_token_nonce, deposit, issued);
        self.nonce = self.nonce + 1;
        self.owned_state.push(signer_new_state);
        self.state_nonce.push((signer, signer_new_nonce));
        self.indexed_token.push(new_token);
        self.last_token_nonce = new_token_nonce;
        self.events.push(Event::Burn(signer, signer_new_amount));
        self.burned = Ghost(self.burned@ + value as int);
        proof {
            lemma_nonce_map_of_push(old(self).state_nonce@, (signer, signer_new_nonce));
            lemma_states_map_of_push(old(self).owned_state@, signer_new_state);
        }
        Ok(())
    }

    /// The machine limits a remittance must fit in: counters one step below
    /// their maximum, and the credited sum representable.
    pub open spec fn remit_fits(pre: Ledger, from: u64, to: u64, value: u64) -> bool {
        pre.has_account(from) && pre.cur_amount(from) >= value && from != to ==> {
            &&& pre.cur_nonce(from) < u64::MAX
            &&& pre.cur_nonce(to) < u64::MAX
            &&& pre.nonce < u64::MAX
            &&& pre.cur_amount(to) + value <= u64::MAX
        }
    }

    /// What a successful remittance between distinct accounts commits: one
    /// ledger-wide tick shared by both writes; a debited snapshot for the
    /// sender and a credited one for the recipient, each under its owner's
    /// next nonce; a remit notification. The supply history is untouched:
    /// moving issued value never changes `issued`.
    pub open spec fn remit_ok(pre: Ledger, post: Ledger, from: u64, to: u64, value: u64) -> bool {
        let from_new_nonce = (pre.cur_nonce(from) + 1) as u64;
        let from_new_amount = (pre.cur_amount(from) - value) as u64;
        let to_new_nonce = (pre.cur_nonce(to) + 1) as u64;
        let to_new_amount = (pre.cur_amount(to) + value) as u64;
        let from_state = post.owned_state@[post.owned_state@.len() - 2];
        let to_state = post.owned_state@.last();
        &&& post.init == pre.init
        &&& post.nonce == pre.nonce + 1
        &&& post.owned_state@ == pre.owned_state@.push(from_state).push(to_state)
        &&& from_state.owner == from
        &&& from_state.nonce == from_new_nonce
        &&& from_state.amount == from_new_amount
        &&& from_state.token@ == ethereum_token_id()
        &&& to_state.owner == to
        &&& to_state.nonce == to_new_nonce
        &&& to_state.amount == to_new_amount
        &&& to_state.token@ == ethereum_token_id()
        &&& post.nonce_map() == pre.nonce_map().insert(from, from_new_nonce).insert(
            to,
            to_new_nonce,
        )
        &&& post.states_map() == pre.states_map().insert((from, from_new_nonce), from_state).insert(
            (to, to_new_nonce),
            to_state,
        )
        &&& post.indexed_token@ == pre.indexed_token@
        &&& post.last_token_nonce == pre.last_token_nonce
        &&& post.cur_issued() == pre.cur_issued()
        &&& post.token_data@ == pre.token_data@
        &&& post.last_data_nonce == pre.last_data_nonce
        &&& post.events@ == pre.events@.push(
            Event::Remit(from, from_new_amount, to, to_new_amount),
        )
        &&& post.minted@ == pre.minted@
        &&& post.burned@ == pre.burned@
    }

    /// What a remittance does once past the initialization gate: rejected for
    /// a sender without history or a value above the sender's balance; a
    /// self-remittance with sufficient balance succeeds as an explicit no-op,
    /// advancing no nonce, writing nothing and notifying nobody; otherwise
    /// the transfer commits.
    pub open spec fn remit_transition(
        pre: Ledger,
        post: Ledger,
        from: u64,
        to: u64,
        value: u64,
        r: Result<(), Error>,
    ) -> bool {
        &&& !pre.has_account(from) ==> r == Err::<(), Error>(Error::MissingPriorState) && post
            == pre
        &&& pre.has_account(from) && pre.cur_amount(from) < value ==> r == Err::<(), Error>(
            Error::InsufficientBalance,
        ) && post == pre
        &&& pre.has_account(from) && pre.cur_amount(from) >= value && from == to ==> r == Ok::<
            (),
            Error,
        >(()) && post == pre
        &&& pre.has_account(from) && pre.cur_amount(from) >= value && from != to ==> r == Ok::<
            (),
            Error,
        >(()) && Self::remit_ok(pre, post, from, to, value)
    }

    /// Moves already-issued value from `from` to `to`; the initialization
    /// gate is the caller's (`remittance`'s) business.
    pub fn basic_remittance(&mut self, from: u64, to: u64, value: u64) -> (r: Result<(), Error>)
        requires
            old(self).wf(),
            Self::remit_fits(*old(self), from, to, value),
        ensures
            final(self).wf(),
            Self::remit_transition(*old(self), *final(self), from, to, value, r),
    {
        let from_pre_nonce = match self.nonce_of_state(from) {
            None => {
                return Err(Error::MissingPriorState);
            },
            Some(n) => n,
        };
        let from_pre_state = match self.states_of_owner((from, from_pre_nonce)) {
            None => {
                return Err(Error::MissingPriorState);
            },
            Some(s) => s,
        };
        if from_pre_state.amount < value {
            return Err(Error::InsufficientBalance);
        }
        if from == to {
            return Ok(());
        }
        let to_pre_nonce = match self.nonce_of_state(to) {
            None => 0,
            Some(n) => n,
        };
        let token_id = derive_token_id();
        proof {
            if !old(self).has_account(to) {
                old(self).lemma_no_state_at_zero(to);
            }
        }
        let to_pre_state = match self.states_of_owner((to, to_pre_nonce)) {
            None => State::new(to_pre_nonce, token_id, to, 0),
            Some(s) => s,
        };
        let from_new_nonce = from_pre_nonce + 1;
        let from_new_amount = from_pre_state.amount - value;
        let from_new_state = State::new(from_new_nonce, token_id, from, from_new_amount);
        let to_new_nonce = to_pre_nonce + 1;
        let to_new_amount = to_pre_state.amount + value;
        let to_new_state = State::new(to_new_nonce, token_id, to, to_new_amount);
        self.nonce = self.nonce + 1;
        self.owned_state.push(from_new_state);
        self.state_nonce.push((from, from_new_nonce));
        self.owned_state.push(to_new_state);
        self.state_nonce.push((to, to_new_nonce));
        self.events.push(Event::Remit(from, from_new_amount, to, to_new_amount));
        proof {
            lemma_nonce_map_of_push(old(self).state_nonce@, (from, from_new_nonce));
            lemma_nonce_map_of_push(
                old(self).state_nonce@.push((from, from_new_nonce)),
                (to, to_new_nonce),
            );
            lemma_states_map_of_push(old(self).owned_state@, from_new_state);
            lemma_states_map_of_push(
                old(self).owned_state@.push(from_new_state),
                to_new_state,
            );
        }
        Ok(())
    }

    /// Moves already-issued value between account holders; rejected before
    /// initialization.
    pub fn remittance(&mut self, from: u64, to: u64, value: u64) -> (r: Result<(), Error>)
        requires
            old(self).wf(),
            Self::remit_fits(*old(self), from, to, value),
        ensures
            final(self).wf(),
            !old(self).init ==> r == Err::<(), Error>(Error::NotInitialized) && *final(self)
                == *old(self),
            old(self).init ==> Self::remit_transition(
                *old(self),
                *final(self),
                from,
                to,
                value,
                r,
            ),
    {
        if !self.init {
            return Err(Error::NotInitialized);
        }
        self.basic_remittance(from, to, value)
    }

    /// Law: initialization succeeds exactly once. From a well-formed ledger
    /// that has not been initialized, the first call succeeds, and any call
    /// after it fails with `AlreadyInitialized` and changes nothing.
    pub proof fn lemma_init_exactly_once(
        pre: Ledger,
        mid: Ledger,
        post: Ledger,
        d1: BlockData,
        d2: BlockData,
        r1: Result<(), Error>,
        r2: Result<(), Error>,
    )
        requires
            pre.wf(),
            !pre.init,
            Self::init_transition(pre, mid, d1, r1),
            Self::init_transition(mid, post, d2, r2),
        ensures
            r1 == Ok::<(), Error>(()),
            r2 == Err::<(), Error>(Error::AlreadyInitialized),
            post == mid,
    {
    }

    /// Law: at all times the issued supply on the current token version
    /// equals the total minted locked value minus the total unlocked value
    /// since initialization.
    pub proof fn lemma_supply_conservation(l: Ledger)
        requires
            l.wf(),
            l.init,
        ensures
            l.cur_issued() == l.minted@ - l.burned@,
    {
    }

    /// Law: a remittance, successful, failed or a self-transfer, never
    /// changes the issued supply nor the minted and unlocked totals.
    pub proof fn lemma_remit_preserves_issued(
        pre: Ledger,
        post: Ledger,
        from: u64,
        to: u64,
        value: u64,
        r: Result<(), Error>,
    )
        requires
            pre.wf(),
            Self::remit_transition(pre, post, from, to, value, r),
        ensures
            post.cur_issued() == pre.cur_issued(),
            post.minted@ == pre.minted@,
            post.burned@ == pre.burned@,
    {
    }

    /// Law: a mint advances the submitter's nonce by exactly one, and every
    /// snapshot stored before it is still stored, unchanged, after it.
    pub proof fn lemma_record_preserves_history(
        pre: Ledger,
        post: Ledger,
        sender: u64,
        data: BlockData,
    )
        requires
            pre.wf(),
            pre.cur_nonce(sender) < u64::MAX,
            Self::record_ok(pre, post, sender, data),
        ensures
            post.cur_nonce(sender) == pre.cur_nonce(sender) + 1,
            forall|k: (u64, u64)| #[trigger]
                pre.states_map().contains_key(k) ==> post.states_map().contains_key(k)
                    && post.states_map()[k] == pre.states_map()[k],
    {
        pre.lemma_next_state_key_fresh(sender);
    }

    /// Law: an unlock advances the signer's nonce by exactly one, and every
    /// snapshot stored before it is still stored, unchanged, after it.
    pub proof fn lemma_unlock_preserves_history(
        pre: Ledger,
        post: Ledger,
        signer: u64,
        value: u64,
    )
        requires
            pre.wf(),
            pre.cur_nonce(signer) < u64::MAX,
            Self::unlock_ok(pre, post, signer, value),
        ensures
            post.cur_nonce(signer) == pre.cur_nonce(signer) + 1,
            forall|k: (u64, u64)| #[trigger]
                pre.states_map().contains_key(k) ==> post.states_map().contains_key(k)
                    && post.states_map()[k] == pre.states_map()[k],
    {
        pre.lemma_next_state_key_fresh(signer);
    }

    /// Law: a remittance between distinct accounts advances both owners'
    /// nonces by exactly one, and every snapshot stored before it is still
    /// stored, unchanged, after it.
    pub proof fn lemma_remit_preserves_history(
        pre: Ledger,
        post: Ledger,
        from: u64,
        to: u64,
        value: u64,
    )
        requires
            pre.wf(),
            from != to,
            pre.cur_nonce(from) < u64::MAX,
            pre.cur_nonce(to) < u64::MAX,
            Self::remit_ok(pre, post, from, to, value),
        ensures
            post.cur_nonce(from) == pre.cur_nonce(from) + 1,
            post.cur_nonce(to) == pre.cur_nonce(to) + 1,
            forall|k: (u64, u64)| #[trigger]
                pre.states_map().contains_key(k) ==> post.states_map().contains_key(k)
                    && post.states_map()[k] == pre.states_map()[k],
    {
        pre.lemma_next_state_key_fresh(from);
        pre.lemma_next_state_key_fresh(to);
    }
}

} // verus!
