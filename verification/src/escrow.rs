//! Ledger of hold-invoice contracts driven by a validated state machine.
//!
//! The ledger is the exclusive owner of every contract: all mutation goes
//! through [`EscrowManager::apply_transition`], reads return snapshots, and
//! an illegal transition leaves the ledger unchanged. Mutating operations
//! take the ledger by exclusive reference, so transitions are serialized:
//! a host sharing one ledger across callers guards it with a lock and gets
//! per-key linearizability from that exclusivity.

use vstd::prelude::*;
use vstd::slice::slice_to_vec;
use vstd::string::{StrSliceExecFns, StringExecFns};
use vstd::utf8::encode_utf8;

use crate::digest::{hex_encode, hex_of, lemma_hex_of_injective, sha256_digest, sha256_of};
use crate::rng::fresh_random_12;

verus! {

/// Lifecycle states of a hold-invoice contract. `Settled` and `Cancelled`
/// are terminal.
#[derive(Clone, Copy, Debug, PartialEq, Eq, Structural)]
pub enum EscrowState {
    Open,
    Accepted,
    InProgress,
    Settled,
    Cancelled,
}

/// Events a caller may apply to a contract.
#[derive(Clone, Copy, Debug, PartialEq, Eq, Structural)]
pub enum EscrowEvent {
    Accept,
    Begin,
    Settle,
    Cancel,
}

/// Failures of the escrow ledger.
#[derive(Clone, Copy, Debug, PartialEq, Eq, Structural)]
pub enum EscrowError {
    /// No contract is stored under the given payment hash.
    ContractNotFound,
    /// The event is not legal in the contract's current state; carries the
    /// current state and the attempted event. The ledger is unchanged.
    IllegalTransition(EscrowState, EscrowEvent),
    /// Collision avoidance was exhausted while allocating a payment hash.
    DuplicateContract,
    /// The requested invoice amount was not positive.
    InvalidAmount,
}

/// The transition table: every (state, event) pair not listed here is
/// illegal.
pub open spec fn transition(state: EscrowState, event: EscrowEvent) -> Option<EscrowState> {
    match (state, event) {
        (EscrowState::Open, EscrowEvent::Accept) => Some(EscrowState::Accepted),
        (EscrowState::Accepted, EscrowEvent::Begin) => Some(EscrowState::InProgress),
        (EscrowState::InProgress, EscrowEvent::Settle) => Some(EscrowState::Settled),
        (EscrowState::Open, EscrowEvent::Cancel) => Some(EscrowState::Cancelled),
        (EscrowState::Accepted, EscrowEvent::Cancel) => Some(EscrowState::Cancelled),
        (EscrowState::InProgress, EscrowEvent::Cancel) => Some(EscrowState::Cancelled),
        _ => None,
    }
}

/// Whether a state admits no further transitions.
pub open spec fn is_terminal(state: EscrowState) -> bool {
    state == EscrowState::Settled || state == EscrowState::Cancelled
}

/// The transition table as executable code.
pub fn step(state: EscrowState, event: EscrowEvent) -> (r: Option<EscrowState>)
    ensures
        r == transition(state, event),
{
    match (state, event) {
        (EscrowState::Open, EscrowEvent::Accept) => Some(EscrowState::Accepted),
        (EscrowState::Accepted, EscrowEvent::Begin) => Some(EscrowState::InProgress),
        (EscrowState::InProgress, EscrowEvent::Settle) => Some(EscrowState::Settled),
        (EscrowState::Open, EscrowEvent::Cancel) => Some(EscrowState::Cancelled),
        (EscrowState::Accepted, EscrowEvent::Cancel) => Some(EscrowState::Cancelled),
        (EscrowState::InProgress, EscrowEvent::Cancel) => Some(EscrowState::Cancelled),
        _ => None,
    }
}

/// Reads an event from its wire name; every other string is rejected.
pub fn parse_event(s: &str) -> (r: Option<EscrowEvent>)
    ensures
        r == Some(EscrowEvent::Accept) <==> s@ == "accept"@,
        r == Some(EscrowEvent::Begin) <==> s@ == "begin"@,
        r == Some(EscrowEvent::Settle) <==> s@ == "settle"@,
        r == Some(EscrowEvent::Cancel) <==> s@ == "cancel"@,
{
    proof {
        reveal_strlit("accept");
        reveal_strlit("begin");
        reveal_strlit("settle");
        reveal_strlit("cancel");
        assert("accept"@[0] == 'a');
        assert("begin"@[0] == 'b');
        assert("settle"@[0] == 's');
        assert("cancel"@[0] == 'c');
    }
    let key = s.to_owned();
    if key == ("accept").to_owned() {
        Some(EscrowEvent::Accept)
    } else if key == ("begin").to_owned() {
        Some(EscrowEvent::Begin)
    } else if key == ("settle").to_owned() {
        Some(EscrowEvent::Settle)
    } else if key == ("cancel").to_owned() {
        Some(EscrowEvent::Cancel)
    } else {
        None
    }
}

/// Transition closure: an event is accepted exactly on the pairs of the
/// table — accept from Open, begin from Accepted, settle from InProgress,
/// cancel from any non-terminal state. Every other pair is illegal.
pub proof fn lemma_transition_closure(state: EscrowState, event: EscrowEvent)
    ensures
        transition(state, event) is Some <==> ((state == EscrowState::Open && event
            == EscrowEvent::Accept) || (state == EscrowState::Accepted && event
            == EscrowEvent::Begin) || (state == EscrowState::InProgress && event
            == EscrowEvent::Settle) || (!is_terminal(state) && event == EscrowEvent::Cancel)),
{
}

/// A terminal state admits no event at all.
pub proof fn lemma_terminal_absorbing(state: EscrowState, event: EscrowEvent)
    ensures
        is_terminal(state) ==> transition(state, event) is None,
{
}

/// Acceptance is won exactly once: only an Open contract admits `accept`,
/// and acceptance leaves Open. Under the ledger's serialized transitions,
/// of many callers racing to accept the same contract exactly one succeeds;
/// every later one is answered `IllegalTransition` carrying `Accepted`.
pub proof fn lemma_accept_exclusive(state: EscrowState)
    ensures
        transition(state, EscrowEvent::Accept) is Some <==> state == EscrowState::Open,
        transition(state, EscrowEvent::Accept) matches Some(next) ==> next
            == EscrowState::Accepted,
        transition(EscrowState::Accepted, EscrowEvent::Accept) is None,
{
}

/// A payment held in escrow until delivery of work is confirmed.
#[derive(Debug, PartialEq, Eq)]
pub struct HodlContract {
    pub contract_id: String,
    pub payment_hash: String,
    pub amount_sats: u64,
    pub state: EscrowState,
}

/// `c` with its state replaced.
pub open spec fn with_state(c: HodlContract, state: EscrowState) -> HodlContract {
    HodlContract { state, ..c }
}

impl HodlContract {
    /// A new contract in state `Open` under the given identifiers. The
    /// amount is positive and immutable after creation.
    pub fn new(contract_id: String, payment_hash: String, amount_sats: u64) -> (c: HodlContract)
        requires
            amount_sats > 0,
        ensures
            c.contract_id == contract_id,
            c.payment_hash == payment_hash,
            c.amount_sats == amount_sats,
            c.state == EscrowState::Open,
    {
        HodlContract { contract_id, payment_hash, amount_sats, state: EscrowState::Open }
    }

    /// An immutable copy of the contract.
    pub fn snapshot(&self) -> (c: HodlContract)
        ensures
            c == *self,
    {
        HodlContract {
            contract_id: self.contract_id.clone(),
            payment_hash: self.payment_hash.clone(),
            amount_sats: self.amount_sats,
            state: self.state,
        }
    }
}

/// Big-endian bytes of a 64-bit integer.
pub open spec fn u64_be_seq(n: u64) -> Seq<u8> {
    seq![
        (n >> 56) as u8,
        (n >> 48) as u8,
        (n >> 40) as u8,
        (n >> 32) as u8,
        (n >> 24) as u8,
        (n >> 16) as u8,
        (n >> 8) as u8,
        n as u8,
    ]
}

fn u64_to_be_bytes(n: u64) -> (r: Vec<u8>)
    ensures
        r@ == u64_be_seq(n),
{
    let mut v: Vec<u8> = Vec::new();
    v.push((n >> 56) as u8);
    v.push((n >> 48) as u8);
    v.push((n >> 40) as u8);
    v.push((n >> 32) as u8);
    v.push((n >> 24) as u8);
    v.push((n >> 16) as u8);
    v.push((n >> 8) as u8);
    v.push(n as u8);
    proof {
        assert(v@ =~= u64_be_seq(n));
    }
    v
}

/// The identifier allocated to the `k`-th contract.
pub open spec fn contract_id_of(k: u64) -> Seq<char> {
    "contract-"@ + hex_of(u64_be_seq(k))
}

/// The big-endian encoding is injective.
pub proof fn lemma_u64_be_injective(a: u64, b: u64)
    requires
        u64_be_seq(a) == u64_be_seq(b),
    ensures
        a == b,
{
    assert((a >> 56) as u8 == (b >> 56) as u8 && (a >> 48) as u8 == (b >> 48) as u8 && (a >> 40)
        as u8 == (b >> 40) as u8 && (a >> 32) as u8 == (b >> 32) as u8 && (a >> 24) as u8 == (b
        >> 24) as u8 && (a >> 16) as u8 == (b >> 16) as u8 && (a >> 8) as u8 == (b >> 8) as u8
        && a as u8 == b as u8);
    assert(a == b) by (bit_vector)
        requires
            (a >> 56) as u8 == (b >> 56) as u8 && (a >> 48) as u8 == (b >> 48) as u8 && (a >> 40)
                as u8 == (b >> 40) as u8 && (a >> 32) as u8 == (b >> 32) as u8 && (a >> 24) as u8
                == (b >> 24) as u8 && (a >> 16) as u8 == (b >> 16) as u8 && (a >> 8) as u8 == (b
                >> 8) as u8 && a as u8 == b as u8,
    ;
}

/// Distinct counter values yield distinct contract identifiers.
pub proof fn lemma_contract_id_injective(a: u64, b: u64)
    requires
        contract_id_of(a) == contract_id_of(b),
    ensures
        a == b,
{
    let prefix = "contract-"@;
    assert(hex_of(u64_be_seq(a)) =~= contract_id_of(a).skip(prefix.len() as int));
    assert(hex_of(u64_be_seq(b)) =~= contract_id_of(b).skip(prefix.len() as int));
    assert(u64_be_seq(a).len() == 8 && u64_be_seq(b).len() == 8);
    lemma_hex_of_injective(u64_be_seq(a), u64_be_seq(b));
    lemma_u64_be_injective(a, b);
}

/// The payment hash of an invoice: the hex SHA-256 digest of the contract
/// identifier, the amount and a fresh random salt.
pub open spec fn invoice_hash(contract_id: Seq<char>, amount_sats: u64, salt: Seq<u8>) -> Seq<
    char,
> {
    hex_of(sha256_of(encode_utf8(contract_id) + u64_be_seq(amount_sats) + salt))
}

fn contract_id_string(k: u64) -> (r: String)
    ensures
        r@ == contract_id_of(k),
{
    let bytes = u64_to_be_bytes(k);
    let rendered = hex_encode(bytes.as_slice());
    let mut id = ("contract-").to_owned();
    id.append(rendered.as_str());
    id
}

fn invoice_hash_string(contract_id: &str, amount_sats: u64, salt: &[u8]) -> (r: String)
    ensures
        r@ == invoice_hash(contract_id@, amount_sats, salt@),
{
    let mut data = contract_id.as_bytes_vec();
    let mut amount_bytes = u64_to_be_bytes(amount_sats);
    data.append(&mut amount_bytes);
    let mut salt_bytes = slice_to_vec(salt);
    data.append(&mut salt_bytes);
    sha256_digest(data.as_slice())
}

/// Exclusive owner of the mapping from payment hash to contract. Contracts
/// are never deleted, only terminally stated, and every mutation is
/// mediated by [`Self::apply_transition`]. Lookups scan the backing vector,
/// so they are linear in the number of contracts; a keyed index (or a lock
/// sharded by payment hash) is the scaling extension, with no change to the
/// external contract.
pub struct EscrowManager {
    contracts: Vec<HodlContract>,
    next_id: u64,
}

impl View for EscrowManager {
    type V = Seq<HodlContract>;

    closed spec fn view(&self) -> Seq<HodlContract> {
        self.contracts@
    }
}

impl EscrowManager {
    /// The counter from which the next contract identifier is allocated.
    pub closed spec fn spec_next_id(&self) -> u64 {
        self.next_id
    }

    /// Payment hashes are unique keys of the ledger; the `i`-th stored
    /// contract carries the `i`-th allocated identifier (contracts are never
    /// deleted, so identifiers are unique too); and every stored amount is
    /// positive.
    pub open spec fn wf(&self) -> bool {
        &&& forall|i: int, j: int|
            0 <= i < j < self@.len() ==> self@[i].payment_hash@ != self@[j].payment_hash@
        &&& self@.len() == self.spec_next_id()
        &&& forall|i: int| 0 <= i < self@.len() ==> self@[i].contract_id@ == contract_id_of(
            i as u64,
        )
        &&& forall|i: int| 0 <= i < self@.len() ==> self@[i].amount_sats > 0
    }

    /// Contract identifiers are unique across the ledger.
    pub proof fn lemma_contract_ids_unique(&self, i: int, j: int)
        requires
            self.wf(),
            0 <= i < j < self@.len(),
        ensures
            self@[i].contract_id@ != self@[j].contract_id@,
    {
        if self@[i].contract_id@ == self@[j].contract_id@ {
            lemma_contract_id_injective(i as u64, j as u64);
        }
    }

    /// Whether some stored contract carries the given payment hash.
    pub open spec fn has_hash(&self, h: Seq<char>) -> bool {
        exists|i: int| 0 <= i < self@.len() && self@[i].payment_hash@ == h
    }

    /// The position of the contract carrying the given payment hash.
    pub open spec fn spec_index_of(&self, h: Seq<char>) -> int {
        choose|i: int| 0 <= i < self@.len() && self@[i].payment_hash@ == h
    }

    /// The stored contract carrying the given payment hash.
    pub open spec fn spec_contract(&self, h: Seq<char>) -> HodlContract {
        self@[self.spec_index_of(h)]
    }

    /// An empty ledger.
    pub fn new() -> (r: EscrowManager)
        ensures
            r@ == Seq::<HodlContract>::empty(),
            r.wf(),
            r.spec_next_id() == 0,
    {
        EscrowManager { contracts: Vec::new(), next_id: 0 }
    }

    fn find_index(&self, key: &String) -> (r: Option<usize>)
        ensures
            r matches Some(i) ==> i < self@.len() && self@[i as int].payment_hash@ == key@,
            r is None ==> !self.has_hash(key@),
    {
        let mut i: usize = 0;
        while i < self.contracts.len()
            invariant
                i <= self@.len(),
                forall|j: int| 0 <= j < i ==> self@[j].payment_hash@ != key@,
            decreases self@.len() - i,
        {
            if self.contracts[i].payment_hash == *key {
                return Some(i);
            }
            i = i + 1;
        }
        None
    }

    /// A snapshot of the contract stored under `payment_hash`, never a live
    /// reference: callers cannot mutate state outside the transition
    /// operation.
    pub fn get_contract(&self, payment_hash: &str) -> (r: Option<HodlContract>)
        requires
            self.wf(),
        ensures
            r is Some <==> self.has_hash(payment_hash@),
            r matches Some(c) ==> c == self.spec_contract(payment_hash@),
    {
        let key = payment_hash.to_owned();
        match self.find_index(&key) {
            Some(i) => {
                proof {
                    self.lemma_index_unique(payment_hash@, i as int);
                }
                Some(self.contracts[i].snapshot())
            },
            None => None,
        }
    }

    proof fn lemma_index_unique(&self, h: Seq<char>, i: int)
        requires
            self.wf(),
            0 <= i < self@.len(),
            self@[i].payment_hash@ == h,
        ensures
            self.has_hash(h),
            self.spec_index_of(h) == i,
    {
        assert(self.has_hash(h));
        let j = self.spec_index_of(h);
        if j != i {
            assert(self@[i].payment_hash@ != self@[j].payment_hash@);
        }
    }

    /// Applies `event` to the contract stored under `payment_hash`. On a
    /// legal transition the stored state is replaced; on an illegal one the
    /// error carries the current state and the attempted event and the
    /// ledger is unchanged; an unknown hash leaves it unchanged too.
    pub fn apply_transition(&mut self, payment_hash: &str, event: EscrowEvent) -> (r: Result<
        EscrowState,
        EscrowError,
    >)
        requires
            old(self).wf(),
        ensures
            final(self).wf(),
            final(self).spec_next_id() == old(self).spec_next_id(),
            !old(self).has_hash(payment_hash@) ==> r == Err::<EscrowState, EscrowError>(
                EscrowError::ContractNotFound,
            ) && final(self)@ == old(self)@,
            old(self).has_hash(payment_hash@) && transition(
                old(self).spec_contract(payment_hash@).state,
                event,
            ) is None ==> r == Err::<EscrowState, EscrowError>(
                EscrowError::IllegalTransition(
                    old(self).spec_contract(payment_hash@).state,
                    event,
                ),
            ) && final(self)@ == old(self)@,
            old(self).has_hash(payment_hash@) ==> (transition(
                old(self).spec_contract(payment_hash@).state,
                event,
            ) matches Some(next) ==> r == Ok::<EscrowState, EscrowError>(next) && final(self)@
                == old(self)@.update(
                old(self).spec_index_of(payment_hash@),
                with_state(old(self).spec_contract(payment_hash@), next),
            ) && final(self).has_hash(payment_hash@) && final(self).spec_contract(payment_hash@)
                == with_state(old(self).spec_contract(payment_hash@), next)),
            final(self).has_hash(payment_hash@) <==> old(self).has_hash(payment_hash@),
    {
        let ghost prior = *self;
        let key = payment_hash.to_owned();
        match self.find_index(&key) {
            Some(i) => {
                proof {
                    self.lemma_index_unique(payment_hash@, i as int);
                }
                let current = self.contracts[i].state;
                match step(current, event) {
                    Some(next) => {
                        let updated = HodlContract {
                            contract_id: self.contracts[i].contract_id.clone(),
                            payment_hash: self.contracts[i].payment_hash.clone(),
                            amount_sats: self.contracts[i].amount_sats,
                            state: next,
                        };
                        self.contracts[i] = updated;
                        proof {
                            assert(self@ =~= prior@.update(
                                i as int,
                                with_state(prior@[i as int], next),
                            ));
                            assert forall|a: int, b: int|
                                0 <= a < b < self@.len() implies self@[a].payment_hash@
                                != self@[b].payment_hash@ by {
                                assert(self@[a].payment_hash@ == prior@[a].payment_hash@);
                                assert(self@[b].payment_hash@ == prior@[b].payment_hash@);
                            }
                            assert forall|a: int|
                                0 <= a < self@.len() implies self@[a].contract_id@
                                == contract_id_of(a as u64) by {
                                assert(self@[a].contract_id@ == prior@[a].contract_id@);
                            }
                            self.lemma_index_unique(payment_hash@, i as int);
                        }
                        Ok(next)
                    },
                    None => Err(EscrowError::IllegalTransition(current, event)),
                }
            },
            None => Err(EscrowError::ContractNotFound),
        }
    }

    /// Inserts a new `Open` contract whose payment hash is derived from the
    /// allocated identifier, the amount and the given salt; refuses a zero
    /// amount, an exhausted identifier space and a payment-hash collision,
    /// leaving the ledger unchanged in each case.
    pub fn create_invoice_with_salt(&mut self, amount_sats: u64, salt: &[u8]) -> (r: Result<
        HodlContract,
        EscrowError,
    >)
        requires
            old(self).wf(),
        ensures
            final(self).wf(),
            amount_sats == 0 ==> r == Err::<HodlContract, EscrowError>(EscrowError::InvalidAmount)
                && final(self)@ == old(self)@ && final(self).spec_next_id() == old(self).spec_next_id(),
            amount_sats > 0 && old(self).spec_next_id() == u64::MAX ==> r == Err::<
                HodlContract,
                EscrowError,
            >(EscrowError::DuplicateContract) && final(self)@ == old(self)@ && final(self).spec_next_id() == old(self).spec_next_id(),
            amount_sats > 0 && old(self).spec_next_id() < u64::MAX && old(self).has_hash(
                invoice_hash(contract_id_of(old(self).spec_next_id()), amount_sats, salt@),
            ) ==> r == Err::<HodlContract, EscrowError>(EscrowError::DuplicateContract) && final(self)@ == old(self)@ && final(self).spec_next_id() == old(self).spec_next_id(),
            amount_sats > 0 && old(self).spec_next_id() < u64::MAX && !old(self).has_hash(
                invoice_hash(contract_id_of(old(self).spec_next_id()), amount_sats, salt@),
            ) ==> (r matches Ok(c) && c.contract_id@ == contract_id_of(old(self).spec_next_id())
                && c.payment_hash@ == invoice_hash(c.contract_id@, amount_sats, salt@)
                && c.amount_sats == amount_sats && c.state == EscrowState::Open && final(self)@
                == old(self)@.push(c) && final(self).spec_next_id() == old(self).spec_next_id()
                + 1),
    {
        if amount_sats == 0 {
            return Err(EscrowError::InvalidAmount);
        }
        if self.next_id == u64::MAX {
            return Err(EscrowError::DuplicateContract);
        }
        let contract_id = contract_id_string(self.next_id);
        let payment_hash = invoice_hash_string(contract_id.as_str(), amount_sats, salt);
        match self.find_index(&payment_hash) {
            Some(_) => Err(EscrowError::DuplicateContract),
            None => {
                let ghost prior = *self;
                let contract = HodlContract {
                    contract_id,
                    payment_hash,
                    amount_sats,
                    state: EscrowState::Open,
                };
                let stored = contract.snapshot();
                self.contracts.push(stored);
                self.next_id = self.next_id + 1;
                proof {
                    assert(self@ =~= prior@.push(contract));
                    assert forall|a: int, b: int|
                        0 <= a < b < self@.len() implies self@[a].payment_hash@
                        != self@[b].payment_hash@ by {
                        if b < self@.len() - 1 {
                            assert(self@[a].payment_hash@ == prior@[a].payment_hash@);
                            assert(self@[b].payment_hash@ == prior@[b].payment_hash@);
                        } else {
                            assert(!prior.has_hash(contract.payment_hash@));
                            assert(self@[a].payment_hash@ == prior@[a].payment_hash@);
                        }
                    }
                    assert forall|a: int|
                        0 <= a < self@.len() implies self@[a].contract_id@ == contract_id_of(
                        a as u64,
                    ) by {
                        if a < self@.len() - 1 {
                            assert(self@[a].contract_id@ == prior@[a].contract_id@);
                        } else {
                            assert(self@[a] == contract);
                            assert(a == prior.spec_next_id());
                        }
                    }
                }
                Ok(contract)
            },
        }
    }

    /// Creates a hold invoice for `amount_sats`: allocates an identifier,
    /// derives a collision-free payment hash from it and a fresh random
    /// salt (re-drawing the salt on the rare event of a collision), and
    /// stores the contract in state `Open`. Fails with `DuplicateContract`
    /// only when collision avoidance is exhausted; a failure of the system
    /// generator counts as exhaustion, since no salt can then be drawn.
    pub fn create_invoice(&mut self, amount_sats: u64) -> (r: Result<HodlContract, EscrowError>)
        requires
            old(self).wf(),
        ensures
            final(self).wf(),
            amount_sats == 0 <==> r == Err::<HodlContract, EscrowError>(
                EscrowError::InvalidAmount,
            ),
            r matches Ok(c) ==> c.amount_sats == amount_sats && c.state == EscrowState::Open
                && c.contract_id@ == contract_id_of(old(self).spec_next_id()) && (
            exists|salt: Seq<u8>|
                salt.len() == 12 && c.payment_hash@ == invoice_hash(
                    c.contract_id@,
                    amount_sats,
                    salt,
                )) && !old(self).has_hash(c.payment_hash@) && final(self)@ == old(self)@.push(c)
                && final(self).has_hash(c.payment_hash@) && final(self).spec_contract(
                c.payment_hash@,
            ) == c,
            r matches Err(e) ==> (e == EscrowError::InvalidAmount || e
                == EscrowError::DuplicateContract) && final(self)@ == old(self)@,
    {
        if amount_sats == 0 {
            return Err(EscrowError::InvalidAmount);
        }
        let mut attempts: usize = 0;
        while attempts < 8
            invariant
                self.wf(),
                self@ == old(self)@,
                self.spec_next_id() == old(self).spec_next_id(),
                amount_sats > 0,
            decreases 8 - attempts,
        {
            let salt = match fresh_random_12() {
                Some(s) => s,
                None => return Err(EscrowError::DuplicateContract),
            };
            match self.create_invoice_with_salt(amount_sats, salt.as_slice()) {
                Ok(c) => {
                    proof {
                        self.lemma_index_unique(c.payment_hash@, self@.len() - 1);
                    }
                    return Ok(c);
                },
                Err(_) => {
                    attempts = attempts + 1;
                },
            }
        }
        Err(EscrowError::DuplicateContract)
    }
}

} // verus!
