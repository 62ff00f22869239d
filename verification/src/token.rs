//! A token-style contract: a total supply and per-account balances.
//!
//! Deploy decodes an initial supply from the deploy buffer and assigns
//! all of it to the deploying caller.  `transfer` moves an amount from
//! the caller to a recipient and returns whether it took place: `false`
//! — with balances untouched — when the caller's balance is too small
//! or the recipient's balance would overflow.

use vstd::prelude::*;

use crate::allocator::KeyAllocator;
use crate::arith::pow256;
use crate::cell::{StorageMap, Value};
use crate::codec::{decoded, Codec};
use crate::dispatch::Contract;
use crate::env::{AccountId, Env, EnvModel};
use crate::Error;

verus! {

/// Selector registered for the `total_supply` handler.
pub const TOTAL_SUPPLY_SELECTOR: u32 = 0xA1;

/// Selector registered for the `balance_of` handler.
pub const BALANCE_OF_SELECTOR: u32 = 0xA2;

/// Selector registered for the `transfer` handler.
pub const TRANSFER_SELECTOR: u32 = 0xA3;

/// Contract state: the supply cell and the balance map.
pub struct Token {
    total_supply: Value<u64>,
    balances: StorageMap<AccountId, u64>,
}

impl Token {
    /// The cell holding the total supply.
    pub closed spec fn supply_cell(self) -> Value<u64> {
        self.total_supply
    }

    /// The map holding one balance per account.
    pub closed spec fn balance_map(self) -> StorageMap<AccountId, u64> {
        self.balances
    }

    /// Allocates the contract's two cells, in declaration order.
    pub fn bind(alloc: &mut KeyAllocator) -> (r: Token)
        requires
            old(alloc).cursor() + 2 < pow256(32),
        ensures
            final(alloc).cursor() == old(alloc).cursor() + 2,
            r.supply_cell().key_of() == old(alloc).current(),
            r.balance_map().base_of().as_nat() == old(alloc).cursor() + 1,
    {
        let supply_key = alloc.allocate(1);
        let balances_key = alloc.allocate(1);
        Token { total_supply: Value::bind(supply_key), balances: StorageMap::bind(balances_key) }
    }

    /// An account's balance against store contents `m`: a never-written
    /// balance is zero; undecodable stored bytes are fatal.
    pub open spec fn balance_model(self, m: Map<Seq<u8>, Seq<u8>>, who: AccountId) -> Result<
        u64,
        Error,
    > {
        match self.balance_map().read_spec(m, who) {
            Ok(Some(b)) => Ok(b),
            Ok(None) => Ok(0u64),
            Err(e) => Err(e),
        }
    }

    /// The total supply against store contents `m`.
    pub open spec fn supply_model(self, m: Map<Seq<u8>, Seq<u8>>) -> Result<u64, Error> {
        match self.supply_cell().read_spec(m) {
            Ok(Some(v)) => Ok(v),
            Ok(None) => Ok(0u64),
            Err(e) => Err(e),
        }
    }

    /// Store contents and result of `transfer(from, to, amount)`: the
    /// move happens — and `true` is returned — exactly when `from`
    /// holds at least `amount` and the recipient's balance cannot
    /// overflow; otherwise nothing changes and `false` is returned.
    pub open spec fn transfer_model(
        self,
        m: Map<Seq<u8>, Seq<u8>>,
        from: AccountId,
        to: AccountId,
        amount: u64,
    ) -> (Map<Seq<u8>, Seq<u8>>, Result<bool, Error>) {
        match self.balance_model(m, from) {
            Err(e) => (m, Err(e)),
            Ok(from_balance) => {
                if from_balance < amount {
                    (m, Ok(false))
                } else if from == to {
                    (m, Ok(true))
                } else {
                    match self.balance_model(m, to) {
                        Err(e) => (m, Err(e)),
                        Ok(to_balance) => {
                            if to_balance + amount > u64::MAX {
                                (m, Ok(false))
                            } else {
                                (
                                    m.insert(
                                        self.balance_map().entry_key(from),
                                        ((from_balance - amount) as u64).enc(),
                                    ).insert(
                                        self.balance_map().entry_key(to),
                                        ((to_balance + amount) as u64).enc(),
                                    ),
                                    Ok(true),
                                )
                            }
                        },
                    }
                }
            },
        }
    }

    /// An account's balance; zero when never written.
    pub fn balance_of(&self, env: &Env, who: &AccountId) -> (r: Result<u64, Error>)
        ensures
            r == self.balance_model(env@.storage, *who),
    {
        match self.balances.get(env.storage(), who) {
            Ok(Some(b)) => Ok(b),
            Ok(None) => Ok(0u64),
            Err(e) => Err(e),
        }
    }

    /// The total supply; zero when never written.
    pub fn total_supply(&self, env: &Env) -> (r: Result<u64, Error>)
        ensures
            r == self.supply_model(env@.storage),
    {
        match self.total_supply.get(env.storage()) {
            Ok(Some(v)) => Ok(v),
            Ok(None) => Ok(0u64),
            Err(e) => Err(e),
        }
    }

    /// Moves `amount` from the caller to `to`; returns whether the
    /// move took place.
    pub fn transfer(&self, env: &mut Env, to: &AccountId, amount: u64) -> (r: Result<bool, Error>)
        ensures
            ({
                let (m2, r2) = self.transfer_model(old(env)@.storage, old(env)@.caller, *to, amount);
                &&& final(env)@.storage == m2
                &&& final(env)@.caller == old(env)@.caller
                &&& r == r2
            }),
    {
        let from = env.caller();
        let from_balance = match self.balance_of(env, &from) {
            Ok(b) => b,
            Err(e) => {
                return Err(e);
            },
        };
        if from_balance < amount {
            return Ok(false);
        }
        if from.eq_bytes(to) {
            return Ok(true);
        }
        let to_balance = match self.balance_of(env, to) {
            Ok(b) => b,
            Err(e) => {
                return Err(e);
            },
        };
        if amount > u64::MAX - to_balance {
            return Ok(false);
        }
        self.balances.insert(env.storage_mut(), &from, &(from_balance - amount));
        self.balances.insert(env.storage_mut(), to, &(to_balance + amount));
        Ok(true)
    }
}

impl Contract for Token {
    open spec fn selectors() -> Seq<u32> {
        seq![TOTAL_SUPPLY_SELECTOR, BALANCE_OF_SELECTOR, TRANSFER_SELECTOR]
    }

    /// The deploy buffer is the encoded initial supply, which is
    /// assigned in full to the deploying caller.
    open spec fn init_model(self, env: EnvModel, payload: Seq<u8>) -> (Map<Seq<u8>, Seq<u8>>, Result<
        (),
        Error,
    >) {
        match decoded::<u64>(payload) {
            Some(supply) => (
                env.storage.insert(self.supply_cell().key_bytes(), supply.enc()).insert(
                    self.balance_map().entry_key(env.caller),
                    supply.enc(),
                ),
                Ok(()),
            ),
            None => (env.storage, Err(Error::Decode)),
        }
    }

    /// `total_supply` takes no payload; `balance_of` takes an encoded
    /// account; `transfer` takes an encoded recipient followed by an
    /// encoded amount, with the sender always the caller.
    open spec fn invoke_model(self, env: EnvModel, sel: u32, payload: Seq<u8>) -> (
        Map<Seq<u8>, Seq<u8>>,
        Result<Seq<u8>, Error>,
    ) {
        if sel == TOTAL_SUPPLY_SELECTOR {
            if payload.len() == 0 {
                (
                    env.storage,
                    match self.supply_model(env.storage) {
                        Ok(v) => Ok(v.enc()),
                        Err(e) => Err(e),
                    },
                )
            } else {
                (env.storage, Err(Error::Decode))
            }
        } else if sel == BALANCE_OF_SELECTOR {
            match decoded::<AccountId>(payload) {
                Some(who) => (
                    env.storage,
                    match self.balance_model(env.storage, who) {
                        Ok(b) => Ok(b.enc()),
                        Err(e) => Err(e),
                    },
                ),
                None => (env.storage, Err(Error::Decode)),
            }
        } else {
            if payload.len() == 40 {
                match (
                    decoded::<AccountId>(payload.subrange(0, 32)),
                    decoded::<u64>(payload.subrange(32, 40)),
                ) {
                    (Some(to), Some(amount)) => {
                        let (m2, r2) = self.transfer_model(env.storage, env.caller, to, amount);
                        (
                            m2,
                            match r2 {
                                Ok(b) => Ok(b.enc()),
                                Err(e) => Err(e),
                            },
                        )
                    },
                    _ => (env.storage, Err(Error::Decode)),
                }
            } else {
                (env.storage, Err(Error::Decode))
            }
        }
    }

    proof fn lemma_selectors_unique() {
        assert(Self::selectors()[0] == TOTAL_SUPPLY_SELECTOR);
        assert(Self::selectors()[1] == BALANCE_OF_SELECTOR);
        assert(Self::selectors()[2] == TRANSFER_SELECTOR);
    }

    fn is_selector(sel: u32) -> (r: bool) {
        proof {
            assert(Self::selectors()[0] == TOTAL_SUPPLY_SELECTOR);
            assert(Self::selectors()[1] == BALANCE_OF_SELECTOR);
            assert(Self::selectors()[2] == TRANSFER_SELECTOR);
            if Self::selectors().contains(sel) {
                let i = choose|i: int|
                    0 <= i < Self::selectors().len() && Self::selectors()[i] == sel;
                assert(i == 0 || i == 1 || i == 2);
            }
        }
        sel == TOTAL_SUPPLY_SELECTOR || sel == BALANCE_OF_SELECTOR || sel == TRANSFER_SELECTOR
    }

    fn init(&self, env: &mut Env, payload: &[u8]) -> (r: Result<(), Error>) {
        match u64::decode(payload) {
            Some(supply) => {
                proof {
                    let w = choose|w: u64| w.enc() == payload@;
                    u64::lemma_enc_injective(supply, w);
                }
                let caller = env.caller();
                self.total_supply.set(env.storage_mut(), &supply);
                self.balances.insert(env.storage_mut(), &caller, &supply);
                Ok(())
            },
            None => Err(Error::Decode),
        }
    }

    fn invoke(&self, env: &mut Env, sel: u32, payload: &[u8]) -> (r: Result<Vec<u8>, Error>) {
        if sel == TOTAL_SUPPLY_SELECTOR {
            if payload.len() != 0 {
                return Err(Error::Decode);
            }
            match self.total_supply(env) {
                Ok(v) => Ok(v.encode()),
                Err(e) => Err(e),
            }
        } else if sel == BALANCE_OF_SELECTOR {
            match AccountId::decode(payload) {
                Some(who) => {
                    proof {
                        let w = choose|w: AccountId| w.enc() == payload@;
                        AccountId::lemma_enc_injective(who, w);
                    }
                    match self.balance_of(env, &who) {
                        Ok(b) => Ok(b.encode()),
                        Err(e) => Err(e),
                    }
                },
                None => Err(Error::Decode),
            }
        } else {
            proof {
                let i = choose|i: int|
                    0 <= i < Self::selectors().len() && Self::selectors()[i] == sel;
                assert(Self::selectors()[0] == TOTAL_SUPPLY_SELECTOR);
                assert(Self::selectors()[1] == BALANCE_OF_SELECTOR);
                assert(Self::selectors()[2] == TRANSFER_SELECTOR);
                assert(i == 0 || i == 1 || i == 2);
            }
            if payload.len() != 40 {
                return Err(Error::Decode);
            }
            let to_bytes = vstd::slice::slice_subrange(payload, 0, 32);
            let amount_bytes = vstd::slice::slice_subrange(payload, 32, 40);
            let to = match AccountId::decode(to_bytes) {
                Some(who) => who,
                None => {
                    return Err(Error::Decode);
                },
            };
            let amount = match u64::decode(amount_bytes) {
                Some(v) => v,
                None => {
                    return Err(Error::Decode);
                },
            };
            proof {
                let w = choose|w: AccountId| w.enc() == payload@.subrange(0, 32);
                AccountId::lemma_enc_injective(to, w);
                let w2 = choose|w2: u64| w2.enc() == payload@.subrange(32, 40);
                u64::lemma_enc_injective(amount, w2);
            }
            match self.transfer(env, &to, amount) {
                Ok(b) => Ok(b.encode()),
                Err(e) => Err(e),
            }
        }
    }
}

} // verus!
