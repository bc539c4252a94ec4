use crate::amount::{amount_clone, amount_from_u64, amount_value};
use crate::primitives::{Address, Nonce, PubKeyHash, TokenId};
use num::BigUint;
use std::collections::HashMap;
use vstd::prelude::*;
use vstd::std_specs::hash::*;

verus! {

broadcast use group_hash_axioms;

/// What an account is, as a value of specifications. A token that the map of
/// balances does not hold has balance zero, and the map holds no zero.
pub struct AccountSpec {
    pub address: Address,
    pub nonce: u32,
    pub pub_key_hash: Option<PubKeyHash>,
    pub balances: Map<u32, nat>,
}

impl AccountSpec {
    /// The account as it is created: no transaction authored, no signing
    /// key, every balance zero.
    pub open spec fn fresh(address: Address) -> AccountSpec {
        AccountSpec { address, nonce: 0, pub_key_hash: None, balances: Map::empty() }
    }

    /// The balance of `token`.
    pub open spec fn balance(self, token: u32) -> nat {
        if self.balances.contains_key(token) {
            self.balances[token]
        } else {
            0
        }
    }

    /// The account with `amount` as its balance of `token`.
    pub open spec fn with_balance(self, token: u32, amount: nat) -> AccountSpec {
        AccountSpec {
            balances: if amount == 0 {
                self.balances.remove(token)
            } else {
                self.balances.insert(token, amount)
            },
            ..self
        }
    }

    /// The account with `nonce` as its nonce.
    pub open spec fn with_nonce(self, nonce: u32) -> AccountSpec {
        AccountSpec { nonce, ..self }
    }

    /// No entry of the map of balances is zero.
    pub open spec fn normal(self) -> bool {
        forall|t: u32| self.balances.contains_key(t) ==> self.balances[t] > 0
    }
}

/// An account of the ledger.
#[derive(Debug)]
pub struct Account {
    pub address: Address,
    pub nonce: Nonce,
    pub pub_key_hash: Option<PubKeyHash>,
    pub balances: HashMap<u32, BigUint>,
}

impl View for Account {
    type V = AccountSpec;

    open spec fn view(&self) -> AccountSpec {
        AccountSpec {
            address: self.address,
            nonce: self.nonce.0,
            pub_key_hash: self.pub_key_hash,
            balances: self.balance_map(),
        }
    }
}

impl Clone for Account {
    fn clone(&self) -> (r: Account)
        ensures
            r@ == self@,
    {
        Account {
            address: self.address,
            nonce: self.nonce,
            pub_key_hash: self.pub_key_hash,
            balances: self.balances.clone(),
        }
    }
}

impl Account {
    /// The balances that are not zero.
    pub open spec fn balance_map(&self) -> Map<u32, nat> {
        Map::new(
            |t: u32| self.balances@.contains_key(t) && amount_value(self.balances@[t]) > 0,
            |t: u32| amount_value(self.balances@[t]),
        )
    }

    /// The map of balances holds no zero.
    pub proof fn lemma_normal(&self)
        ensures
            self@.normal(),
    {
    }

    /// A new account at `address`.
    pub fn default_with_address(address: &Address) -> (r: Account)
        ensures
            r@ == AccountSpec::fresh(*address),
    {
        let r = Account {
            address: *address,
            nonce: Nonce(0),
            pub_key_hash: None,
            balances: HashMap::new(),
        };
        assert(r.balance_map() =~= Map::empty());
        r
    }

    /// The balance of `token`; zero where the account holds none.
    pub fn get_balance(&self, token: TokenId) -> (r: BigUint)
        ensures
            amount_value(r) == self@.balance(token.0),
    {
        match self.balances.get(&token.0) {
            Some(b) => amount_clone(b),
            None => amount_from_u64(0),
        }
    }

    /// Sets the balance of `token` to `amount`.
    pub fn set_balance(&mut self, token: TokenId, amount: BigUint)
        ensures
            final(self)@ == old(self)@.with_balance(token.0, amount_value(amount)),
    {
        self.balances.insert(token.0, amount);
        assert(self.balance_map() =~= old(self)@.with_balance(
            token.0,
            amount_value(amount),
        ).balances);
    }
}

} // verus!
