//! The asset ledger: the balance-moving capability the engine drives.
//!
//! The engine needs four things from its host's ledger: balance reads,
//! all-or-nothing transfers, asset creation and minting for pool-share
//! tokens. This module provides that capability as a verified in-memory
//! ledger keyed by account and asset, with an exact contract on every
//! operation, so the whole engine is checked against the same behaviour a
//! conforming host must provide.

use vstd::prelude::*;
use std::collections::HashMap;
use crate::errors::Error;

verus! {

/// What the ledger records about a created asset.
#[derive(Clone, Copy, Debug, PartialEq, Eq, Structural)]
pub struct AssetInfo {
    pub owner: u64,
    pub is_sufficient: bool,
    pub min_balance: u128,
}

/// The storage key of an account's balance of one asset.
pub open spec fn balance_key(account: u64, asset: u32) -> u128 {
    (account * 0x1_0000_0000 + asset) as u128
}

/// The balance a map records for an account and asset; absent means zero.
pub open spec fn spec_balance(m: Map<u128, u128>, account: u64, asset: u32) -> u128 {
    if m.contains_key(balance_key(account, asset)) {
        m[balance_key(account, asset)]
    } else {
        0
    }
}

/// What a transfer does to the balance map: it fails when the sender lacks
/// the amount or the receiver's balance would not fit, and otherwise moves
/// the amount; a self-transfer that passes the balance check changes nothing.
pub open spec fn spec_transfer(
    m: Map<u128, u128>,
    asset: u32,
    from: u64,
    to: u64,
    amount: u128,
) -> Result<Map<u128, u128>, Error> {
    if spec_balance(m, from, asset) < amount {
        Err(Error::TransferFailed)
    } else if from == to {
        Ok(m)
    } else if spec_balance(m, to, asset) + amount > u128::MAX {
        Err(Error::TransferFailed)
    } else {
        Ok(
            m.insert(
                balance_key(from, asset),
                (spec_balance(m, from, asset) - amount) as u128,
            ).insert(balance_key(to, asset), (spec_balance(m, to, asset) + amount) as u128),
        )
    }
}

/// What minting does to the balance map: it fails when the asset was never
/// created or the receiver's balance would not fit, and otherwise adds the
/// amount out of thin air.
pub open spec fn spec_mint(
    m: Map<u128, u128>,
    assets: Map<u32, AssetInfo>,
    asset: u32,
    account: u64,
    amount: u128,
) -> Result<Map<u128, u128>, Error> {
    if !assets.contains_key(asset) {
        Err(Error::MintFailed)
    } else if spec_balance(m, account, asset) + amount > u128::MAX {
        Err(Error::MintFailed)
    } else {
        Ok(m.insert(balance_key(account, asset), (spec_balance(m, account, asset) + amount) as u128))
    }
}

/// A verified in-memory asset ledger.
pub struct AssetLedger {
    pub balances: HashMap<u128, u128>,
    pub assets: HashMap<u32, AssetInfo>,
}

impl AssetLedger {
    /// A ledger with no assets and no balances.
    pub fn new() -> (r: AssetLedger)
        ensures
            r.balances@ == Map::<u128, u128>::empty(),
            r.assets@ == Map::<u32, AssetInfo>::empty(),
    {
        AssetLedger { balances: HashMap::new(), assets: HashMap::new() }
    }

    /// A pure read of an account's balance of one asset.
    pub fn balance_of(&self, account: u64, asset: u32) -> (r: u128)
        ensures
            r == spec_balance(self.balances@, account, asset),
    {
        let k: u128 = balance_key_exec(account, asset);
        match self.balances.get(&k) {
            Some(v) => *v,
            None => 0,
        }
    }

    /// Whether an asset has been created on this ledger.
    pub fn asset_exists(&self, asset: u32) -> (r: bool)
        ensures
            r == self.assets@.contains_key(asset),
    {
        self.assets.contains_key(&asset)
    }

    /// Registers a new mintable asset; fails if the identifier is taken.
    pub fn create(
        &mut self,
        asset: u32,
        owner: u64,
        is_sufficient: bool,
        min_balance: u128,
    ) -> (r: Result<(), Error>)
        ensures
            old(self).assets@.contains_key(asset) ==> {
                &&& r == Err::<(), Error>(Error::MintFailed)
                &&& final(self).assets@ == old(self).assets@
                &&& final(self).balances@ == old(self).balances@
            },
            !old(self).assets@.contains_key(asset) ==> {
                &&& r == Ok::<(), Error>(())
                &&& final(self).assets@ == old(self).assets@.insert(
                    asset,
                    AssetInfo { owner, is_sufficient, min_balance },
                )
                &&& final(self).balances@ == old(self).balances@
            },
    {
        if self.assets.contains_key(&asset) {
            return Err(Error::MintFailed);
        }
        self.assets.insert(asset, AssetInfo { owner, is_sufficient, min_balance });
        Ok(())
    }

    /// Mints an amount of a created asset into an account.
    pub fn mint_into(&mut self, asset: u32, account: u64, amount: u128) -> (r: Result<(), Error>)
        ensures
            final(self).assets@ == old(self).assets@,
            match spec_mint(old(self).balances@, old(self).assets@, asset, account, amount) {
                Ok(m) => r == Ok::<(), Error>(()) && final(self).balances@ == m,
                Err(e) => r == Err::<(), Error>(e) && final(self).balances@ == old(self).balances@,
            },
    {
        if !self.assets.contains_key(&asset) {
            return Err(Error::MintFailed);
        }
        let held: u128 = self.balance_of(account, asset);
        if held > u128::MAX - amount {
            return Err(Error::MintFailed);
        }
        let k: u128 = balance_key_exec(account, asset);
        self.balances.insert(k, held + amount);
        Ok(())
    }

    /// Moves an amount of an asset between two accounts, all or nothing.
    pub fn transfer(&mut self, asset: u32, from: u64, to: u64, amount: u128) -> (r: Result<
        (),
        Error,
    >)
        ensures
            final(self).assets@ == old(self).assets@,
            match spec_transfer(old(self).balances@, asset, from, to, amount) {
                Ok(m) => r == Ok::<(), Error>(()) && final(self).balances@ == m,
                Err(e) => r == Err::<(), Error>(e) && final(self).balances@ == old(self).balances@,
            },
    {
        let sender_held: u128 = self.balance_of(from, asset);
        if sender_held < amount {
            return Err(Error::TransferFailed);
        }
        if from == to {
            return Ok(());
        }
        let receiver_held: u128 = self.balance_of(to, asset);
        if receiver_held > u128::MAX - amount {
            return Err(Error::TransferFailed);
        }
        let kf: u128 = balance_key_exec(from, asset);
        let kt: u128 = balance_key_exec(to, asset);
        self.balances.insert(kf, sender_held - amount);
        self.balances.insert(kt, receiver_held + amount);
        Ok(())
    }
}

/// The executable form of `balance_key`.
fn balance_key_exec(account: u64, asset: u32) -> (k: u128)
    ensures
        k == balance_key(account, asset),
{
    (account as u128) * 0x1_0000_0000 + (asset as u128)
}

} // verus!
