//! The contract: a registry of owners and the credentials they have
//! unlocked, behind the operations offered to callers.
//!
//! The contract decides and keeps the books. Moving funds and granting or
//! revoking a credential is left to the host, which acts on what an
//! operation returns.

use vstd::prelude::*;
use crate::credentials::{
    credential_views,
    distinct_keys,
    expired,
    issued_key_is_tracked_once,
    kept,
    key_views,
    keys_of,
    sweep_is_idempotent,
    tracks,
    CredentialModel,
    CredentialSet,
    TemporaryCredential,
};
use crate::error::ContractError;
use crate::fee::MAX_SLOTS;
use crate::registry::{
    any_owner_allows,
    confirm_allows,
    confirmed_all,
    confirmations_keep_owners,
    listing,
    pair_texts,
    registration,
    row_well_formed,
    slot_views,
    standings,
    Registry,
};
use crate::slot::{Slot, SlotModel};

verus! {

/// How long, in seconds, an unlocked credential stays in force.
pub const ACCESS_KEY_LIFETIME_SECS: u64 = 300;

/// The nanoseconds in one second.
pub const NANOS_PER_SECOND: u64 = 1_000_000_000;

/// The account that administers every contract.
pub const ADMIN_ACCOUNT: &'static str = "genesis.veax_dao.testnet";

/// The whole seconds in a host timestamp given in nanoseconds.
pub fn unix_seconds(block_timestamp: u64) -> (seconds: u64)
    ensures
        seconds == block_timestamp / NANOS_PER_SECOND,
{
    block_timestamp / NANOS_PER_SECOND
}

/// The state of a contract.
#[derive(Debug)]
pub struct Contract {
    pairs: Registry,
    temp_keys: CredentialSet,
    pub owner_id: String,
}

/// A [`Contract`] as a mathematical value.
pub struct ContractModel {
    pub slots: Seq<SlotModel>,
    pub keys: Seq<CredentialModel>,
    pub owner_id: Seq<char>,
}

impl ContractModel {
    /// The slots make a well-formed row, and no credential is tracked
    /// twice.
    pub open spec fn well_formed(self) -> bool {
        row_well_formed(self.slots) && distinct_keys(self.keys)
    }

    /// Whether `unlock` grants `key` to `who` at `now`: the key must be new
    /// and some slot must grant the confirmation.
    pub open spec fn unlock_grants(self, key: Seq<u8>, who: Seq<char>, now: u64) -> bool {
        !tracks(self.keys, key) && confirm_allows(self.slots, who, now)
    }

    /// The contract after `unlock`. A call with a key already tracked changes
    /// nothing; any other call is recorded by every slot, and the key is
    /// tracked from `now` if it was granted.
    pub open spec fn after_unlock(self, key: Seq<u8>, who: Seq<char>, now: u64) -> ContractModel {
        if tracks(self.keys, key) {
            self
        } else {
            ContractModel {
                slots: confirmed_all(self.slots, who, now),
                keys: if confirm_allows(self.slots, who, now) {
                    self.keys.push(CredentialModel { key: key, issued_at: now })
                } else {
                    self.keys
                },
                owner_id: self.owner_id,
            }
        }
    }

    /// The contract after the credentials expired at `now` were revoked.
    pub open spec fn after_revoke(self, now: u64) -> ContractModel {
        ContractModel {
            slots: self.slots,
            keys: kept(self.keys, now, ACCESS_KEY_LIFETIME_SECS),
            owner_id: self.owner_id,
        }
    }

    /// The keys that a revocation at `now` hands to the host.
    pub open spec fn revoked(self, now: u64) -> Seq<Seq<u8>> {
        keys_of(expired(self.keys, now, ACCESS_KEY_LIFETIME_SECS))
    }

    /// Whether `who` may withdraw `amount` from a balance of `balance`: it
    /// must own a slot, and the balance must cover the amount.
    pub open spec fn withdrawal(self, who: Seq<char>, amount: u128, balance: u128) -> Result<
        (),
        ContractError,
    > {
        if !any_owner_allows(self.slots, who) {
            Err(ContractError::Unauthorized)
        } else if amount > balance {
            Err(ContractError::InsufficientBalance { available: balance })
        } else {
            Ok(())
        }
    }
}

/// No credential is granted twice. Once `unlock` has granted a key, a
/// further `unlock` with that key is refused, whoever calls and whenever,
/// and changes nothing; and an `unlock` leaves a well-formed contract well
/// formed, so that no key comes to be tracked twice.
pub proof fn unlock_never_repeats_a_key(
    contract: ContractModel,
    key: Seq<u8>,
    who: Seq<char>,
    now: u64,
    again_who: Seq<char>,
    again_at: u64,
)
    requires
        contract.well_formed(),
    ensures
        contract.after_unlock(key, who, now).well_formed(),
        contract.unlock_grants(key, who, now) ==> {
            let granted = contract.after_unlock(key, who, now);
            &&& tracks(granted.keys, key)
            &&& !granted.unlock_grants(key, again_who, again_at)
            &&& granted.after_unlock(key, again_who, again_at) == granted
        },
{
    if !tracks(contract.keys, key) {
        assert(row_well_formed(confirmed_all(contract.slots, who, now)));
        if confirm_allows(contract.slots, who, now) {
            issued_key_is_tracked_once(contract.keys, key, now);
        }
    }
}

/// The slots are fixed at registration: no operation adds, drops or renames
/// one. An `unlock` changes times only, and a revocation leaves the slots
/// untouched.
pub proof fn slots_keep_their_owners(
    contract: ContractModel,
    key: Seq<u8>,
    who: Seq<char>,
    now: u64,
)
    ensures
        listing(contract.after_unlock(key, who, now).slots) == listing(contract.slots),
        contract.after_revoke(now).slots == contract.slots,
{
    confirmations_keep_owners(contract.slots, who, who, now);
}

/// Revoking twice at the same time revokes only once: the second call hands
/// the host nothing and changes nothing.
pub proof fn revoke_is_idempotent(contract: ContractModel, now: u64)
    ensures
        contract.after_revoke(now).revoked(now) == Seq::<Seq<u8>>::empty(),
        contract.after_revoke(now).after_revoke(now) == contract.after_revoke(now),
{
    sweep_is_idempotent(contract.keys, now, ACCESS_KEY_LIFETIME_SECS);
}

/// A withdrawal is decided by who owns a slot and by the balance, never by
/// the time: an owner asking within the balance succeeds at any time, and no
/// `unlock` in between, by whomever and whenever, changes the decision.
pub proof fn withdrawal_ignores_time(
    contract: ContractModel,
    who: Seq<char>,
    amount: u128,
    balance: u128,
    key: Seq<u8>,
    other: Seq<char>,
    between: u64,
)
    ensures
        any_owner_allows(contract.slots, who) && amount <= balance ==> contract.withdrawal(
            who,
            amount,
            balance,
        ) is Ok,
        contract.after_unlock(key, other, between).withdrawal(who, amount, balance)
            == contract.withdrawal(who, amount, balance),
        contract.after_revoke(between).withdrawal(who, amount, balance) == contract.withdrawal(
            who,
            amount,
            balance,
        ),
{
    confirmations_keep_owners(contract.slots, who, other, between);
}

impl View for Contract {
    type V = ContractModel;

    closed spec fn view(&self) -> ContractModel {
        ContractModel { slots: self.pairs@, keys: self.temp_keys@, owner_id: self.owner_id@ }
    }
}

impl Contract {
    /// The contract's state is well formed.
    pub open spec fn wf(&self) -> bool {
        self@.well_formed()
    }

    /// Sets up a contract for the owners named in `pairs`, on behalf of
    /// `caller`, who attached `attached_deposit`. Returns the contract and
    /// the fee the host is to route out of the deposit.
    ///
    /// Each of the first five pairs configures one slot. The registration is
    /// refused as an invalid configuration if no pair is supplied, if any
    /// pair names the caller or if none configures a slot, and for an
    /// insufficient deposit if the funds attached do not cover the fee. A
    /// fee of zero asks for no transfer.
    pub fn init(pairs: Vec<(String, String)>, caller: &str, attached_deposit: u128) -> (outcome:
        Result<(Contract, u128), ContractError>)
        ensures
            match registration(pair_texts(pairs@), caller@, attached_deposit) {
                Ok((slots, fee)) => {
                    &&& outcome matches Ok((contract, charged))
                    &&& contract@ == (ContractModel {
                        slots: slots,
                        keys: Seq::empty(),
                        owner_id: ADMIN_ACCOUNT@,
                    })
                    &&& charged == fee
                    &&& contract.wf()
                    &&& !any_owner_allows(contract@.slots, caller@)
                },
                Err(reason) => outcome == Err::<(Contract, u128), ContractError>(reason),
            },
    {
        match Registry::initialize(&pairs, caller, attached_deposit) {
            Ok((registry, fee)) => {
                let contract = Contract {
                    pairs: registry,
                    temp_keys: CredentialSet::new(),
                    owner_id: ADMIN_ACCOUNT.to_owned(),
                };
                Ok((contract, fee))
            },
            Err(reason) => Err(reason),
        }
    }

    /// Takes up a contract stored earlier, if its parts make a well-formed
    /// state.
    pub fn restore(slots: Vec<Slot>, keys: Vec<TemporaryCredential>, owner_id: String) -> (restored:
        Option<Contract>)
        ensures
            restored is Some <==> (ContractModel {
                slots: slot_views(slots@),
                keys: credential_views(keys@),
                owner_id: owner_id@,
            }).well_formed(),
            restored matches Some(contract) ==> contract.wf() && contract@ == (ContractModel {
                slots: slot_views(slots@),
                keys: credential_views(keys@),
                owner_id: owner_id@,
            }),
    {
        match Registry::from_slots(slots) {
            Some(pairs) => match CredentialSet::from_entries(keys) {
                Some(temp_keys) => Some(Contract { pairs, temp_keys, owner_id }),
                None => None,
            },
            None => None,
        }
    }

    /// Gives up the contract's parts, for storing: its slots, the
    /// credentials it tracks, and the administering account.
    pub fn into_parts(self) -> (parts: (Vec<Slot>, Vec<TemporaryCredential>, String))
        ensures
            slot_views(parts.0@) == self@.slots,
            credential_views(parts.1@) == self@.keys,
            parts.2@ == self@.owner_id,
    {
        (self.pairs.into_slots(), self.temp_keys.into_entries(), self.owner_id)
    }

    /// The identities of all slots, in order, each empty where there is none.
    pub fn accounts_list(&self) -> (names: Vec<(String, String)>)
        ensures
            pair_texts(names@) == listing(self@.slots),
            names@.len() == self@.slots.len(),
            self.wf() ==> names@.len() == MAX_SLOTS,
    {
        self.pairs.list()
    }

    /// Starts tracking `credential` as issued at `now`, unless it is tracked
    /// already. On success the host is to grant it full access.
    pub fn issue(&mut self, credential: Vec<u8>, now: u64) -> (outcome: Result<(), ContractError>)
        requires
            old(self).wf(),
        ensures
            final(self).wf(),
            outcome is Err <==> tracks(old(self)@.keys, credential@),
            outcome matches Err(e) ==> e == ContractError::DuplicateCredential && final(self)@
                == old(self)@,
            outcome is Ok ==> final(self)@ == (ContractModel {
                keys: old(self)@.keys.push(CredentialModel { key: credential@, issued_at: now }),
                ..old(self)@
            }),
    {
        self.temp_keys.issue(credential, now)
    }

    /// Takes a call by `caller` at `now` that asks for `public_key` to be
    /// granted access. Returns whether it is granted; if so, the key is
    /// tracked from `now` and the host is to grant it full access.
    ///
    /// A key already tracked is refused outright. Otherwise the call counts as
    /// a confirmation in every slot the caller owns, granted or not.
    pub fn unlock(&mut self, public_key: Vec<u8>, caller: &str, now: u64) -> (granted: bool)
        requires
            old(self).wf(),
        ensures
            final(self).wf(),
            granted == old(self)@.unlock_grants(public_key@, caller@, now),
            final(self)@ == old(self)@.after_unlock(public_key@, caller@, now),
    {
        if self.temp_keys.contains(&public_key) {
            return false;
        }
        let result = self.pairs.confirm(caller, now);
        if result {
            let issued = self.temp_keys.issue(public_key, now);
        }
        result
    }

    /// Stops tracking the credentials that are `lifetime_secs` old or older
    /// at `now`, and returns their keys, oldest first, for the host to
    /// revoke.
    pub fn sweep_expired(&mut self, now: u64, lifetime_secs: u64) -> (removed: Vec<Vec<u8>>)
        requires
            old(self).wf(),
        ensures
            final(self).wf(),
            final(self)@ == (ContractModel {
                keys: kept(old(self)@.keys, now, lifetime_secs),
                ..old(self)@
            }),
            key_views(removed@) == keys_of(expired(old(self)@.keys, now, lifetime_secs)),
    {
        self.temp_keys.sweep_expired(now, lifetime_secs)
    }

    /// Stops tracking the credentials that are [`ACCESS_KEY_LIFETIME_SECS`]
    /// old or older at `now`, and returns their keys, oldest first, for the
    /// host to revoke.
    pub fn revoke_expired_keys(&mut self, now: u64) -> (removed: Vec<Vec<u8>>)
        requires
            old(self).wf(),
        ensures
            final(self).wf(),
            final(self)@ == old(self)@.after_revoke(now),
            key_views(removed@) == old(self)@.revoked(now),
    {
        self.sweep_expired(now, ACCESS_KEY_LIFETIME_SECS)
    }

    /// Decides a withdrawal of `amount` asked for by `caller` at `now`, while
    /// the account holds `balance`. On success the host is to transfer the
    /// amount. Any owner may withdraw at any time; nothing is recorded.
    pub fn withdraw(&self, caller: &str, now: u64, amount: u128, balance: u128) -> (outcome: Result<
        (),
        ContractError,
    >)
        ensures
            outcome == self@.withdrawal(caller@, amount, balance),
    {
        if !self.pairs.authorize_any(caller, now) {
            return Err(ContractError::Unauthorized);
        }
        if amount > balance {
            return Err(ContractError::InsufficientBalance { available: balance });
        }
        Ok(())
    }

    /// The number of credentials tracked.
    pub fn get_temp_keys_count(&self) -> (count: usize)
        ensures
            count == self@.keys.len(),
    {
        self.temp_keys.len()
    }

    /// Every slot in which `account` is an identity: the slot's index,
    /// whether the account is its first identity, and when it last confirmed.
    pub fn check_owner_status(&self, account: &str) -> (found: Vec<(usize, bool, u64)>)
        ensures
            found@ == standings(self@.slots, account@),
    {
        self.pairs.status_of(account)
    }

    /// The same answer as [`Contract::check_owner_status`], kept for callers
    /// of the earlier name.
    pub fn check_owner_status_old(&self, account: &str) -> (found: Vec<(usize, bool, u64)>)
        ensures
            found@ == standings(self@.slots, account@),
    {
        self.pairs.status_of(account)
    }

    /// Whether `caller` is the account that administers the contract.
    pub fn assert_owner(&self, caller: &str) -> (outcome: Result<(), ContractError>)
        ensures
            outcome == if caller@ == self@.owner_id {
                Ok::<(), ContractError>(())
            } else {
                Err::<(), ContractError>(ContractError::NotAllowed)
            },
    {
        if *self.owner_id.as_str() == *caller {
            Ok(())
        } else {
            Err(ContractError::NotAllowed)
        }
    }

    /// Decides a transfer of `amount` ordered by `caller`: only the
    /// administering account may order one. On success the host is to
    /// transfer the amount returned.
    pub fn transfer_near(&self, caller: &str, amount: u128) -> (outcome: Result<u128, ContractError>)
        ensures
            outcome == if caller@ == self@.owner_id {
                Ok::<u128, ContractError>(amount)
            } else {
                Err::<u128, ContractError>(ContractError::NotAllowed)
            },
    {
        match self.assert_owner(caller) {
            Ok(()) => Ok(amount),
            Err(reason) => Err(reason),
        }
    }
}

} // verus!
