//! The registry: a fixed row of slots, built once from the pairs supplied at
//! registration.

use vstd::prelude::*;
use crate::error::{ConfigurationFault, ContractError};
use crate::fee::{fee_for, registration_fee, MAX_SLOTS};
use crate::slot::{check_owner_access, get_owner, set_pair, slot_of, Slot, SlotModel};
use crate::text::{is_clean, trim, trim_leaves_clean_text, trimmed};

verus! {

/// The names of the supplied pairs, as written.
pub open spec fn pair_texts(pairs: Seq<(String, String)>) -> Seq<(Seq<char>, Seq<char>)> {
    pairs.map_values(|p: (String, String)| (p.0@, p.1@))
}

/// Whether some supplied pair names `who`, once trimmed.
pub open spec fn names_identity(pairs: Seq<(Seq<char>, Seq<char>)>, who: Seq<char>) -> bool {
    exists|i: int|
        0 <= i < pairs.len() && (trimmed((#[trigger] pairs[i]).0) == who || trimmed(pairs[i].1)
            == who)
}

/// The slot at position `i` of a registry built from `pairs`: the slot that
/// pair `i` configures, and an empty one where no pair was supplied.
pub open spec fn slot_at(pairs: Seq<(Seq<char>, Seq<char>)>, i: int) -> SlotModel {
    if 0 <= i < pairs.len() {
        slot_of(trimmed(pairs[i].0), trimmed(pairs[i].1))
    } else {
        SlotModel::Empty
    }
}

/// The slots of a registry built from `pairs`; pairs beyond the capacity are
/// not looked at.
pub open spec fn slots_from(pairs: Seq<(Seq<char>, Seq<char>)>) -> Seq<SlotModel> {
    Seq::new(MAX_SLOTS as nat, |i: int| slot_at(pairs, i))
}

/// The number of slots in use.
pub open spec fn configured(slots: Seq<SlotModel>) -> nat {
    slots.filter(|s: SlotModel| !(s is Empty)).len()
}

/// Whether some slot has `who` among its identities.
pub open spec fn any_owner_allows(slots: Seq<SlotModel>, who: Seq<char>) -> bool {
    exists|i: int| 0 <= i < slots.len() && (#[trigger] slots[i]).has_owner(who)
}

/// Whether some slot grants a confirming call by `who` at `now`.
pub open spec fn confirm_allows(slots: Seq<SlotModel>, who: Seq<char>, now: u64) -> bool {
    exists|i: int| 0 <= i < slots.len() && (#[trigger] slots[i]).confirm_grants(who, now)
}

/// The slots after a confirming call by `who` at `now`: every slot records
/// the call for itself.
pub open spec fn confirmed_all(slots: Seq<SlotModel>, who: Seq<char>, now: u64) -> Seq<
    SlotModel,
> {
    slots.map_values(|s: SlotModel| s.confirmed(who, now))
}

/// The identities of every slot, in order.
pub open spec fn listing(slots: Seq<SlotModel>) -> Seq<(Seq<char>, Seq<char>)> {
    slots.map_values(|s: SlotModel| s.names())
}

/// Every slot in which `who` is an identity, in order: the slot's index,
/// whether `who` is its first identity, and when `who` last confirmed there.
pub open spec fn standings(slots: Seq<SlotModel>, who: Seq<char>) -> Seq<(usize, bool, u64)>
    decreases slots.len(),
{
    if slots.len() == 0 {
        Seq::empty()
    } else {
        let earlier = standings(slots.drop_last(), who);
        match slots.last().standing(who) {
            Some((first, time)) => earlier.push(((slots.len() - 1) as usize, first, time)),
            None => earlier,
        }
    }
}

/// What a registration comes to: the slots and the fee owed, or the reason
/// it is refused.
pub open spec fn registration(
    pairs: Seq<(Seq<char>, Seq<char>)>,
    who: Seq<char>,
    attached_funds: u128,
) -> Result<(Seq<SlotModel>, nat), ContractError> {
    let slots = slots_from(pairs);
    let fee = fee_for(configured(slots));
    if pairs.len() == 0 {
        Err(ContractError::InvalidConfiguration { fault: ConfigurationFault::NoPairs })
    } else if names_identity(pairs, who) {
        Err(ContractError::InvalidConfiguration { fault: ConfigurationFault::CallerNamed })
    } else if configured(slots) == 0 {
        Err(ContractError::InvalidConfiguration { fault: ConfigurationFault::NoOwner })
    } else if attached_funds < fee {
        Err(ContractError::InsufficientDeposit { required: fee as u128 })
    } else {
        Ok((slots, fee))
    }
}

/// The slots of a row, as mathematical values.
pub open spec fn slot_views(slots: Seq<Slot>) -> Seq<SlotModel> {
    slots.map_values(|s: Slot| s@)
}

/// The row holds exactly [`MAX_SLOTS`] slots, each well formed.
pub open spec fn row_well_formed(slots: Seq<SlotModel>) -> bool {
    &&& slots.len() == MAX_SLOTS
    &&& forall|i: int| 0 <= i < slots.len() ==> (#[trigger] slots[i]).well_formed()
}

/// An ordered row of [`MAX_SLOTS`] slots.
#[derive(Debug)]
pub struct Registry {
    slots: Vec<Slot>,
}

impl View for Registry {
    type V = Seq<SlotModel>;

    closed spec fn view(&self) -> Seq<SlotModel> {
        slot_views(self.slots@)
    }
}

impl Registry {
    /// The registry holds exactly [`MAX_SLOTS`] slots, each well formed.
    pub open spec fn wf(&self) -> bool {
        row_well_formed(self@)
    }

    /// Takes up a row of slots stored earlier, if it is well formed.
    pub fn from_slots(slots: Vec<Slot>) -> (restored: Option<Registry>)
        ensures
            restored is Some <==> row_well_formed(slot_views(slots@)),
            restored matches Some(registry) ==> registry@ == slot_views(slots@) && registry.wf(),
    {
        if slots.len() != MAX_SLOTS {
            return None;
        }
        let mut i: usize = 0;
        while i < slots.len()
            invariant
                i <= slots.len(),
                forall|k: int| 0 <= k < i ==> (#[trigger] slot_views(slots@)[k]).well_formed(),
            decreases slots.len() - i,
        {
            if !slots[i].is_well_formed() {
                assert(!slot_views(slots@)[i as int].well_formed());
                return None;
            }
            i += 1;
        }
        Some(Registry { slots })
    }

    /// Gives up the row of slots, for storing.
    pub fn into_slots(self) -> (slots: Vec<Slot>)
        ensures
            slot_views(slots@) == self@,
    {
        self.slots
    }

    /// Whether some supplied pair names `caller`.
    fn names_caller(pairs: &Vec<(String, String)>, caller: &str) -> (named: bool)
        ensures
            named == names_identity(pair_texts(pairs@), caller@),
    {
        let mut i: usize = 0;
        while i < pairs.len()
            invariant
                i <= pairs.len(),
                forall|k: int|
                    0 <= k < i ==> trimmed((#[trigger] pair_texts(pairs@)[k]).0) != caller@
                        && trimmed(pair_texts(pairs@)[k].1) != caller@,
            decreases pairs.len() - i,
        {
            let pair = &pairs[i];
            assert(pair_texts(pairs@)[i as int] == (pair.0@, pair.1@));
            if *trim(pair.0.as_str()) == *caller || *trim(pair.1.as_str()) == *caller {
                return true;
            }
            i += 1;
        }
        false
    }

    /// Builds the registry that `pairs` configure, for a registration made
    /// by `caller` with `attached_deposit` attached, and returns it with the
    /// fee owed.
    ///
    /// The registration is refused if no pair is supplied, if a pair names
    /// the caller, if no pair configures a slot, or if the deposit does not
    /// cover the fee; the first of these that holds is the reason given.
    pub fn initialize(pairs: &Vec<(String, String)>, caller: &str, attached_deposit: u128) -> (outcome:
        Result<(Registry, u128), ContractError>)
        ensures
            match registration(pair_texts(pairs@), caller@, attached_deposit) {
                Ok((slots, fee)) => outcome matches Ok((registry, charged)) && registry@ == slots
                    && charged == fee && registry.wf() && !any_owner_allows(registry@, caller@),
                Err(reason) => outcome == Err::<(Registry, u128), ContractError>(reason),
            },
    {
        let ghost texts = pair_texts(pairs@);
        if pairs.len() == 0 {
            return Err(ContractError::InvalidConfiguration { fault: ConfigurationFault::NoPairs });
        }
        if Self::names_caller(pairs, caller) {
            return Err(
                ContractError::InvalidConfiguration { fault: ConfigurationFault::CallerNamed },
            );
        }
        let mut slots: Vec<Slot> = Vec::new();
        let mut valid_pairs: usize = 0;
        let mut i: usize = 0;
        while i < MAX_SLOTS
            invariant
                i <= MAX_SLOTS,
                texts == pair_texts(pairs@),
                slots@.len() == i,
                forall|k: int| 0 <= k < i ==> (#[trigger] slots@[k])@ == slot_at(texts, k),
                valid_pairs == configured(slot_views(slots@)),
                valid_pairs <= i,
            decreases MAX_SLOTS - i,
        {
            let ghost built = slot_views(slots@);
            let slot = if i < pairs.len() {
                set_pair(Some(&pairs[i]))
            } else {
                set_pair(None)
            };
            let in_use = !matches!(slot, Slot::Empty);
            proof {
                let next = built.push(slot@);
                assert(next.drop_last() =~= built);
                lemma_configured_step(next);
            }
            slots.push(slot);
            assert(slot_views(slots@) =~= built.push(slot@));
            if in_use {
                valid_pairs += 1;
            }
            i += 1;
        }
        let registry = Registry { slots };
        assert(registry@ =~= slots_from(texts));
        if valid_pairs == 0 {
            return Err(ContractError::InvalidConfiguration { fault: ConfigurationFault::NoOwner });
        }
        let fee = registration_fee(valid_pairs);
        if attached_deposit < fee {
            return Err(ContractError::InsufficientDeposit { required: fee });
        }
        proof {
            registered_slots_exclude_initializer(texts, caller@, attached_deposit);
        }
        Ok((registry, fee))
    }

    /// Whether `caller` owns some slot. Owning a slot is enough at any time:
    /// `now` has no part in the answer, and nothing is recorded.
    pub fn authorize_any(&self, caller: &str, now: u64) -> (allowed: bool)
        ensures
            allowed == any_owner_allows(self@, caller@),
    {
        let mut i: usize = 0;
        while i < self.slots.len()
            invariant
                i <= self.slots.len(),
                forall|k: int| 0 <= k < i ==> !(#[trigger] self@[k]).has_owner(caller@),
            decreases self.slots.len() - i,
        {
            let (access, _) = check_owner_access(&self.slots[i], caller, now, true);
            if access {
                assert(self@[i as int].has_owner(caller@));
                return true;
            }
            i += 1;
        }
        false
    }

    /// Takes a confirming call by `caller` at `now` to every slot, and says
    /// whether any of them grants access. Each slot records the call for
    /// itself, whatever the others decide.
    pub fn confirm(&mut self, caller: &str, now: u64) -> (granted: bool)
        ensures
            granted == confirm_allows(old(self)@, caller@, now),
            final(self)@ == confirmed_all(old(self)@, caller@, now),
            old(self).wf() ==> final(self).wf(),
    {
        let ghost before = self@;
        let mut result = false;
        let mut i: usize = 0;
        while i < self.slots.len()
            invariant
                i <= self.slots.len(),
                self@.len() == before.len(),
                forall|k: int| 0 <= k < i ==> (#[trigger] self@[k]) == before[k].confirmed(caller@, now),
                forall|k: int| i <= k < before.len() ==> (#[trigger] self@[k]) == before[k],
                result <==> exists|k: int|
                    0 <= k < i && (#[trigger] before[k]).confirm_grants(caller@, now),
            decreases self.slots.len() - i,
        {
            let ghost row = self@;
            assert(row[i as int] == before[i as int]);
            let access = get_owner(&mut self.slots[i], caller, now, false);
            assert(self@ =~= row.update(i as int, before[i as int].confirmed(caller@, now)));
            result = access || result;
            i += 1;
        }
        result
    }

    /// The identities of all slots, in order.
    pub fn list(&self) -> (names: Vec<(String, String)>)
        ensures
            pair_texts(names@) == listing(self@),
            names@.len() == self@.len(),
    {
        let mut names: Vec<(String, String)> = Vec::new();
        let mut i: usize = 0;
        while i < self.slots.len()
            invariant
                i <= self.slots.len(),
                names@.len() == i,
                forall|k: int|
                    0 <= k < i ==> ((#[trigger] names@[k]).0@, names@[k].1@) == self@[k].names(),
            decreases self.slots.len() - i,
        {
            names.push(self.slots[i].names());
            i += 1;
        }
        names
    }

    /// Every slot in which `account` is an identity.
    pub fn status_of(&self, account: &str) -> (found: Vec<(usize, bool, u64)>)
        ensures
            found@ == standings(self@, account@),
    {
        let mut found: Vec<(usize, bool, u64)> = Vec::new();
        let mut i: usize = 0;
        while i < self.slots.len()
            invariant
                i <= self.slots.len(),
                found@ == standings(self@.take(i as int), account@),
            decreases self.slots.len() - i,
        {
            proof {
                let next = self@.take(i as int + 1);
                assert(next.drop_last() =~= self@.take(i as int));
            }
            match self.slots[i].standing(account) {
                Some((first, time)) => {
                    found.push((i, first, time));
                },
                None => {},
            }
            i += 1;
        }
        assert(self@.take(i as int) =~= self@);
        found
    }
}

/// Whether some supplied pair holds `who` as written.
pub open spec fn lists_identity(pairs: Seq<(Seq<char>, Seq<char>)>, who: Seq<char>) -> bool {
    exists|i: int| 0 <= i < pairs.len() && ((#[trigger] pairs[i]).0 == who || pairs[i].1 == who)
}

/// Nobody registers themselves: a registration whose pairs hold the caller's
/// own identity is refused as an invalid configuration, whatever else it
/// holds and whatever is attached. The identity is one that neither begins
/// nor ends with white space, as every account name is.
pub proof fn initializer_is_refused(
    pairs: Seq<(Seq<char>, Seq<char>)>,
    who: Seq<char>,
    attached_funds: u128,
)
    requires
        lists_identity(pairs, who),
        is_clean(who),
    ensures
        registration(pairs, who, attached_funds) == Err::<(Seq<SlotModel>, nat), ContractError>(
            ContractError::InvalidConfiguration { fault: ConfigurationFault::CallerNamed },
        ),
{
    trim_leaves_clean_text(who);
}

/// A registry never holds the identity that registered it.
pub proof fn registered_slots_exclude_initializer(
    pairs: Seq<(Seq<char>, Seq<char>)>,
    who: Seq<char>,
    attached_funds: u128,
)
    ensures
        registration(pairs, who, attached_funds) matches Ok((slots, _)) ==> !any_owner_allows(
            slots,
            who,
        ),
{
}

/// What an accepted registration holds: a well-formed row with at least one
/// slot in use, no owner of which has confirmed yet, and a fee that the
/// funds attached cover.
pub proof fn registration_is_sound(
    pairs: Seq<(Seq<char>, Seq<char>)>,
    who: Seq<char>,
    attached_funds: u128,
)
    ensures
        registration(pairs, who, attached_funds) matches Ok((slots, fee)) ==> {
            &&& row_well_formed(slots)
            &&& 1 <= configured(slots) <= MAX_SLOTS
            &&& fee == fee_for(configured(slots))
            &&& fee <= attached_funds
            &&& forall|i: int, any: Seq<char>|
                0 <= i < slots.len() ==> match #[trigger] slots[i].standing(any) {
                    Some((_, time)) => time == 0,
                    None => true,
                }
        },
{
    let slots = slots_from(pairs);
    slots.lemma_filter_len(|s: SlotModel| !(s is Empty));
}

/// Confirmations change times only: whoever owned a slot before still owns
/// one, and nobody else does.
pub proof fn confirmations_keep_owners(
    slots: Seq<SlotModel>,
    who: Seq<char>,
    caller: Seq<char>,
    now: u64,
)
    ensures
        any_owner_allows(confirmed_all(slots, caller, now), who) == any_owner_allows(slots, who),
        listing(confirmed_all(slots, caller, now)) == listing(slots),
{
    let after = confirmed_all(slots, caller, now);
    if any_owner_allows(slots, who) {
        let i = choose|i: int| 0 <= i < slots.len() && (#[trigger] slots[i]).has_owner(who);
        assert(after[i].has_owner(who));
    }
}

/// What [`standings`] lists: every entry gives the place of `who` in the
/// slot it names, the entries name slots in ascending order, and every slot
/// that `who` owns is named.
pub proof fn standings_list_owned_slots(slots: Seq<SlotModel>, who: Seq<char>)
    requires
        slots.len() <= usize::MAX,
    ensures
        forall|j: int|
            0 <= j < standings(slots, who).len() ==> {
                let entry = #[trigger] standings(slots, who)[j];
                &&& entry.0 < slots.len()
                &&& slots[entry.0 as int].standing(who) == Some((entry.1, entry.2))
            },
        forall|j: int, k: int|
            0 <= j < k < standings(slots, who).len() ==> (#[trigger] standings(slots, who)[j]).0 < (
            #[trigger] standings(slots, who)[k]).0,
        forall|i: int|
            0 <= i < slots.len() && (#[trigger] slots[i]).has_owner(who) ==> exists|j: int|
                0 <= j < standings(slots, who).len() && (#[trigger] standings(slots, who)[j]).0 == i,
    decreases slots.len(),
{
    if slots.len() > 0 {
        let rest = slots.drop_last();
        let earlier = standings(rest, who);
        let found = standings(slots, who);
        standings_list_owned_slots(rest, who);
        assert forall|i: int| 0 <= i < slots.len() && (#[trigger] slots[i]).has_owner(
            who,
        ) implies exists|j: int|
            0 <= j < found.len() && (#[trigger] found[j]).0 == i by {
            if i < rest.len() {
                assert(rest[i].has_owner(who));
                let j = choose|j: int| 0 <= j < earlier.len() && (#[trigger] earlier[j]).0 == i;
                assert(found[j] == earlier[j]);
            } else {
                assert(found[found.len() - 1].0 == i);
            }
        }
    }
}

/// How the count of slots in use treats the last slot of a row.
proof fn lemma_configured_step(slots: Seq<SlotModel>)
    requires
        slots.len() > 0,
    ensures
        configured(slots) == configured(slots.drop_last()) + if slots.last() is Empty {
            0nat
        } else {
            1nat
        },
{
    reveal(Seq::filter);
}

} // verus!
