//! Authorization slots and the two access policies evaluated on them.

use vstd::prelude::*;
use crate::text::{trim, trimmed};

verus! {

/// How long, in seconds, one owner's confirmation stays usable by the other.
pub const CONFIRMATION_WINDOW_SECS: u64 = 300;

/// A controlling identity and the time it last confirmed; a time of zero
/// says that it never has.
#[derive(Debug, PartialEq, Eq)]
pub struct Owner {
    pub owner: String,
    pub time: u64,
}

/// An [`Owner`] as a mathematical value.
pub struct OwnerModel {
    pub owner: Seq<char>,
    pub time: u64,
}

impl View for Owner {
    type V = OwnerModel;

    open spec fn view(&self) -> OwnerModel {
        OwnerModel { owner: self.owner@, time: self.time }
    }
}

/// One authorization entry of the registry.
#[derive(Debug, PartialEq, Eq)]
pub enum Slot {
    /// Not in use.
    Empty,
    /// One controlling identity, which acts alone.
    Single(Owner),
    /// Two controlling identities, which must act within the confirmation
    /// window of each other.
    Dual(Owner, Owner),
}

/// A [`Slot`] as a mathematical value.
pub enum SlotModel {
    Empty,
    Single(OwnerModel),
    Dual(OwnerModel, OwnerModel),
}

impl View for Slot {
    type V = SlotModel;

    open spec fn view(&self) -> SlotModel {
        match self {
            Slot::Empty => SlotModel::Empty,
            Slot::Single(a) => SlotModel::Single(a@),
            Slot::Dual(a, b) => SlotModel::Dual(a@, b@),
        }
    }
}

/// The seconds from `since` to `now`; none if `since` lies ahead of `now`.
pub open spec fn elapsed(now: u64, since: u64) -> nat {
    if now >= since {
        (now - since) as nat
    } else {
        0
    }
}

/// Whether a confirmation recorded at `last` is still usable at `now`.
///
/// A recorded time of zero stands for an owner that has never confirmed: its
/// window is closed at every time, however early. Otherwise the window is
/// open while less than [`CONFIRMATION_WINDOW_SECS`] have elapsed.
pub open spec fn window_open(now: u64, last: u64) -> bool {
    last != 0 && elapsed(now, last) < CONFIRMATION_WINDOW_SECS
}

/// The identity `who`, never yet confirmed.
pub open spec fn fresh_owner(who: Seq<char>) -> OwnerModel {
    OwnerModel { owner: who, time: 0 }
}

/// The slot that a pair of identities, already trimmed, configures.
pub open spec fn slot_of(first: Seq<char>, second: Seq<char>) -> SlotModel {
    if first.len() == 0 {
        SlotModel::Empty
    } else if second.len() == 0 || second == first {
        SlotModel::Single(fresh_owner(first))
    } else {
        SlotModel::Dual(fresh_owner(first), fresh_owner(second))
    }
}

impl Clone for Owner {
    fn clone(&self) -> (same: Owner)
        ensures
            same@ == self@,
    {
        Owner { owner: self.owner.clone(), time: self.time }
    }
}

impl Clone for Slot {
    fn clone(&self) -> (same: Slot)
        ensures
            same@ == self@,
    {
        match self {
            Slot::Empty => Slot::Empty,
            Slot::Single(acc1) => Slot::Single(acc1.clone()),
            Slot::Dual(acc1, acc2) => Slot::Dual(acc1.clone(), acc2.clone()),
        }
    }
}

impl SlotModel {
    /// The two identities of a dual slot differ.
    pub open spec fn well_formed(self) -> bool {
        match self {
            SlotModel::Dual(a, b) => a.owner != b.owner,
            _ => true,
        }
    }

    /// Whether `who` is one of the slot's identities.
    pub open spec fn has_owner(self, who: Seq<char>) -> bool {
        match self {
            SlotModel::Empty => false,
            SlotModel::Single(a) => a.owner == who,
            SlotModel::Dual(a, b) => a.owner == who || b.owner == who,
        }
    }

    /// Whether a confirming call by `who` at `now` is granted access.
    ///
    /// The sole owner of a single slot always is. An owner of a dual slot is
    /// only while the other owner has confirmed and that confirmation is
    /// within the window.
    pub open spec fn confirm_grants(self, who: Seq<char>, now: u64) -> bool {
        match self {
            SlotModel::Empty => false,
            SlotModel::Single(a) => a.owner == who,
            SlotModel::Dual(a, b) => if a.owner == who {
                window_open(now, b.time)
            } else if b.owner == who {
                window_open(now, a.time)
            } else {
                false
            },
        }
    }

    /// The slot after a confirming call by `who` at `now`: the caller's own
    /// time is set to `now`, whether or not access was granted, and a call by
    /// a stranger changes nothing.
    pub open spec fn confirmed(self, who: Seq<char>, now: u64) -> SlotModel {
        match self {
            SlotModel::Empty => self,
            SlotModel::Single(a) => if a.owner == who {
                SlotModel::Single(OwnerModel { owner: a.owner, time: now })
            } else {
                self
            },
            SlotModel::Dual(a, b) => if a.owner == who {
                SlotModel::Dual(OwnerModel { owner: a.owner, time: now }, b)
            } else if b.owner == who {
                SlotModel::Dual(a, OwnerModel { owner: b.owner, time: now })
            } else {
                self
            },
        }
    }

    /// The decision of either policy: under `any_owner` every owner is
    /// granted access at any time; otherwise the call is a confirmation.
    pub open spec fn grants(self, who: Seq<char>, now: u64, any_owner: bool) -> bool {
        if any_owner {
            self.has_owner(who)
        } else {
            self.confirm_grants(who, now)
        }
    }

    /// The slot after a call under either policy: only a confirmation leaves
    /// a trace.
    pub open spec fn after_call(self, who: Seq<char>, now: u64, any_owner: bool) -> SlotModel {
        if any_owner {
            self
        } else {
            self.confirmed(who, now)
        }
    }

    /// The slot's identities, each empty where there is none.
    pub open spec fn names(self) -> (Seq<char>, Seq<char>) {
        match self {
            SlotModel::Empty => (Seq::empty(), Seq::empty()),
            SlotModel::Single(a) => (a.owner, Seq::empty()),
            SlotModel::Dual(a, b) => (a.owner, b.owner),
        }
    }

    /// Where `who` stands in the slot: whether it is the first identity, and
    /// when it last confirmed.
    pub open spec fn standing(self, who: Seq<char>) -> Option<(bool, u64)> {
        match self {
            SlotModel::Empty => None,
            SlotModel::Single(a) => if a.owner == who {
                Some((true, a.time))
            } else {
                None
            },
            SlotModel::Dual(a, b) => if a.owner == who {
                Some((true, a.time))
            } else if b.owner == who {
                Some((false, b.time))
            } else {
                None
            },
        }
    }
}

impl Owner {
    /// An owner that has not confirmed yet.
    pub fn new(owner: String) -> (fresh: Owner)
        ensures
            fresh@ == fresh_owner(owner@),
    {
        Owner { owner, time: 0 }
    }

    /// Whether this owner is `who`.
    pub fn is_named(&self, who: &str) -> (same: bool)
        ensures
            same == (self@.owner == who@),
    {
        *self.owner.as_str() == *who
    }

    /// A copy of this owner with its time replaced by `now`.
    fn confirmed_at(&self, now: u64) -> (next: Owner)
        ensures
            next@ == (OwnerModel { owner: self@.owner, time: now }),
    {
        Owner { owner: self.owner.clone(), time: now }
    }
}

impl Slot {
    /// Whether the two identities of a dual slot differ.
    pub fn is_well_formed(&self) -> (sound: bool)
        ensures
            sound == self@.well_formed(),
    {
        match self {
            Slot::Dual(acc1, acc2) => !acc1.is_named(acc2.owner.as_str()),
            _ => true,
        }
    }

    /// The slot's identities, each empty where there is none.
    pub fn names(&self) -> (pair: (String, String))
        ensures
            (pair.0@, pair.1@) == self@.names(),
    {
        match self {
            Slot::Empty => (String::new(), String::new()),
            Slot::Single(acc1) => (acc1.owner.clone(), String::new()),
            Slot::Dual(acc1, acc2) => (acc1.owner.clone(), acc2.owner.clone()),
        }
    }

    /// Where `account` stands in the slot, if it is one of its identities:
    /// whether it is the first of them, and when it last confirmed.
    pub fn standing(&self, account: &str) -> (place: Option<(bool, u64)>)
        ensures
            place == self@.standing(account@),
    {
        match self {
            Slot::Empty => None,
            Slot::Single(acc1) => {
                if acc1.is_named(account) {
                    Some((true, acc1.time))
                } else {
                    None
                }
            },
            Slot::Dual(acc1, acc2) => {
                if acc1.is_named(account) {
                    Some((true, acc1.time))
                } else if acc2.is_named(account) {
                    Some((false, acc2.time))
                } else {
                    None
                }
            },
        }
    }
}

/// A single slot grants its sole owner under either policy and at any time,
/// grants nobody else, and stays the slot of that owner whatever calls it
/// takes.
pub proof fn single_slot_passes_its_owner(
    owner: OwnerModel,
    who: Seq<char>,
    now: u64,
    any_owner: bool,
)
    ensures
        SlotModel::Single(owner).grants(who, now, any_owner) <==> who == owner.owner,
        SlotModel::Single(owner).after_call(who, now, any_owner) matches SlotModel::Single(next)
            && next.owner == owner.owner,
{
}

/// The window of a dual slot. When `a` confirms at `t0` and `b` then calls at
/// `t1`, `b` is granted exactly if `t1 - t0` is less than the window. A
/// confirmation is one recorded at a time above zero, zero being the mark of
/// an owner that never confirmed.
pub proof fn dual_slot_window(a: OwnerModel, b: OwnerModel, t0: u64, t1: u64)
    requires
        a.owner != b.owner,
        t0 > 0,
    ensures
        SlotModel::Dual(a, b).confirmed(a.owner, t0).confirm_grants(b.owner, t1) <==> t1 - t0
            < CONFIRMATION_WINDOW_SECS,
{
}

/// After `a` confirmed at `t0` and `b` at `t1`, a further call by `a` at `t2`
/// is granted exactly if `t2 - t1` is less than the window: without a fresh
/// confirmation by `b` within the window, `a` is refused. A call by `a` never
/// changes what `a` itself is granted.
pub proof fn dual_slot_needs_fresh_confirmation(
    a: OwnerModel,
    b: OwnerModel,
    t0: u64,
    t1: u64,
    t2: u64,
)
    requires
        a.owner != b.owner,
        t1 > 0,
    ensures
        ({
            let first = SlotModel::Dual(a, b).confirmed(a.owner, t0);
            let second = first.confirmed(b.owner, t1);
            &&& second.confirm_grants(a.owner, t2) <==> t2 - t1 < CONFIRMATION_WINDOW_SECS
            &&& first.confirm_grants(a.owner, t2) == SlotModel::Dual(a, b).confirm_grants(
                a.owner,
                t2,
            )
        }),
{
}

/// An owner of a dual slot is refused at every time while the other owner
/// has never confirmed, and its own call is recorded all the same.
pub proof fn never_confirmed_closes_the_window(a: OwnerModel, b: OwnerModel, now: u64)
    requires
        a.owner != b.owner,
    ensures
        b.time == 0 ==> !SlotModel::Dual(a, b).confirm_grants(a.owner, now),
        a.time == 0 ==> !SlotModel::Dual(a, b).confirm_grants(b.owner, now),
        SlotModel::Dual(a, b).confirmed(a.owner, now) == SlotModel::Dual(
            OwnerModel { owner: a.owner, time: now },
            b,
        ),
        SlotModel::Dual(a, b).confirmed(b.owner, now) == SlotModel::Dual(
            a,
            OwnerModel { owner: b.owner, time: now },
        ),
{
}

/// Under the any-owner policy the time of a call has no part in the
/// decision: an owner is granted at any two times, a call leaves no trace,
/// and confirmations in between, by whomever, do not change who owns the
/// slot.
pub proof fn any_owner_ignores_time(
    slot: SlotModel,
    who: Seq<char>,
    t1: u64,
    t2: u64,
    other: Seq<char>,
    between: u64,
)
    ensures
        slot.grants(who, t1, true) == slot.grants(who, t2, true),
        slot.has_owner(who) ==> slot.grants(who, t1, true) && slot.grants(who, t2, true),
        slot.after_call(who, t1, true) == slot,
        slot.confirmed(other, between).grants(who, t2, true) == slot.grants(who, t1, true),
{
}

/// A confirmation changes times only: the slot keeps its shape and its
/// identities.
pub proof fn confirmation_keeps_owners(slot: SlotModel, who: Seq<char>, now: u64)
    ensures
        slot.confirmed(who, now).names() == slot.names(),
        slot.confirmed(who, now) is Empty <==> slot is Empty,
        slot.confirmed(who, now) is Single <==> slot is Single,
        slot.well_formed() ==> slot.confirmed(who, now).well_formed(),
        forall|any: Seq<char>| slot.confirmed(who, now).has_owner(any) == slot.has_owner(any),
{
}

/// Whether a confirmation recorded at `last` is still usable at `now`.
fn within_window(now: u64, last: u64) -> (open: bool)
    ensures
        open == window_open(now, last),
{
    last != 0 && now.saturating_sub(last) < CONFIRMATION_WINDOW_SECS
}

/// Builds the slot that one supplied pair configures: both names are
/// trimmed, an empty first name leaves the slot empty, and an empty or
/// repeated second name makes it a single slot.
pub fn set_pair(owner_pair: Option<&(String, String)>) -> (slot: Slot)
    ensures
        slot@ == match owner_pair {
            Some(pair) => slot_of(trimmed(pair.0@), trimmed(pair.1@)),
            None => SlotModel::Empty,
        },
        slot@.well_formed(),
{
    match owner_pair {
        Some(pair) => {
            let first_account = trim(pair.0.as_str());
            if first_account.is_empty() {
                return Slot::Empty;
            }
            let second_account = trim(pair.1.as_str());
            if second_account.is_empty() || *second_account == *first_account {
                Slot::Single(Owner::new(first_account.to_owned()))
            } else {
                Slot::Dual(
                    Owner::new(first_account.to_owned()),
                    Owner::new(second_account.to_owned()),
                )
            }
        },
        None => Slot::Empty,
    }
}

/// Evaluates one slot for a call by `caller` at `now`, leaving the slot
/// untouched: returns the decision and, where the call is a confirmation by
/// one of the slot's owners, the slot as it must be stored afterwards.
pub fn check_owner_access(slot: &Slot, caller: &str, now: u64, any_owner: bool) -> (verdict: (
    bool,
    Option<Slot>,
))
    ensures
        verdict.0 == slot@.grants(caller@, now, any_owner),
        verdict.1 is Some <==> !any_owner && slot@.has_owner(caller@),
        verdict.1 matches Some(next) ==> next@ == slot@.confirmed(caller@, now),
{
    match slot {
        Slot::Empty => (false, None),
        Slot::Single(acc1) => {
            if acc1.is_named(caller) {
                if any_owner {
                    (true, None)
                } else {
                    (true, Some(Slot::Single(acc1.confirmed_at(now))))
                }
            } else {
                (false, None)
            }
        },
        Slot::Dual(acc1, acc2) => {
            let is_first_owner = acc1.is_named(caller);
            let is_second_owner = acc2.is_named(caller);
            if any_owner {
                (is_first_owner || is_second_owner, None)
            } else if is_first_owner {
                let time_valid = within_window(now, acc2.time);
                (time_valid, Some(Slot::Dual(acc1.confirmed_at(now), acc2.clone())))
            } else if is_second_owner {
                let time_valid = within_window(now, acc1.time);
                (time_valid, Some(Slot::Dual(acc1.clone(), acc2.confirmed_at(now))))
            } else {
                (false, None)
            }
        },
    }
}

/// Evaluates one slot for a call by `caller` at `now` and records a
/// confirmation in place.
pub fn get_owner(slot: &mut Slot, caller: &str, now: u64, any_owner: bool) -> (access: bool)
    ensures
        access == old(slot)@.grants(caller@, now, any_owner),
        final(slot)@ == old(slot)@.after_call(caller@, now, any_owner),
{
    match slot {
        Slot::Empty => false,
        Slot::Single(acc1) => {
            let is_first = acc1.is_named(caller);
            if is_first && !any_owner {
                acc1.time = now;
            }
            is_first
        },
        Slot::Dual(acc1, acc2) => {
            let is_first = acc1.is_named(caller);
            let is_second = acc2.is_named(caller);
            if any_owner {
                is_first || is_second
            } else if is_first {
                acc1.time = now;
                within_window(now, acc2.time)
            } else if is_second {
                acc2.time = now;
                within_window(now, acc1.time)
            } else {
                false
            }
        },
    }
}

} // verus!
