//! The temporary credentials in force: issuing, tracking and expiry.

use vstd::prelude::*;
use crate::error::ContractError;
use crate::slot::elapsed;

verus! {

/// A credential and the time it was issued.
#[derive(Debug, PartialEq, Eq)]
pub struct TemporaryCredential {
    pub key: Vec<u8>,
    pub issued_at: u64,
}

/// A [`TemporaryCredential`] as a mathematical value.
pub struct CredentialModel {
    pub key: Seq<u8>,
    pub issued_at: u64,
}

impl View for TemporaryCredential {
    type V = CredentialModel;

    open spec fn view(&self) -> CredentialModel {
        CredentialModel { key: self.key@, issued_at: self.issued_at }
    }
}

impl Clone for TemporaryCredential {
    fn clone(&self) -> (same: TemporaryCredential)
        ensures
            same@ == self@,
    {
        TemporaryCredential { key: self.key.clone(), issued_at: self.issued_at }
    }
}

/// Whether `key` is among `entries`.
pub open spec fn tracks(entries: Seq<CredentialModel>, key: Seq<u8>) -> bool {
    exists|i: int| 0 <= i < entries.len() && (#[trigger] entries[i]).key == key
}

/// No key occurs twice among `entries`.
pub open spec fn distinct_keys(entries: Seq<CredentialModel>) -> bool {
    forall|i: int, j: int|
        0 <= i < j < entries.len() ==> (#[trigger] entries[i]).key != (#[trigger] entries[j]).key
}

/// Whether a credential issued at `issued_at` is younger than `lifetime_secs`
/// at `now`.
pub open spec fn is_young(issued_at: u64, now: u64, lifetime_secs: u64) -> bool {
    elapsed(now, issued_at) < lifetime_secs
}

/// The entries still young at `now`, in their order.
pub open spec fn kept(entries: Seq<CredentialModel>, now: u64, lifetime_secs: u64) -> Seq<
    CredentialModel,
> {
    entries.filter(|e: CredentialModel| is_young(e.issued_at, now, lifetime_secs))
}

/// The entries no longer young at `now`, in their order.
pub open spec fn expired(entries: Seq<CredentialModel>, now: u64, lifetime_secs: u64) -> Seq<
    CredentialModel,
> {
    entries.filter(|e: CredentialModel| !is_young(e.issued_at, now, lifetime_secs))
}

/// The keys of `entries`, in their order.
pub open spec fn keys_of(entries: Seq<CredentialModel>) -> Seq<Seq<u8>> {
    entries.map_values(|e: CredentialModel| e.key)
}

/// The views of a list of keys.
pub open spec fn key_views(keys: Seq<Vec<u8>>) -> Seq<Seq<u8>> {
    keys.map_values(|k: Vec<u8>| k@)
}

/// A list of credentials, as mathematical values.
pub open spec fn credential_views(entries: Seq<TemporaryCredential>) -> Seq<CredentialModel> {
    entries.map_values(|e: TemporaryCredential| e@)
}

/// The credentials currently in force, oldest first.
#[derive(Debug)]
pub struct CredentialSet {
    entries: Vec<TemporaryCredential>,
}

impl View for CredentialSet {
    type V = Seq<CredentialModel>;

    closed spec fn view(&self) -> Seq<CredentialModel> {
        credential_views(self.entries@)
    }
}

/// Whether two keys hold the same bytes.
fn same_key(a: &Vec<u8>, b: &Vec<u8>) -> (same: bool)
    ensures
        same == (a@ == b@),
{
    if a.len() != b.len() {
        return false;
    }
    let mut i: usize = 0;
    while i < a.len()
        invariant
            a.len() == b.len(),
            i <= a.len(),
            forall|k: int| 0 <= k < i ==> a@[k] == b@[k],
        decreases a.len() - i,
    {
        if a[i] != b[i] {
            return false;
        }
        i += 1;
    }
    assert(a@ =~= b@);
    true
}

impl CredentialSet {
    /// No credential is tracked twice.
    pub open spec fn wf(&self) -> bool {
        distinct_keys(self@)
    }

    /// A set that tracks nothing.
    pub fn new() -> (set: CredentialSet)
        ensures
            set@ == Seq::<CredentialModel>::empty(),
            set.wf(),
    {
        let set = CredentialSet { entries: Vec::new() };
        set
    }

    /// Takes up a list of credentials stored earlier, if no key occurs in it
    /// twice.
    pub fn from_entries(entries: Vec<TemporaryCredential>) -> (restored: Option<CredentialSet>)
        ensures
            restored is Some <==> distinct_keys(credential_views(entries@)),
            restored matches Some(set) ==> set@ == credential_views(entries@) && set.wf(),
    {
        let ghost models = credential_views(entries@);
        let mut j: usize = 0;
        while j < entries.len()
            invariant
                j <= entries.len(),
                models == credential_views(entries@),
                forall|a: int, b: int|
                    0 <= a < b < j ==> (#[trigger] models[a]).key != (#[trigger] models[b]).key,
            decreases entries.len() - j,
        {
            let mut i: usize = 0;
            while i < j
                invariant
                    i <= j < entries.len(),
                    models == credential_views(entries@),
                    forall|a: int| 0 <= a < i ==> (#[trigger] models[a]).key != models[j as int].key,
                decreases j - i,
            {
                if same_key(&entries[i].key, &entries[j].key) {
                    assert(models[i as int].key == models[j as int].key);
                    return None;
                }
                i += 1;
            }
            j += 1;
        }
        Some(CredentialSet { entries })
    }

    /// Gives up the list of credentials, for storing.
    pub fn into_entries(self) -> (entries: Vec<TemporaryCredential>)
        ensures
            credential_views(entries@) == self@,
    {
        self.entries
    }

    /// The number of credentials tracked.
    pub fn len(&self) -> (count: usize)
        ensures
            count == self@.len(),
    {
        self.entries.len()
    }

    /// Whether `key` is tracked.
    pub fn contains(&self, key: &Vec<u8>) -> (found: bool)
        ensures
            found == tracks(self@, key@),
    {
        let mut i: usize = 0;
        while i < self.entries.len()
            invariant
                i <= self.entries.len(),
                forall|k: int| 0 <= k < i ==> (#[trigger] self@[k]).key != key@,
            decreases self.entries.len() - i,
        {
            if same_key(&self.entries[i].key, key) {
                assert(self@[i as int].key == key@);
                return true;
            }
            i += 1;
        }
        false
    }

    /// Starts tracking `credential` as issued at `now`, unless it is tracked
    /// already.
    pub fn issue(&mut self, credential: Vec<u8>, now: u64) -> (outcome: Result<(), ContractError>)
        requires
            old(self).wf(),
        ensures
            final(self).wf(),
            outcome is Err <==> tracks(old(self)@, credential@),
            outcome matches Err(e) ==> e == ContractError::DuplicateCredential && final(self)@
                == old(self)@,
            outcome is Ok ==> final(self)@ == old(self)@.push(
                CredentialModel { key: credential@, issued_at: now },
            ),
    {
        if self.contains(&credential) {
            return Err(ContractError::DuplicateCredential);
        }
        let ghost before = self@;
        let ghost added = CredentialModel { key: credential@, issued_at: now };
        self.entries.push(TemporaryCredential { key: credential, issued_at: now });
        assert(self@ =~= before.push(added));
        Ok(())
    }

    /// Stops tracking every credential that is not younger than
    /// `lifetime_secs` at `now`, and returns the keys dropped, oldest first.
    pub fn sweep_expired(&mut self, now: u64, lifetime_secs: u64) -> (removed: Vec<Vec<u8>>)
        requires
            old(self).wf(),
        ensures
            final(self).wf(),
            final(self)@ == kept(old(self)@, now, lifetime_secs),
            key_views(removed@) == keys_of(expired(old(self)@, now, lifetime_secs)),
            removed@.len() + final(self)@.len() == old(self)@.len(),
    {
        let ghost before = self@;
        let mut valid_keys: Vec<TemporaryCredential> = Vec::new();
        let mut expired_keys: Vec<Vec<u8>> = Vec::new();
        let mut i: usize = 0;
        proof {
            lemma_sweep_nothing(now, lifetime_secs);
        }
        while i < self.entries.len()
            invariant
                i <= self.entries.len(),
                self@ == before,
                credential_views(valid_keys@) == kept(
                    before.take(i as int),
                    now,
                    lifetime_secs,
                ),
                key_views(expired_keys@) == keys_of(
                    expired(before.take(i as int), now, lifetime_secs),
                ),
            decreases self.entries.len() - i,
        {
            let entry = &self.entries[i];
            let key = entry.key.clone();
            let ghost seen = before.take(i as int);
            proof {
                let next = before.take(i as int + 1);
                assert(next.drop_last() =~= seen);
                lemma_sweep_step(next, now, lifetime_secs);
            }
            if now.saturating_sub(entry.issued_at) < lifetime_secs {
                valid_keys.push(TemporaryCredential { key, issued_at: entry.issued_at });
                assert(credential_views(valid_keys@) =~= kept(
                    seen,
                    now,
                    lifetime_secs,
                ).push(entry@));
            } else {
                let ghost dropped = expired_keys@;
                expired_keys.push(key);
                proof {
                    let gone = expired(seen, now, lifetime_secs);
                    assert(key_views(dropped).len() == keys_of(gone).len());
                    assert forall|j: int| 0 <= j < dropped.len() implies key_views(
                        expired_keys@,
                    )[j] == keys_of(gone.push(entry@))[j] by {
                        assert(key_views(dropped)[j] == keys_of(gone)[j]);
                    }
                }
            }
            i += 1;
        }
        assert(before.take(i as int) =~= before);
        self.entries = valid_keys;
        proof {
            sweep_keeps_distinct(before, now, lifetime_secs);
            sweep_partitions(before, now, lifetime_secs);
        }
        expired_keys
    }
}

/// A key newly issued is tracked, and tracked once: the list still holds no
/// key twice.
pub proof fn issued_key_is_tracked_once(entries: Seq<CredentialModel>, key: Seq<u8>, now: u64)
    requires
        distinct_keys(entries),
        !tracks(entries, key),
    ensures
        tracks(entries.push(CredentialModel { key: key, issued_at: now }), key),
        distinct_keys(entries.push(CredentialModel { key: key, issued_at: now })),
{
    let longer = entries.push(CredentialModel { key: key, issued_at: now });
    assert(longer[entries.len() as int].key == key);
}

/// A sweep repeated at the same time finds nothing left to drop and keeps
/// what the first sweep kept.
pub proof fn sweep_is_idempotent(entries: Seq<CredentialModel>, now: u64, lifetime_secs: u64)
    ensures
        expired(kept(entries, now, lifetime_secs), now, lifetime_secs) == Seq::<
            CredentialModel,
        >::empty(),
        kept(kept(entries, now, lifetime_secs), now, lifetime_secs) == kept(
            entries,
            now,
            lifetime_secs,
        ),
    decreases entries.len(),
{
    if entries.len() == 0 {
        lemma_sweep_nothing(now, lifetime_secs);
    } else {
        let rest = entries.drop_last();
        sweep_is_idempotent(rest, now, lifetime_secs);
        lemma_sweep_step(entries, now, lifetime_secs);
        if is_young(entries.last().issued_at, now, lifetime_secs) {
            let longer = kept(rest, now, lifetime_secs).push(entries.last());
            assert(longer.drop_last() =~= kept(rest, now, lifetime_secs));
            lemma_sweep_step(longer, now, lifetime_secs);
        }
    }
}

/// A sweep never leaves a key tracked twice.
pub proof fn sweep_keeps_distinct(entries: Seq<CredentialModel>, now: u64, lifetime_secs: u64)
    requires
        distinct_keys(entries),
    ensures
        distinct_keys(kept(entries, now, lifetime_secs)),
{
    lemma_filter_keeps_distinct(
        entries,
        |e: CredentialModel| is_young(e.issued_at, now, lifetime_secs),
    );
}

/// A sweep loses nothing: every entry is either kept or dropped.
pub proof fn sweep_partitions(entries: Seq<CredentialModel>, now: u64, lifetime_secs: u64)
    ensures
        kept(entries, now, lifetime_secs).len() + expired(entries, now, lifetime_secs).len()
            == entries.len(),
    decreases entries.len(),
{
    if entries.len() == 0 {
        lemma_sweep_nothing(now, lifetime_secs);
    } else {
        sweep_partitions(entries.drop_last(), now, lifetime_secs);
        lemma_sweep_step(entries, now, lifetime_secs);
    }
}

/// Sweeping an empty list keeps nothing and drops nothing.
proof fn lemma_sweep_nothing(now: u64, lifetime_secs: u64)
    ensures
        kept(Seq::empty(), now, lifetime_secs) == Seq::<CredentialModel>::empty(),
        expired(Seq::empty(), now, lifetime_secs) == Seq::<CredentialModel>::empty(),
{
    reveal(Seq::filter);
}

/// How a sweep treats the last entry of a list: it is kept if young, and
/// dropped otherwise.
proof fn lemma_sweep_step(entries: Seq<CredentialModel>, now: u64, lifetime_secs: u64)
    requires
        entries.len() > 0,
    ensures
        is_young(entries.last().issued_at, now, lifetime_secs) ==> {
            &&& kept(entries, now, lifetime_secs) == kept(
                entries.drop_last(),
                now,
                lifetime_secs,
            ).push(entries.last())
            &&& expired(entries, now, lifetime_secs) == expired(
                entries.drop_last(),
                now,
                lifetime_secs,
            )
        },
        !is_young(entries.last().issued_at, now, lifetime_secs) ==> {
            &&& kept(entries, now, lifetime_secs) == kept(entries.drop_last(), now, lifetime_secs)
            &&& expired(entries, now, lifetime_secs) == expired(
                entries.drop_last(),
                now,
                lifetime_secs,
            ).push(entries.last())
        },
{
    lemma_filter_step(entries, |e: CredentialModel| is_young(e.issued_at, now, lifetime_secs));
    lemma_filter_step(entries, |e: CredentialModel| !is_young(e.issued_at, now, lifetime_secs));
}

/// How a filter treats the last element of a list.
proof fn lemma_filter_step(entries: Seq<CredentialModel>, pred: spec_fn(CredentialModel) -> bool)
    requires
        entries.len() > 0,
    ensures
        entries.filter(pred) == if pred(entries.last()) {
            entries.drop_last().filter(pred).push(entries.last())
        } else {
            entries.drop_last().filter(pred)
        },
{
    reveal(Seq::filter);
}

/// Filtering a list without repeated keys leaves none repeated.
proof fn lemma_filter_keeps_distinct(
    entries: Seq<CredentialModel>,
    pred: spec_fn(CredentialModel) -> bool,
)
    requires
        distinct_keys(entries),
    ensures
        distinct_keys(entries.filter(pred)),
    decreases entries.len(),
{
    if entries.len() > 0 {
        let rest = entries.drop_last();
        let sub = rest.filter(pred);
        lemma_filter_step(entries, pred);
        lemma_filter_keeps_distinct(rest, pred);
        if pred(entries.last()) {
            let out = sub.push(entries.last());
            assert forall|i: int, j: int| 0 <= i < j < out.len() implies (#[trigger] out[i]).key != (
            #[trigger] out[j]).key by {
                if j == sub.len() {
                    rest.lemma_filter_contains_rev(pred, sub[i]);
                }
            }
        }
    } else {
        reveal(Seq::filter);
    }
}

} // verus!
