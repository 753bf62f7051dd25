//! The registry itself: one record per owner, guarded by argument-bound
//! authorization, a length policy, and a conflict/existence check.
//!
//! An owner identity is carried as a `u64`: the opaque principal identifier
//! under which the host knows the caller. The records are modelled as a map
//! from owner to username text; `claim_username` creates an owner's record,
//! `change_username` overwrites it, `get_username` reads it, and nothing ever
//! deletes it.

use vstd::prelude::*;
use vstd::string::StrSliceExecFns;
use crate::errors::RegistryError;
use crate::events::EventTag;
use crate::events::Notification;

verus! {

/// The storage key under which an owner's record is kept, derived
/// deterministically from the owner identity.
#[derive(Clone, Copy, Debug, PartialEq, Eq, Structural)]
pub enum DataKey {
    /// The username record of the given owner.
    Username(u64),
}

/// The owner identity a storage key was derived from.
pub open spec fn key_owner(k: DataKey) -> u64 {
    match k {
        DataKey::Username(owner) => owner,
    }
}

/// Shortest accepted username, in characters.
pub const MIN_USERNAME_LEN: usize = 3;

/// Longest accepted username, in characters.
pub const MAX_USERNAME_LEN: usize = 20;

/// Whether a username's length lies in the accepted range.
pub open spec fn valid_username(name: Seq<char>) -> bool {
    MIN_USERNAME_LEN <= name.len() && name.len() <= MAX_USERNAME_LEN
}

/// Why a claim is refused, or `None` when it may proceed: authorization is
/// checked first, then the length policy, then the conflict check.
pub open spec fn claim_refusal(has_record: bool, name: Seq<char>, authorized: bool) -> Option<
    RegistryError,
> {
    if !authorized {
        Some(RegistryError::AuthorizationError)
    } else if !valid_username(name) {
        Some(RegistryError::ValidationError)
    } else if has_record {
        Some(RegistryError::ConflictError)
    } else {
        None
    }
}

/// Why a change is refused, or `None` when it may proceed: authorization is
/// checked first, then the length policy, then the existence check.
pub open spec fn change_refusal(has_record: bool, name: Seq<char>, authorized: bool) -> Option<
    RegistryError,
> {
    if !authorized {
        Some(RegistryError::AuthorizationError)
    } else if !valid_username(name) {
        Some(RegistryError::ValidationError)
    } else if !has_record {
        Some(RegistryError::NotFoundError)
    } else {
        None
    }
}

/// The decision that guards a claim, for a caller that already knows whether
/// the owner holds a record and whether the call was authorized.
///
/// A host adapter that keeps the records in the host's own storage asks this
/// exact question before it writes.
pub fn check_claim(has_record: bool, username: &String, authorized: bool) -> (r: Option<
    RegistryError,
>)
    ensures
        r == claim_refusal(has_record, username@, authorized),
{
    if !authorized {
        Some(RegistryError::AuthorizationError)
    } else {
        let len = username.as_str().unicode_len();
        if len < MIN_USERNAME_LEN || len > MAX_USERNAME_LEN {
            Some(RegistryError::ValidationError)
        } else if has_record {
            Some(RegistryError::ConflictError)
        } else {
            None
        }
    }
}

/// The decision that guards a change, as `check_claim` is for a claim.
pub fn check_change(has_record: bool, username: &String, authorized: bool) -> (r: Option<
    RegistryError,
>)
    ensures
        r == change_refusal(has_record, username@, authorized),
{
    if !authorized {
        Some(RegistryError::AuthorizationError)
    } else {
        let len = username.as_str().unicode_len();
        if len < MIN_USERNAME_LEN || len > MAX_USERNAME_LEN {
            Some(RegistryError::ValidationError)
        } else if !has_record {
            Some(RegistryError::NotFoundError)
        } else {
            None
        }
    }
}

/// The records as a map from owner to username text: later entries of the
/// parallel sequences win, and an empty pair of sequences holds no record.
spec fn record_map(keys: Seq<DataKey>, names: Seq<String>) -> Map<u64, Seq<char>>
    decreases keys.len(),
{
    if keys.len() == 0 {
        Map::empty()
    } else {
        record_map(keys.drop_last(), names.drop_last()).insert(
            key_owner(keys.last()),
            names.last()@,
        )
    }
}

/// The username registry.
///
/// At most one record per owner; a record is created by a first successful
/// claim, overwritten in place by a successful change, and never removed.
pub struct UsernameNFT {
    keys: Vec<DataKey>,
    names: Vec<String>,
}

impl View for UsernameNFT {
    type V = Map<u64, Seq<char>>;

    /// The records, abstractly: which owner holds which username text.
    closed spec fn view(&self) -> Map<u64, Seq<char>> {
        record_map(self.keys@, self.names@)
    }
}

proof fn lemma_record_map_contains(keys: Seq<DataKey>, names: Seq<String>, owner: u64)
    requires
        keys.len() == names.len(),
    ensures
        record_map(keys, names).contains_key(owner) <==> exists|i: int|
            0 <= i < keys.len() && key_owner(keys[i]) == owner,
    decreases keys.len(),
{
    if keys.len() > 0 {
        let kd = keys.drop_last();
        let nd = names.drop_last();
        lemma_record_map_contains(kd, nd, owner);
        if key_owner(keys.last()) == owner {
            assert(key_owner(keys[keys.len() - 1]) == owner);
        } else {
            if exists|i: int| 0 <= i < kd.len() && key_owner(kd[i]) == owner {
                let i = choose|i: int| 0 <= i < kd.len() && key_owner(kd[i]) == owner;
                assert(kd[i] == keys[i]);
                assert(key_owner(keys[i]) == owner);
            }
            if exists|i: int| 0 <= i < keys.len() && key_owner(keys[i]) == owner {
                let i = choose|i: int| 0 <= i < keys.len() && key_owner(keys[i]) == owner;
                assert(i != keys.len() - 1);
                assert(kd[i] == keys[i]);
                assert(key_owner(kd[i]) == owner);
            }
        }
    }
}

proof fn lemma_record_map_index(keys: Seq<DataKey>, names: Seq<String>, i: int)
    requires
        keys.len() == names.len(),
        0 <= i < keys.len(),
        forall|p: int, q: int|
            0 <= p < q < keys.len() ==> key_owner(keys[p]) != key_owner(keys[q]),
    ensures
        record_map(keys, names).contains_key(key_owner(keys[i])),
        record_map(keys, names)[key_owner(keys[i])] == names[i]@,
    decreases keys.len(),
{
    if i == keys.len() - 1 {
        assert(keys.last() == keys[i]);
        assert(names.last() == names[i]);
    } else {
        let kd = keys.drop_last();
        let nd = names.drop_last();
        assert forall|p: int, q: int|
            0 <= p < q < kd.len() implies key_owner(kd[p]) != key_owner(kd[q]) by {
            assert(kd[p] == keys[p]);
            assert(kd[q] == keys[q]);
        }
        lemma_record_map_index(kd, nd, i);
        assert(kd[i] == keys[i]);
        assert(nd[i] == names[i]);
        assert(key_owner(keys[i]) != key_owner(keys.last()));
    }
}

proof fn lemma_record_map_push(keys: Seq<DataKey>, names: Seq<String>, k: DataKey, n: String)
    requires
        keys.len() == names.len(),
    ensures
        record_map(keys.push(k), names.push(n)) == record_map(keys, names).insert(
            key_owner(k),
            n@,
        ),
{
    assert(keys.push(k).drop_last() =~= keys);
    assert(names.push(n).drop_last() =~= names);
    assert(keys.push(k).last() == k);
    assert(names.push(n).last() == n);
}

proof fn lemma_record_map_update(keys: Seq<DataKey>, names: Seq<String>, i: int, n: String)
    requires
        keys.len() == names.len(),
        0 <= i < keys.len(),
        forall|p: int, q: int|
            0 <= p < q < keys.len() ==> key_owner(keys[p]) != key_owner(keys[q]),
    ensures
        record_map(keys, names.update(i, n)) == record_map(keys, names).insert(
            key_owner(keys[i]),
            n@,
        ),
    decreases keys.len(),
{
    let m0 = record_map(keys.drop_last(), names.drop_last());
    if i == keys.len() - 1 {
        assert(names.update(i, n).drop_last() =~= names.drop_last());
        assert(names.update(i, n).last() == n);
        assert(keys.last() == keys[i]);
        assert(m0.insert(key_owner(keys[i]), names.last()@).insert(key_owner(keys[i]), n@)
            =~= m0.insert(key_owner(keys[i]), n@));
    } else {
        let kd = keys.drop_last();
        let nd = names.drop_last();
        assert(names.update(i, n).drop_last() =~= nd.update(i, n));
        assert(names.update(i, n).last() == names.last());
        assert forall|p: int, q: int|
            0 <= p < q < kd.len() implies key_owner(kd[p]) != key_owner(kd[q]) by {
            assert(kd[p] == keys[p]);
            assert(kd[q] == keys[q]);
        }
        lemma_record_map_update(kd, nd, i, n);
        assert(kd[i] == keys[i]);
        let ko = key_owner(keys[i]);
        let kl = key_owner(keys.last());
        assert(ko != kl);
        assert(m0.insert(ko, n@).insert(kl, names.last()@) =~= m0.insert(kl, names.last()@).insert(
            ko,
            n@,
        ));
    }
}

impl UsernameNFT {
    /// The registry's records are well formed: the two columns line up and no
    /// owner appears twice.
    pub closed spec fn wf(&self) -> bool {
        &&& self.keys@.len() == self.names@.len()
        &&& forall|p: int, q: int|
            0 <= p < q < self.keys@.len() ==> key_owner(self.keys@[p]) != key_owner(
                self.keys@[q],
            )
    }

    /// A fresh registry: every owner is unclaimed.
    pub fn new() -> (r: UsernameNFT)
        ensures
            r.wf(),
            r@ == Map::<u64, Seq<char>>::empty(),
    {
        UsernameNFT { keys: Vec::new(), names: Vec::new() }
    }

    /// The position of the owner's record, if any.
    fn find_index(&self, owner: u64) -> (r: Option<usize>)
        ensures
            r matches Some(i) ==> i < self.keys@.len() && key_owner(self.keys@[i as int])
                == owner,
            r is None ==> forall|j: int|
                0 <= j < self.keys@.len() ==> key_owner(self.keys@[j]) != owner,
    {
        let mut i: usize = 0;
        while i < self.keys.len()
            invariant
                i <= self.keys@.len(),
                forall|j: int| 0 <= j < i ==> key_owner(self.keys@[j]) != owner,
            decreases self.keys@.len() - i,
        {
            match self.keys[i] {
                DataKey::Username(o) => {
                    if o == owner {
                        return Some(i);
                    }
                },
            }
            i = i + 1;
        }
        None
    }

    /// Read the username the owner holds, or `None` for an owner with no
    /// record. Absence is a normal outcome, not a failure, and no
    /// authorization is asked for a read.
    pub fn get_username(&self, address: u64) -> (r: Option<String>)
        requires
            self.wf(),
        ensures
            r is Some <==> self@.contains_key(address),
            r matches Some(s) ==> s@ == self@[address],
    {
        proof {
            lemma_record_map_contains(self.keys@, self.names@, address);
        }
        match self.find_index(address) {
            Some(i) => {
                proof {
                    lemma_record_map_index(self.keys@, self.names@, i as int);
                }
                Some(self.names[i].clone())
            },
            None => None,
        }
    }

    /// Claim a username for an owner that holds none yet.
    ///
    /// `authorized` reports the host's verdict on this very call: whether the
    /// caller presented authorization bound to this owner and this username.
    /// The request is refused exactly as `claim_refusal` says, and a refusal
    /// leaves the records untouched. On success the record is created and the
    /// `claimed` notification for the host to publish is returned.
    pub fn claim_username(&mut self, owner: u64, username: String, authorized: bool) -> (r:
        Result<Notification, RegistryError>)
        requires
            old(self).wf(),
        ensures
            final(self).wf(),
            claim_refusal(old(self)@.contains_key(owner), username@, authorized) matches Some(e)
                ==> r == Err::<Notification, RegistryError>(e) && final(self)@ == old(self)@,
            claim_refusal(old(self)@.contains_key(owner), username@, authorized) is None
                ==> final(self)@ == old(self)@.insert(owner, username@) && (r matches Ok(n)
                && n.tag == EventTag::Claimed && n.owner == owner && n.username@ == username@),
    {
        proof {
            lemma_record_map_contains(self.keys@, self.names@, owner);
        }
        let found = self.find_index(owner);
        match check_claim(found.is_some(), &username, authorized) {
            Some(e) => Err(e),
            None => {
                let recorded = username.clone();
                self.keys.push(DataKey::Username(owner));
                self.names.push(recorded);
                proof {
                    lemma_record_map_push(
                        old(self).keys@,
                        old(self).names@,
                        DataKey::Username(owner),
                        recorded,
                    );
                    assert forall|p: int, q: int|
                        0 <= p < q < self.keys@.len() implies key_owner(self.keys@[p])
                        != key_owner(self.keys@[q]) by {
                        if q < old(self).keys@.len() {
                            assert(self.keys@[p] == old(self).keys@[p]);
                            assert(self.keys@[q] == old(self).keys@[q]);
                        } else {
                            assert(self.keys@[p] == old(self).keys@[p]);
                            assert(self.keys@[q] == DataKey::Username(owner));
                        }
                    }
                }
                Ok(Notification { tag: EventTag::Claimed, owner: owner, username: username })
            },
        }
    }

    /// Change the username of an owner that already holds one.
    ///
    /// `authorized` reports the host's verdict on this very call, bound to
    /// `new_username`. The request is refused exactly as `change_refusal`
    /// says, and a refusal leaves the records untouched; a change never
    /// creates a record. On success the record is overwritten in place and
    /// the `changed` notification for the host to publish is returned.
    pub fn change_username(&mut self, owner: u64, new_username: String, authorized: bool) -> (r:
        Result<Notification, RegistryError>)
        requires
            old(self).wf(),
        ensures
            final(self).wf(),
            change_refusal(old(self)@.contains_key(owner), new_username@, authorized) matches Some(
                e,
            ) ==> r == Err::<Notification, RegistryError>(e) && final(self)@ == old(self)@,
            change_refusal(old(self)@.contains_key(owner), new_username@, authorized) is None
                ==> final(self)@ == old(self)@.insert(owner, new_username@) && (r matches Ok(n)
                && n.tag == EventTag::Changed && n.owner == owner && n.username@
                == new_username@),
    {
        proof {
            lemma_record_map_contains(self.keys@, self.names@, owner);
        }
        let found = self.find_index(owner);
        match check_change(found.is_some(), &new_username, authorized) {
            Some(e) => Err(e),
            None => {
                let i = found.unwrap();
                let recorded = new_username.clone();
                self.names[i] = recorded;
                proof {
                    lemma_record_map_update(
                        old(self).keys@,
                        old(self).names@,
                        i as int,
                        recorded,
                    );
                    assert(key_owner(old(self).keys@[i as int]) == owner);
                }
                Ok(Notification { tag: EventTag::Changed, owner: owner, username: new_username })
            },
        }
    }
}

/// Round trip: a claim that is not refused binds `name` to `owner`, and a
/// read of the resulting records finds exactly that name.
pub proof fn lemma_claim_then_get(
    m: Map<u64, Seq<char>>,
    owner: u64,
    name: Seq<char>,
    authorized: bool,
)
    requires
        claim_refusal(m.contains_key(owner), name, authorized) is None,
    ensures
        m.insert(owner, name).contains_key(owner),
        m.insert(owner, name)[owner] == name,
{
}

/// Uniqueness per owner: while an owner holds a record, every further claim
/// for that owner is refused; when the request is authorized and the name is
/// valid, the refusal is the conflict error.
pub proof fn lemma_second_claim_refused(name: Seq<char>, authorized: bool)
    ensures
        claim_refusal(true, name, authorized) is Some,
        authorized && valid_username(name) ==> claim_refusal(true, name, authorized) == Some(
            RegistryError::ConflictError,
        ),
{
}

/// Change requires a prior claim: for an owner with no record, an authorized
/// change with a valid name is refused with the not-found error — and a
/// refused change leaves the records, and so the owner's absence, untouched.
pub proof fn lemma_change_requires_claim(name: Seq<char>)
    requires
        valid_username(name),
    ensures
        change_refusal(false, name, true) == Some(RegistryError::NotFoundError),
{
}

/// Authorization gating: without argument-bound authorization, claim and
/// change are both refused with the authorization error, whatever the name
/// and whatever the owner's state — and a refused mutation changes no record
/// and produces no notification.
pub proof fn lemma_unauthorized_refused(has_record: bool, name: Seq<char>)
    ensures
        claim_refusal(has_record, name, false) == Some(RegistryError::AuthorizationError),
        change_refusal(has_record, name, false) == Some(RegistryError::AuthorizationError),
{
}

} // verus!
