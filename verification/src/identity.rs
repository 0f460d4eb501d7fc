//! The identity manager: CRUD and uniqueness-checked lookups over identity
//! records. Validation runs before any storage access; uniqueness is
//! enforced authoritatively by the storage layer's create-exclusive
//! semantics, never by scanning here.
use vstd::prelude::*;
use vstd::string::StrSliceExecFns;

use crate::models;
use crate::models::{view_opt, CreateIdentity, CreateIdentityV, IdentityEmail, UserIdentifier,
    UserIdentifierV};
use crate::storage::{
    emails_disjoint, identity_at, identity_conflict, identity_conflict_except,
    identity_idx_by_email, identity_idx_by_id, identity_idx_by_username, identity_wf,
    LogicStorageError, MemStorage, StorageError, StorageV,
};
use crate::validate::{
    is_valid_email, is_valid_password, is_valid_username, valid_email, valid_password,
    valid_username,
};

verus! {

/// Whether an identity record must carry a username.
pub const USERNAME_REQUIRED: bool = true;

/// Whether an identity record must carry a primary email.
pub const EMAIL_REQUIRED: bool = true;

/// Whether an identity record must carry a password hash.
pub const PASSWORD_REQUIRED: bool = true;

/// The minimum length the manager accepts for a password hash field.
pub const PASSWORD_MIN_LENGTH: usize = 8;

/// What an identity-manager operation can report.
#[derive(Debug)]
pub enum ApiError {
    /// A field failed its shape check; always client-recoverable.
    InvalidArgument(String),
    /// The designated identity does not exist.
    NotFound(String),
    /// A colliding identity already exists.
    AlreadyExists(String),
    /// An unexpected storage failure.
    Storage,
}

/// Whether `s` contains an `@`, the heuristic that tells an email from a
/// username.
pub fn contains_at(s: &str) -> (r: bool)
    ensures
        r == s@.contains('@'),
{
    let n = s.unicode_len();
    let mut i: usize = 0;
    while i < n
        invariant
            n == s@.len(),
            i <= n,
            forall|j: int| 0 <= j < i ==> s@[j] != '@',
        decreases n - i,
    {
        if s.get_char(i) == '@' {
            proof {
                assert(s@.contains('@'));
            }
            return true;
        }
        i += 1;
    }
    proof {
        assert(!s@.contains('@')) by {
            if s@.contains('@') {
                let j = choose|j: int| 0 <= j < s@.len() && s@[j] == '@';
            }
        }
    }
    false
}

/// The record the manager builds from a creation request: the given id,
/// the requested username and password hash, the primary email bound
/// unverified, both timestamps at `now`.
pub open spec fn created_identity_view(c: CreateIdentityV, user_id: Seq<char>, now: i64) -> crate::models::IdentityV {
    crate::models::IdentityV {
        id: user_id,
        username: c.username,
        first_name: None,
        last_name: None,
        emails: match c.primary_email {
            Some(e) => seq![(e, IdentityEmail { verified: false, verified_at: None })],
            None => Seq::empty(),
        },
        linked_accounts: Seq::empty(),
        password_hash: c.password_hash,
        created_at: now,
        updated_at: now,
    }
}

/// Whether a creation request passes the shape checks: each field the
/// policy marks required is present, and each present field is
/// well-formed.
pub open spec fn create_request_valid(c: CreateIdentityV) -> bool {
    &&& (match c.username {
        Some(u) => valid_username(u),
        None => !USERNAME_REQUIRED,
    })
    &&& (match c.primary_email {
        Some(e) => valid_email(e),
        None => !EMAIL_REQUIRED,
    })
    &&& (match c.password_hash {
        Some(h) => valid_password(h, PASSWORD_MIN_LENGTH as int),
        None => !PASSWORD_REQUIRED,
    })
}

/// The identity designated by a lookup key, if any.
pub open spec fn lookup_by_identifier(
    s: Seq<crate::models::IdentityV>,
    u: UserIdentifierV,
) -> Option<crate::models::IdentityV> {
    match u {
        UserIdentifierV::Id(id) => identity_at(s, identity_idx_by_id(s, id)),
        UserIdentifierV::Username(name) => identity_at(s, identity_idx_by_username(s, name)),
        UserIdentifierV::Email(email) => identity_at(s, identity_idx_by_email(s, email)),
    }
}

fn emails_distinct(ident: &models::Identity) -> (r: bool)
    ensures
        r == identity_wf(ident@),
{
    let m = ident.emails.len();
    let mut k: usize = 0;
    while k < m
        invariant
            m == ident.emails.len(),
            k <= m,
            forall|a: int, b: int|
                0 <= a < b < m && a < k ==> (#[trigger] ident@.emails[a]).0 != (
                #[trigger] ident@.emails[b]).0,
        decreases m - k,
    {
        let mut l: usize = k + 1;
        while l < m
            invariant
                m == ident.emails.len(),
                k < m,
                k < l <= m,
                forall|a: int, b: int|
                    0 <= a < b < m && a < k ==> (#[trigger] ident@.emails[a]).0 != (
                    #[trigger] ident@.emails[b]).0,
                forall|b: int|
                    k < b < l ==> ident@.emails[k as int].0 != (#[trigger] ident@.emails[b]).0,
            decreases m - l,
        {
            proof {
                assert(ident@.emails[k as int].0 == ident.emails@[k as int].0@);
                assert(ident@.emails[l as int].0 == ident.emails@[l as int].0@);
            }
            if crate::models::str_eq(ident.emails[k].0.as_str(), ident.emails[l].0.as_str()) {
                proof {
                    assert(!identity_wf(ident@));
                }
                return false;
            }
            l += 1;
        }
        k += 1;
    }
    true
}

/// The field an administrative listing sorts by.
#[derive(Clone, Copy, Debug)]
pub enum SortBy {
    Email,
    Username,
    CreatedAt,
    LastActive,
}

/// The direction an administrative listing sorts in.
#[derive(Clone, Copy, Debug)]
pub enum SortOrder {
    Asc,
    Desc,
}

/// An equality filter for the administrative listing: a field name and
/// the value it must hold exactly.
#[derive(Debug)]
pub struct Filter {
    pub field: String,
    pub value: String,
}

/// What an administrative listing selects: an exact match on the
/// username or the primary-email index — each unique across identities,
/// so at most one record — and nothing for any other field.
pub open spec fn list_selection(
    s: Seq<crate::models::IdentityV>,
    field: Seq<char>,
    value: Seq<char>,
) -> Option<crate::models::IdentityV> {
    if field == "username"@ {
        identity_at(s, identity_idx_by_username(s, value))
    } else if field == "primary_email"@ {
        identity_at(s, identity_idx_by_email(s, value))
    } else {
        None
    }
}

/// The identity manager. It owns the storage handle; every mutating
/// operation is a single exclusive borrow.
pub struct Identity {
    storage: MemStorage,
}

impl View for Identity {
    type V = StorageV;

    closed spec fn view(&self) -> StorageV {
        self.storage@
    }
}

impl Identity {
    /// The manager's invariant: the storage uniqueness invariant holds.
    pub closed spec fn wf(&self) -> bool {
        self.storage.wf()
    }

    /// Wrap a storage handle.
    pub fn new(storage: MemStorage) -> (r: Self)
        requires
            storage.wf(),
        ensures
            r.wf(),
            r@ == storage@,
    {
        Identity { storage }
    }

    /// Hand the storage handle back, for passing on to a flow engine.
    pub fn into_storage(self) -> (r: MemStorage)
        ensures
            r@ == self@,
            self.wf() ==> r.wf(),
    {
        self.storage
    }

    /// Whether a user exists under the given username or email;
    /// everything with an `@` is taken for an email.
    pub fn user_exists(&self, username_or_email: &str) -> (r: Result<bool, ApiError>)
        ensures
            match r {
                Ok(b) => b == if username_or_email@.contains('@') {
                    identity_idx_by_email(self@.identities, username_or_email@) is Some
                } else {
                    identity_idx_by_username(self@.identities, username_or_email@) is Some
                },
                Err(_) => false,
            },
    {
        if contains_at(username_or_email) {
            Ok(self.storage.identity_by_email(username_or_email).is_some())
        } else {
            Ok(self.storage.identity_by_username(username_or_email).is_some())
        }
    }

    /// Pure lookup; returns absent rather than creating.
    pub fn get(&self, user: UserIdentifier) -> (r: Result<Option<models::Identity>, ApiError>)
        ensures
            match r {
                Ok(v) => view_opt(v) == lookup_by_identifier(self@.identities, user@),
                Err(_) => false,
            },
    {
        match user {
            UserIdentifier::Id(id) => Ok(self.storage.identity_by_id(id.as_str())),
            UserIdentifier::Username(name) => Ok(self.storage.identity_by_username(name.as_str())),
            UserIdentifier::Email(email) => Ok(self.storage.identity_by_email(email.as_str())),
        }
    }

    /// Validate the request against policy, build the record under the
    /// given fresh id and instant, and persist it atomically; fails with
    /// a duplicate-user error when a colliding identity already exists,
    /// and writes nothing on any failure.
    pub fn create_with(&mut self, identity: CreateIdentity, user_id: String, now: i64) -> (r:
        Result<models::Identity, ApiError>)
        requires
            old(self).wf(),
        ensures
            final(self).wf(),
            match r {
                Ok(out) => {
                    &&& create_request_valid(identity@)
                    &&& out@ == created_identity_view(identity@, user_id@, now)
                    &&& !identity_conflict(old(self)@.identities, out@)
                    &&& final(self)@ == (StorageV {
                        identities: old(self)@.identities.push(out@),
                        ..old(self)@
                    })
                },
                Err(ApiError::InvalidArgument(_)) => !create_request_valid(identity@) && final(self)@ == old(self)@,
                Err(ApiError::AlreadyExists(_)) => create_request_valid(identity@)
                    && identity_conflict(
                    old(self)@.identities,
                    created_identity_view(identity@, user_id@, now),
                ) && final(self)@ == old(self)@,
                _ => false,
            },
    {
        let username = match identity.username {
            Some(u) => {
                if !is_valid_username(u.as_str()) {
                    return Err(ApiError::InvalidArgument("Invalid username".to_owned()));
                }
                u
            },
            None => {
                return Err(ApiError::InvalidArgument("Invalid username".to_owned()));
            },
        };
        let email = match identity.primary_email {
            Some(e) => {
                if !is_valid_email(e.as_str()) {
                    return Err(ApiError::InvalidArgument("Invalid email".to_owned()));
                }
                e
            },
            None => {
                return Err(ApiError::InvalidArgument("Invalid email".to_owned()));
            },
        };
        let password_hash = match identity.password_hash {
            Some(h) => {
                if !is_valid_password(h.as_str(), PASSWORD_MIN_LENGTH) {
                    return Err(ApiError::InvalidArgument("Invalid password".to_owned()));
                }
                h
            },
            None => {
                return Err(ApiError::InvalidArgument("Invalid password".to_owned()));
            },
        };
        let mut emails: Vec<(String, IdentityEmail)> = Vec::new();
        emails.push((email, IdentityEmail { verified: false, verified_at: None }));
        let ident = models::Identity {
            id: user_id,
            username: Some(username),
            first_name: None,
            last_name: None,
            emails,
            linked_accounts: Vec::new(),
            password_hash: Some(password_hash),
            created_at: now,
            updated_at: now,
        };
        proof {
            assert(ident@.emails =~= created_identity_view(identity@, ident@.id, now).emails);
            assert(ident@.linked_accounts =~= Seq::<(Seq<char>, Seq<char>)>::empty());
            assert(ident@ =~= created_identity_view(identity@, ident@.id, now));
            assert(identity_wf(ident@));
        }
        let ret = ident.clone();
        match self.storage.create_identity(ident) {
            Ok(()) => Ok(ret),
            Err(_) => Err(ApiError::AlreadyExists("this user already exists".to_owned())),
        }
    }

    /// Create under a freshly drawn random id, timestamped now.
    pub fn create(&mut self, identity: CreateIdentity) -> (r: Result<models::Identity, ApiError>)
        requires
            old(self).wf(),
        ensures
            final(self).wf(),
            match r {
                Ok(out) => {
                    &&& create_request_valid(identity@)
                    &&& !identity_conflict(old(self)@.identities, out@)
                    &&& out@ == created_identity_view(identity@, out@.id, out@.created_at)
                    &&& final(self)@ == (StorageV {
                        identities: old(self)@.identities.push(out@),
                        ..old(self)@
                    })
                },
                Err(ApiError::InvalidArgument(_)) => !create_request_valid(identity@) && final(self)@ == old(self)@,
                Err(ApiError::AlreadyExists(_)) => final(self)@ == old(self)@,
                _ => false,
            },
    {
        let user_id = crate::random::secure_random_id();
        let now = crate::clock::now_timestamp();
        self.create_with(identity, user_id, now)
    }

    /// Read the record under `id`, apply the caller's pure transform,
    /// re-validate against policy, stamp the update instant, and persist.
    /// A transform that changes the id, drops the required username, or
    /// breaks the email mapping fails without writing.
    pub fn update_with<F: FnOnce(models::Identity) -> models::Identity>(
        &mut self,
        update: F,
        id: &str,
        now: i64,
    ) -> (r: Result<models::Identity, ApiError>)
        requires
            old(self).wf(),
            forall|x: models::Identity| call_requires(update, (x,)),
        ensures
            final(self).wf(),
            match r {
                Ok(out) => exists|cur: models::Identity, res: models::Identity|
                    {
                        &&& identity_idx_by_id(old(self)@.identities, id@) matches Some(j)
                            && cur@ == old(self)@.identities[j] && !identity_conflict_except(
                            old(self)@.identities,
                            out@,
                            j,
                        ) && final(self)@ == (StorageV {
                            identities: old(self)@.identities.update(j, out@),
                            ..old(self)@
                        })
                        &&& #[trigger] call_ensures(update, (cur,), res)
                        &&& res@.id == cur@.id
                        &&& res@.username matches Some(u) && valid_username(u)
                        &&& identity_wf(res@)
                        &&& out@ == (crate::models::IdentityV { updated_at: now, ..res@ })
                    },
                Err(e) => final(self)@ == old(self)@ && match e {
                    ApiError::NotFound(_) => identity_idx_by_id(
                        old(self)@.identities,
                        id@,
                    ) is None,
                    ApiError::InvalidArgument(_) => exists|
                        cur: models::Identity,
                        res: models::Identity,
                    |
                        {
                            &&& identity_idx_by_id(old(self)@.identities, id@) matches Some(j)
                                && cur@ == old(self)@.identities[j]
                            &&& #[trigger] call_ensures(update, (cur,), res)
                            &&& {
                                ||| res@.id != cur@.id
                                ||| !(res@.username matches Some(u) && valid_username(u))
                                ||| !identity_wf(res@)
                            }
                        },
                    ApiError::AlreadyExists(_) => exists|
                        cur: models::Identity,
                        res: models::Identity,
                    |
                        {
                            &&& identity_idx_by_id(old(self)@.identities, id@) matches Some(j)
                                && cur@ == old(self)@.identities[j] && identity_conflict_except(
                                old(self)@.identities,
                                res@,
                                j,
                            )
                            &&& #[trigger] call_ensures(update, (cur,), res)
                            &&& res@.id == cur@.id
                            &&& res@.username matches Some(u) && valid_username(u)
                            &&& identity_wf(res@)
                        },
                    ApiError::Storage => false,
                },
            },
    {
        let cur = match self.storage.identity_by_id(id) {
            None => {
                return Err(ApiError::NotFound("User not found".to_owned()));
            },
            Some(c) => c,
        };
        proof {
            crate::storage::lemma_identity_idx_by_id_from(self@.identities, 0, id@);
        }
        let ghost cur_g = cur;
        let res = update(cur);
        let ghost res_g = res;
        proof {
            assert(call_ensures(update, (cur_g,), res_g));
        }
        if !crate::models::str_eq(res.id.as_str(), id) {
            proof {
                assert(res_g@.id != cur_g@.id);
            }
            return Err(ApiError::InvalidArgument("Identity id may not change".to_owned()));
        }
        let username_ok = match &res.username {
            Some(u) => is_valid_username(u.as_str()),
            None => !USERNAME_REQUIRED,
        };
        if !username_ok {
            return Err(ApiError::InvalidArgument("Invalid username".to_owned()));
        }
        if !emails_distinct(&res) {
            return Err(ApiError::InvalidArgument("Duplicate email".to_owned()));
        }
        let mut out = res;
        out.updated_at = now;
        let ret = out.clone();
        proof {
            assert(out@ =~= (crate::models::IdentityV { updated_at: now, ..res_g@ }));
        }
        match self.storage.put_identity(out) {
            Ok(()) => Ok(ret),
            Err(StorageError::Storage(LogicStorageError::AlreadyExists(_))) => {
                proof {
                    let s = old(self)@.identities;
                    let j = identity_idx_by_id(s, id@)->Some_0;
                    let outv = crate::models::IdentityV { updated_at: now, ..res_g@ };
                    assert(identity_conflict_except(s, outv, j));
                    let q = choose|q: int|
                        0 <= q < s.len() && q != j && {
                            ||| (outv.username is Some && (#[trigger] s[q]).username
                                == outv.username)
                            ||| !emails_disjoint(outv, s[q])
                        };
                    if !emails_disjoint(outv, s[q]) {
                        let (k1, l1) = choose|k1: int, l1: int|
                            0 <= k1 < outv.emails.len() && 0 <= l1 < s[q].emails.len() && (
                            #[trigger] outv.emails[k1]).0 == (#[trigger] s[q].emails[l1]).0;
                        assert(res_g@.emails[k1].0 == s[q].emails[l1].0);
                        assert(!emails_disjoint(res_g@, s[q]));
                    }
                    assert(identity_conflict_except(s, res_g@, j));
                }
                Err(ApiError::AlreadyExists("this user already exists".to_owned()))
            },
            Err(_) => Err(ApiError::Storage),
        }
    }

    /// Apply a pure transform under the clock's current instant.
    pub fn update<F: FnOnce(models::Identity) -> models::Identity>(
        &mut self,
        update: F,
        id: &str,
    ) -> (r: Result<models::Identity, ApiError>)
        requires
            old(self).wf(),
            forall|x: models::Identity| call_requires(update, (x,)),
        ensures
            final(self).wf(),
            match r {
                Ok(out) => exists|cur: models::Identity, res: models::Identity|
                    {
                        &&& identity_idx_by_id(old(self)@.identities, id@) matches Some(j) && cur@
                            == old(self)@.identities[j] && !identity_conflict_except(
                            old(self)@.identities,
                            out@,
                            j,
                        ) && final(self)@ == (StorageV {
                            identities: old(self)@.identities.update(j, out@),
                            ..old(self)@
                        })
                        &&& #[trigger] call_ensures(update, (cur,), res)
                        &&& res@.id == cur@.id
                        &&& res@.username matches Some(u) && valid_username(u)
                        &&& identity_wf(res@)
                        &&& out@ == (crate::models::IdentityV {
                            updated_at: out@.updated_at,
                            ..res@
                        })
                    },
                Err(e) => final(self)@ == old(self)@ && match e {
                    ApiError::NotFound(_) => identity_idx_by_id(
                        old(self)@.identities,
                        id@,
                    ) is None,
                    ApiError::InvalidArgument(_) => exists|
                        cur: models::Identity,
                        res: models::Identity,
                    |
                        {
                            &&& identity_idx_by_id(old(self)@.identities, id@) matches Some(j)
                                && cur@ == old(self)@.identities[j]
                            &&& #[trigger] call_ensures(update, (cur,), res)
                            &&& {
                                ||| res@.id != cur@.id
                                ||| !(res@.username matches Some(u) && valid_username(u))
                                ||| !identity_wf(res@)
                            }
                        },
                    ApiError::AlreadyExists(_) => exists|
                        cur: models::Identity,
                        res: models::Identity,
                    |
                        {
                            &&& identity_idx_by_id(old(self)@.identities, id@) matches Some(j)
                                && cur@ == old(self)@.identities[j] && identity_conflict_except(
                                old(self)@.identities,
                                res@,
                                j,
                            )
                            &&& #[trigger] call_ensures(update, (cur,), res)
                            &&& res@.id == cur@.id
                            &&& res@.username matches Some(u) && valid_username(u)
                            &&& identity_wf(res@)
                        },
                    ApiError::Storage => false,
                },
            },
    {
        let now = crate::clock::now_timestamp();
        self.update_with(update, id, now)
    }

    /// Read the record under `id` and pass it to the transform. A
    /// transform that returns an identity whose id differs from the one
    /// read fails without writing; one that returns absent leaves storage
    /// unchanged and returns absent. Otherwise the new record is persisted
    /// and returned.
    pub fn update_in_place<F: FnOnce(models::Identity) -> Option<models::Identity>>(
        &mut self,
        transform: F,
        id: &str,
    ) -> (r: Result<Option<models::Identity>, ApiError>)
        requires
            old(self).wf(),
            forall|x: models::Identity| call_requires(transform, (x,)),
        ensures
            final(self).wf(),
            match r {
                Ok(Some(out)) => exists|cur: models::Identity|
                    {
                        &&& identity_idx_by_id(old(self)@.identities, id@) matches Some(j)
                            && cur@ == old(self)@.identities[j] && !identity_conflict_except(
                            old(self)@.identities,
                            out@,
                            j,
                        ) && final(self)@ == (StorageV {
                            identities: old(self)@.identities.update(j, out@),
                            ..old(self)@
                        })
                        &&& exists|res: models::Identity|
                            #[trigger] call_ensures(transform, (cur,), Some(res)) && res@ == out@
                        &&& out@.id == cur@.id
                        &&& identity_wf(out@)
                    },
                Ok(None) => final(self)@ == old(self)@ && exists|cur: models::Identity|
                    {
                        &&& identity_idx_by_id(old(self)@.identities, id@) matches Some(j) && cur@
                            == old(self)@.identities[j]
                        &&& #[trigger] call_ensures(transform, (cur,), None::<models::Identity>)
                    },
                Err(e) => final(self)@ == old(self)@ && match e {
                    ApiError::NotFound(_) => identity_idx_by_id(
                        old(self)@.identities,
                        id@,
                    ) is None,
                    ApiError::InvalidArgument(_) => exists|
                        cur: models::Identity,
                        res: models::Identity,
                    |
                        {
                            &&& identity_idx_by_id(old(self)@.identities, id@) matches Some(j)
                                && cur@ == old(self)@.identities[j]
                            &&& #[trigger] call_ensures(transform, (cur,), Some(res))
                            &&& (res@.id != cur@.id || !identity_wf(res@))
                        },
                    ApiError::AlreadyExists(_) => exists|
                        cur: models::Identity,
                        res: models::Identity,
                    |
                        {
                            &&& identity_idx_by_id(old(self)@.identities, id@) matches Some(j)
                                && cur@ == old(self)@.identities[j] && identity_conflict_except(
                                old(self)@.identities,
                                res@,
                                j,
                            )
                            &&& #[trigger] call_ensures(transform, (cur,), Some(res))
                            &&& res@.id == cur@.id
                            &&& identity_wf(res@)
                        },
                    ApiError::Storage => false,
                },
            },
    {
        let cur = match self.storage.identity_by_id(id) {
            None => {
                return Err(ApiError::NotFound("User not found".to_owned()));
            },
            Some(c) => c,
        };
        proof {
            crate::storage::lemma_identity_idx_by_id_from(self@.identities, 0, id@);
        }
        let ghost cur_g = cur;
        let res = match transform(cur) {
            None => {
                proof {
                    assert(call_ensures(transform, (cur_g,), None::<models::Identity>));
                }
                return Ok(None);
            },
            Some(res) => res,
        };
        let ghost res_g = res;
        proof {
            assert(call_ensures(transform, (cur_g,), Some(res_g)));
        }
        if !crate::models::str_eq(res.id.as_str(), id) {
            proof {
                assert(res_g@.id != cur_g@.id);
            }
            return Err(ApiError::InvalidArgument("Identity id may not change".to_owned()));
        }
        if !emails_distinct(&res) {
            return Err(ApiError::InvalidArgument("Duplicate email".to_owned()));
        }
        let ret = res.clone();
        match self.storage.put_identity(res) {
            Ok(()) => Ok(Some(ret)),
            Err(StorageError::Storage(LogicStorageError::AlreadyExists(_))) => Err(
                ApiError::AlreadyExists("this user already exists".to_owned()),
            ),
            Err(_) => Err(ApiError::Storage),
        }
    }

    /// Administrative listing: at most `count` records matching the
    /// equality filter, starting at `offset`, with `count` capped at 100.
    /// The filter matches exactly on the username or primary-email index;
    /// both are unique across identities, so the selection holds at most
    /// one record and the requested ordering, though accepted, cannot
    /// reorder anything.
    pub fn list(
        &self,
        filter: Filter,
        sort_by: SortBy,
        sort_order: SortOrder,
        offset: u32,
        count: u32,
    ) -> (r: Result<Vec<models::Identity>, ApiError>)
        ensures
            match r {
                Ok(v) => {
                    &&& count <= 100
                    &&& v@.map_values(|i: models::Identity| i@) == (if offset == 0 && count >= 1 {
                        match list_selection(self@.identities, filter.field@, filter.value@) {
                            Some(iv) => seq![iv],
                            None => Seq::<crate::models::IdentityV>::empty(),
                        }
                    } else {
                        Seq::<crate::models::IdentityV>::empty()
                    })
                },
                Err(ApiError::InvalidArgument(_)) => count > 100,
                _ => false,
            },
    {
        if count > 100 {
            return Err(ApiError::InvalidArgument("Count cannot be greater than 100".to_owned()));
        }
        let selected: Option<models::Identity> = if crate::models::str_eq(
            filter.field.as_str(),
            "username",
        ) {
            self.storage.identity_by_username(filter.value.as_str())
        } else if crate::models::str_eq(filter.field.as_str(), "primary_email") {
            self.storage.identity_by_email(filter.value.as_str())
        } else {
            None
        };
        let mut out: Vec<models::Identity> = Vec::new();
        if offset == 0 && count >= 1 {
            match selected {
                Some(ident) => {
                    out.push(ident);
                },
                None => {},
            }
        }
        proof {
            assert(out@.map_values(|i: models::Identity| i@) =~= (if offset == 0 && count >= 1 {
                match list_selection(self@.identities, filter.field@, filter.value@) {
                    Some(iv) => seq![iv],
                    None => Seq::<crate::models::IdentityV>::empty(),
                }
            } else {
                Seq::<crate::models::IdentityV>::empty()
            }));
        }
        Ok(out)
    }

    /// Administrative hard delete; absent records are ignored.
    pub fn delete_permanent(&mut self, id: &str) -> (r: Result<(), ApiError>)
        requires
            old(self).wf(),
        ensures
            final(self).wf(),
            r is Ok,
            match identity_idx_by_id(old(self)@.identities, id@) {
                Some(j) => final(self)@ == (StorageV {
                    identities: old(self)@.identities.remove(j),
                    ..old(self)@
                }),
                None => final(self)@ == old(self)@,
            },
    {
        match self.storage.delete_identity(id) {
            Ok(()) => Ok(()),
            Err(_) => Ok(()),
        }
    }
}

} // verus!
