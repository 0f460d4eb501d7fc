//! The storage abstraction layer: one persistence contract, stated over
//! mathematical views, together with the in-memory backend that implements
//! it. Flow logic never depends on which backend is active; the
//! logic-level errors and the atomicity of `create` and of process
//! completion are backend-independent.
use vstd::prelude::*;

use crate::models::{
    has_email, str_eq, view_opt, Identity, IdentityV, LoginPayload, LoginPayloadV, Process,
    ProcessPayload, ProcessPayloadV, ProcessV, Session, SessionV,
};
use vstd::pervasive::VecAdditionalExecFns;

verus! {

/// The storage backends a deployment may select.
#[derive(Clone, Copy, PartialEq, Eq, Debug)]
pub enum StorageType {
    SQL,
    Redis,
}

/// Logic-level storage outcomes, identical across backends.
#[derive(Debug)]
pub enum LogicStorageError {
    /// The key is already present; returned by the create-exclusive
    /// primitive and by the uniqueness checks layered on it.
    AlreadyExists(String),
    /// The key is absent.
    NotFound(String),
    /// An unexpected backend failure.
    Unknown,
}

/// Everything a storage operation can report. Decode and encode failures
/// are distinct from absence, so corruption is distinguishable from a
/// missing key; the in-memory backend stores records in their typed form
/// and never produces either.
#[derive(Debug)]
pub enum StorageError {
    Storage(LogicStorageError),
    Decoding,
    Encoding,
    ConfigPoisoned,
}

/// Mathematical view of a [`KvEntry`].
#[verifier::ext_equal]
pub ghost struct KvEntryV {
    pub ns: Seq<char>,
    pub key: Seq<char>,
    pub value: Seq<u8>,
}

/// One byte-level record: a value keyed within an optional namespace.
#[derive(Debug)]
pub struct KvEntry {
    pub ns: String,
    pub key: String,
    pub value: Vec<u8>,
}

impl View for KvEntry {
    type V = KvEntryV;

    open spec fn view(&self) -> KvEntryV {
        KvEntryV { ns: self.ns@, key: self.key@, value: self.value@ }
    }
}

/// Mathematical view of the whole store.
#[verifier::ext_equal]
pub ghost struct StorageV {
    pub kv: Seq<KvEntryV>,
    pub identities: Seq<IdentityV>,
    pub processes: Seq<ProcessV>,
    pub sessions: Seq<SessionV>,
}

/// The in-memory backend: one logical collection per entity kind plus the
/// byte-level base store. Every mutating operation is a single exclusive
/// borrow, so the create-exclusive and conditional-complete primitives are
/// atomic; the backend never reports an infrastructure failure.
pub struct MemStorage {
    kv: Vec<KvEntry>,
    identities: Vec<Identity>,
    processes: Vec<Process>,
    sessions: Vec<Session>,
}

impl View for MemStorage {
    type V = StorageV;

    closed spec fn view(&self) -> StorageV {
        StorageV {
            kv: self.kv@.map_values(|e: KvEntry| e@),
            identities: self.identities@.map_values(|e: Identity| e@),
            processes: self.processes@.map_values(|e: Process| e@),
            sessions: self.sessions@.map_values(|e: Session| e@),
        }
    }
}

/// The position of the entry under `(ns, key)` at or after `i`, if any.
pub open spec fn kv_idx_from(s: Seq<KvEntryV>, i: int, ns: Seq<char>, key: Seq<char>) -> Option<
    int,
>
    decreases s.len() - i,
{
    if i < 0 || i >= s.len() {
        None
    } else if s[i].ns == ns && s[i].key == key {
        Some(i)
    } else {
        kv_idx_from(s, i + 1, ns, key)
    }
}

/// The position of the entry under `(ns, key)`, if any.
pub open spec fn kv_idx(s: Seq<KvEntryV>, ns: Seq<char>, key: Seq<char>) -> Option<int> {
    kv_idx_from(s, 0, ns, key)
}

/// The bytes stored under `(ns, key)`, if any.
pub open spec fn kv_lookup(s: Seq<KvEntryV>, ns: Seq<char>, key: Seq<char>) -> Option<Seq<u8>> {
    match kv_idx(s, ns, key) {
        Some(i) => Some(s[i].value),
        None => None,
    }
}

/// The store after an overwrite-or-insert of `value` under `(ns, key)`.
pub open spec fn kv_set_spec(
    s: Seq<KvEntryV>,
    ns: Seq<char>,
    key: Seq<char>,
    value: Seq<u8>,
) -> Seq<KvEntryV> {
    match kv_idx(s, ns, key) {
        Some(i) => s.update(i, KvEntryV { ns, key, value }),
        None => s.push(KvEntryV { ns, key, value }),
    }
}

pub proof fn lemma_kv_idx_from(s: Seq<KvEntryV>, i: int, ns: Seq<char>, key: Seq<char>)
    requires
        0 <= i <= s.len(),
    ensures
        match kv_idx_from(s, i, ns, key) {
            Some(j) => i <= j < s.len() && s[j].ns == ns && s[j].key == key && forall|q: int|
                i <= q < j ==> !((#[trigger] s[q]).ns == ns && s[q].key == key),
            None => forall|q: int|
                i <= q < s.len() ==> !((#[trigger] s[q]).ns == ns && s[q].key == key),
        },
    decreases s.len() - i,
{
    if i < s.len() {
        if !(s[i].ns == ns && s[i].key == key) {
            lemma_kv_idx_from(s, i + 1, ns, key);
        }
    }
}

/// The position of the identity with `id` at or after `i`, if any.
pub open spec fn identity_idx_by_id_from(s: Seq<IdentityV>, i: int, id: Seq<char>) -> Option<int>
    decreases s.len() - i,
{
    if i < 0 || i >= s.len() {
        None
    } else if s[i].id == id {
        Some(i)
    } else {
        identity_idx_by_id_from(s, i + 1, id)
    }
}

/// The position of the identity with `id`, if any.
pub open spec fn identity_idx_by_id(s: Seq<IdentityV>, id: Seq<char>) -> Option<int> {
    identity_idx_by_id_from(s, 0, id)
}

/// The position of the identity with `username` at or after `i`, if any.
pub open spec fn identity_idx_by_username_from(
    s: Seq<IdentityV>,
    i: int,
    username: Seq<char>,
) -> Option<int>
    decreases s.len() - i,
{
    if i < 0 || i >= s.len() {
        None
    } else if s[i].username == Some(username) {
        Some(i)
    } else {
        identity_idx_by_username_from(s, i + 1, username)
    }
}

/// The position of the identity with `username`, if any.
pub open spec fn identity_idx_by_username(s: Seq<IdentityV>, username: Seq<char>) -> Option<int> {
    identity_idx_by_username_from(s, 0, username)
}

/// The position of the identity that has `email` bound, at or after `i`.
pub open spec fn identity_idx_by_email_from(
    s: Seq<IdentityV>,
    i: int,
    email: Seq<char>,
) -> Option<int>
    decreases s.len() - i,
{
    if i < 0 || i >= s.len() {
        None
    } else if has_email(s[i], email) {
        Some(i)
    } else {
        identity_idx_by_email_from(s, i + 1, email)
    }
}

/// The position of the identity that has `email` bound, if any.
pub open spec fn identity_idx_by_email(s: Seq<IdentityV>, email: Seq<char>) -> Option<int> {
    identity_idx_by_email_from(s, 0, email)
}

/// The identity at the given position, if any.
pub open spec fn identity_at(s: Seq<IdentityV>, idx: Option<int>) -> Option<IdentityV> {
    match idx {
        Some(i) => Some(s[i]),
        None => None,
    }
}

pub proof fn lemma_identity_idx_by_id_from(s: Seq<IdentityV>, i: int, id: Seq<char>)
    requires
        0 <= i <= s.len(),
    ensures
        match identity_idx_by_id_from(s, i, id) {
            Some(j) => i <= j < s.len() && s[j].id == id && forall|q: int|
                i <= q < j ==> (#[trigger] s[q]).id != id,
            None => forall|q: int| i <= q < s.len() ==> (#[trigger] s[q]).id != id,
        },
    decreases s.len() - i,
{
    if i < s.len() {
        if !(s[i].id == id) {
            lemma_identity_idx_by_id_from(s, i + 1, id);
        }
    }
}

pub proof fn lemma_identity_idx_by_username_from(s: Seq<IdentityV>, i: int, username: Seq<char>)
    requires
        0 <= i <= s.len(),
    ensures
        match identity_idx_by_username_from(s, i, username) {
            Some(j) => i <= j < s.len() && s[j].username == Some(username) && forall|q: int|
                i <= q < j ==> (#[trigger] s[q]).username != Some(username),
            None => forall|q: int|
                i <= q < s.len() ==> (#[trigger] s[q]).username != Some(username),
        },
    decreases s.len() - i,
{
    if i < s.len() {
        if !(s[i].username == Some(username)) {
            lemma_identity_idx_by_username_from(s, i + 1, username);
        }
    }
}

pub proof fn lemma_identity_idx_by_email_from(s: Seq<IdentityV>, i: int, email: Seq<char>)
    requires
        0 <= i <= s.len(),
    ensures
        match identity_idx_by_email_from(s, i, email) {
            Some(j) => i <= j < s.len() && has_email(s[j], email) && forall|q: int|
                i <= q < j ==> !has_email(#[trigger] s[q], email),
            None => forall|q: int| i <= q < s.len() ==> !has_email(#[trigger] s[q], email),
        },
    decreases s.len() - i,
{
    if i < s.len() {
        if !has_email(s[i], email) {
            lemma_identity_idx_by_email_from(s, i + 1, email);
        }
    }
}

/// The position of the process with `id` at or after `i`, if any.
pub open spec fn process_idx_from(s: Seq<ProcessV>, i: int, id: Seq<char>) -> Option<int>
    decreases s.len() - i,
{
    if i < 0 || i >= s.len() {
        None
    } else if s[i].id == id {
        Some(i)
    } else {
        process_idx_from(s, i + 1, id)
    }
}

/// The position of the process with `id`, if any.
pub open spec fn process_idx(s: Seq<ProcessV>, id: Seq<char>) -> Option<int> {
    process_idx_from(s, 0, id)
}

/// The process stored under `id`, if any.
pub open spec fn process_lookup(s: Seq<ProcessV>, id: Seq<char>) -> Option<ProcessV> {
    match process_idx(s, id) {
        Some(i) => Some(s[i]),
        None => None,
    }
}

pub proof fn lemma_process_idx_from(s: Seq<ProcessV>, i: int, id: Seq<char>)
    requires
        0 <= i <= s.len(),
    ensures
        match process_idx_from(s, i, id) {
            Some(j) => i <= j < s.len() && s[j].id == id && forall|q: int|
                i <= q < j ==> (#[trigger] s[q]).id != id,
            None => forall|q: int| i <= q < s.len() ==> (#[trigger] s[q]).id != id,
        },
    decreases s.len() - i,
{
    if i < s.len() {
        if !(s[i].id == id) {
            lemma_process_idx_from(s, i + 1, id);
        }
    }
}

/// The position of the session with `id` at or after `i`, if any.
pub open spec fn session_idx_from(s: Seq<SessionV>, i: int, id: Seq<char>) -> Option<int>
    decreases s.len() - i,
{
    if i < 0 || i >= s.len() {
        None
    } else if s[i].id == id {
        Some(i)
    } else {
        session_idx_from(s, i + 1, id)
    }
}

/// The position of the session with `id`, if any.
pub open spec fn session_idx(s: Seq<SessionV>, id: Seq<char>) -> Option<int> {
    session_idx_from(s, 0, id)
}

/// The session stored under `id`, if any.
pub open spec fn session_lookup(s: Seq<SessionV>, id: Seq<char>) -> Option<SessionV> {
    match session_idx(s, id) {
        Some(i) => Some(s[i]),
        None => None,
    }
}

pub proof fn lemma_session_idx_from(s: Seq<SessionV>, i: int, id: Seq<char>)
    requires
        0 <= i <= s.len(),
    ensures
        match session_idx_from(s, i, id) {
            Some(j) => i <= j < s.len() && s[j].id == id && forall|q: int|
                i <= q < j ==> (#[trigger] s[q]).id != id,
            None => forall|q: int| i <= q < s.len() ==> (#[trigger] s[q]).id != id,
        },
    decreases s.len() - i,
{
    if i < s.len() {
        if !(s[i].id == id) {
            lemma_session_idx_from(s, i + 1, id);
        }
    }
}

/// The emails bound to an identity are pairwise distinct, so they form a
/// mapping from address to verification state.
pub open spec fn identity_wf(iv: IdentityV) -> bool {
    forall|k: int, l: int|
        0 <= k < l < iv.emails.len() ==> (#[trigger] iv.emails[k]).0 != (#[trigger] iv.emails[l]).0
}

/// No email address is bound to both identities.
pub open spec fn emails_disjoint(a: IdentityV, b: IdentityV) -> bool {
    forall|k: int, l: int|
        0 <= k < a.emails.len() && 0 <= l < b.emails.len() ==> (#[trigger] a.emails[k]).0 != (
        #[trigger] b.emails[l]).0
}

/// Two distinct identity records never share an id, a username or an
/// email address.
pub open spec fn distinct_identities(a: IdentityV, b: IdentityV) -> bool {
    &&& a.id != b.id
    &&& (a.username is Some ==> a.username != b.username)
    &&& emails_disjoint(a, b)
}

/// The uniqueness invariant over the identity collection.
pub open spec fn identities_wf(s: Seq<IdentityV>) -> bool {
    &&& forall|i: int| 0 <= i < s.len() ==> identity_wf(#[trigger] s[i])
    &&& forall|i: int, j: int|
        0 <= i < s.len() && 0 <= j < s.len() && i != j ==> distinct_identities(
            #[trigger] s[i],
            #[trigger] s[j],
        )
}

/// The uniqueness invariant over the byte-level store.
pub open spec fn kv_wf(s: Seq<KvEntryV>) -> bool {
    forall|i: int, j: int|
        0 <= i < s.len() && 0 <= j < s.len() && i != j ==> !((#[trigger] s[i]).ns == (
        #[trigger] s[j]).ns && s[i].key == s[j].key)
}

/// The uniqueness invariant over the process collection.
pub open spec fn processes_wf(s: Seq<ProcessV>) -> bool {
    forall|i: int, j: int|
        0 <= i < s.len() && 0 <= j < s.len() && i != j ==> (#[trigger] s[i]).id != (
        #[trigger] s[j]).id
}

/// The uniqueness invariant over the session collection.
pub open spec fn sessions_wf(s: Seq<SessionV>) -> bool {
    forall|i: int, j: int|
        0 <= i < s.len() && 0 <= j < s.len() && i != j ==> (#[trigger] s[i]).id != (
        #[trigger] s[j]).id
}

/// Whether inserting `iv` would violate a uniqueness rule: its id, its
/// username or one of its emails is already taken.
pub open spec fn identity_conflict(s: Seq<IdentityV>, iv: IdentityV) -> bool {
    ||| identity_idx_by_id(s, iv.id) is Some
    ||| (match iv.username {
        Some(u) => identity_idx_by_username(s, u) is Some,
        None => false,
    })
    ||| exists|k: int|
        0 <= k < iv.emails.len() && identity_idx_by_email(s, (#[trigger] iv.emails[k]).0) is Some
}

/// Whether replacing the record at `j` by `iv` would collide with some
/// other identity's username or email.
pub open spec fn identity_conflict_except(s: Seq<IdentityV>, iv: IdentityV, j: int) -> bool {
    exists|q: int|
        0 <= q < s.len() && q != j && {
            ||| (iv.username is Some && (#[trigger] s[q]).username == iv.username)
            ||| !emails_disjoint(iv, s[q])
        }
}

proof fn lemma_distinct_after_no_conflict(s: Seq<IdentityV>, iv: IdentityV, j: int)
    requires
        0 <= j < s.len(),
        identity_idx_by_id(s, iv.id) is None,
        iv.username is Some ==> identity_idx_by_username(s, iv.username->Some_0) is None,
        forall|l: int|
            0 <= l < iv.emails.len() ==> identity_idx_by_email(
                s,
                (#[trigger] iv.emails[l]).0,
            ) is None,
    ensures
        distinct_identities(iv, s[j]),
        distinct_identities(s[j], iv),
{
    lemma_identity_idx_by_id_from(s, 0, iv.id);
    if iv.username is Some {
        lemma_identity_idx_by_username_from(s, 0, iv.username->Some_0);
    }
    assert forall|k: int, l: int|
        0 <= k < iv.emails.len() && 0 <= l < s[j].emails.len() implies (#[trigger] iv.emails[k]).0
        != (#[trigger] s[j].emails[l]).0 by {
        lemma_identity_idx_by_email_from(s, 0, iv.emails[k].0);
        assert(!has_email(s[j], iv.emails[k].0));
        if iv.emails[k].0 == s[j].emails[l].0 {
            assert(has_email(s[j], iv.emails[k].0));
        }
    }
    assert(emails_disjoint(iv, s[j]));
    assert forall|k: int, l: int|
        0 <= k < s[j].emails.len() && 0 <= l < iv.emails.len() implies (#[trigger] s[j].emails[k]).0
        != (#[trigger] iv.emails[l]).0 by {
        assert(iv.emails[l].0 != s[j].emails[k].0);
    }
    assert(emails_disjoint(s[j], iv));
}

impl MemStorage {
    /// The combined uniqueness invariant; every operation preserves it.
    pub open spec fn wf(&self) -> bool {
        &&& kv_wf(self@.kv)
        &&& identities_wf(self@.identities)
        &&& processes_wf(self@.processes)
        &&& sessions_wf(self@.sessions)
    }

    /// A fresh, empty store.
    pub fn new() -> (r: Self)
        ensures
            r.wf(),
            r@.kv == Seq::<KvEntryV>::empty(),
            r@.identities == Seq::<IdentityV>::empty(),
            r@.processes == Seq::<ProcessV>::empty(),
            r@.sessions == Seq::<SessionV>::empty(),
    {
        let r = MemStorage { kv: Vec::new(), identities: Vec::new(), processes: Vec::new(), sessions: Vec::new() };
        proof {
            assert(r@.kv =~= Seq::<KvEntryV>::empty());
            assert(r@.identities =~= Seq::<IdentityV>::empty());
            assert(r@.processes =~= Seq::<ProcessV>::empty());
            assert(r@.sessions =~= Seq::<SessionV>::empty());
        }
        r
    }

    fn find_kv(&self, ns: &str, key: &str) -> (r: Option<usize>)
        ensures
            match r {
                Some(i) => i < self@.kv.len() && kv_idx(self@.kv, ns@, key@) == Some(i as int),
                None => kv_idx(self@.kv, ns@, key@) is None,
            },
    {
        let n = self.kv.len();
        let mut i: usize = 0;
        while i < n
            invariant
                n == self.kv.len(),
                i <= n,
                kv_idx(self@.kv, ns@, key@) == kv_idx_from(self@.kv, i as int, ns@, key@),
            decreases n - i,
        {
            proof {
                assert(self@.kv[i as int] == self.kv@[i as int]@);
            }
            if str_eq(self.kv[i].ns.as_str(), ns) && str_eq(self.kv[i].key.as_str(), key) {
                return Some(i);
            }
            i += 1;
        }
        None
    }

    fn find_identity_by_id(&self, id: &str) -> (r: Option<usize>)
        ensures
            match r {
                Some(i) => i < self@.identities.len() && identity_idx_by_id(
                    self@.identities,
                    id@,
                ) == Some(i as int),
                None => identity_idx_by_id(self@.identities, id@) is None,
            },
    {
        let n = self.identities.len();
        let mut i: usize = 0;
        while i < n
            invariant
                n == self.identities.len(),
                i <= n,
                identity_idx_by_id(self@.identities, id@) == identity_idx_by_id_from(
                    self@.identities,
                    i as int,
                    id@,
                ),
            decreases n - i,
        {
            proof {
                assert(self@.identities[i as int] == self.identities@[i as int]@);
            }
            if str_eq(self.identities[i].id.as_str(), id) {
                return Some(i);
            }
            i += 1;
        }
        None
    }

    fn find_identity_by_username(&self, username: &str) -> (r: Option<usize>)
        ensures
            match r {
                Some(i) => i < self@.identities.len() && identity_idx_by_username(
                    self@.identities,
                    username@,
                ) == Some(i as int),
                None => identity_idx_by_username(self@.identities, username@) is None,
            },
    {
        let n = self.identities.len();
        let mut i: usize = 0;
        while i < n
            invariant
                n == self.identities.len(),
                i <= n,
                identity_idx_by_username(self@.identities, username@)
                    == identity_idx_by_username_from(self@.identities, i as int, username@),
            decreases n - i,
        {
            proof {
                assert(self@.identities[i as int] == self.identities@[i as int]@);
            }
            let matches_here = match &self.identities[i].username {
                Some(u) => str_eq(u.as_str(), username),
                None => false,
            };
            if matches_here {
                return Some(i);
            }
            i += 1;
        }
        None
    }

    fn find_identity_by_email(&self, email: &str) -> (r: Option<usize>)
        ensures
            match r {
                Some(i) => i < self@.identities.len() && identity_idx_by_email(
                    self@.identities,
                    email@,
                ) == Some(i as int),
                None => identity_idx_by_email(self@.identities, email@) is None,
            },
    {
        let n = self.identities.len();
        let mut i: usize = 0;
        while i < n
            invariant
                n == self.identities.len(),
                i <= n,
                identity_idx_by_email(self@.identities, email@) == identity_idx_by_email_from(
                    self@.identities,
                    i as int,
                    email@,
                ),
            decreases n - i,
        {
            proof {
                assert(self@.identities[i as int] == self.identities@[i as int]@);
            }
            let ident = &self.identities[i];
            let m = ident.emails.len();
            let mut k: usize = 0;
            let mut found = false;
            while k < m
                invariant
                    m == ident.emails.len(),
                    k <= m,
                    found ==> has_email(ident@, email@),
                    !found ==> forall|l: int|
                        0 <= l < k ==> (#[trigger] ident@.emails[l]).0 != email@,
                decreases m - k,
            {
                if !found {
                    proof {
                        assert(ident@.emails[k as int].0 == ident.emails@[k as int].0@);
                    }
                    if str_eq(ident.emails[k].0.as_str(), email) {
                        found = true;
                    }
                }
                k += 1;
            }
            proof {
                if !found {
                    assert(!has_email(ident@, email@));
                }
                assert(self@.identities[i as int] == ident@);
            }
            if found {
                return Some(i);
            }
            i += 1;
        }
        None
    }

    /// Pure lookup by identity id; returns a copy of the stored record.
    pub fn identity_by_id(&self, id: &str) -> (r: Option<Identity>)
        ensures
            crate::models::view_opt(r) == identity_at(
                self@.identities,
                identity_idx_by_id(self@.identities, id@),
            ),
    {
        match self.find_identity_by_id(id) {
            Some(i) => {
                proof {
                    assert(self@.identities[i as int] == self.identities@[i as int]@);
                }
                Some(self.identities[i].clone())
            },
            None => None,
        }
    }

    /// Pure lookup by username; returns a copy of the stored record.
    pub fn identity_by_username(&self, username: &str) -> (r: Option<Identity>)
        ensures
            crate::models::view_opt(r) == identity_at(
                self@.identities,
                identity_idx_by_username(self@.identities, username@),
            ),
    {
        match self.find_identity_by_username(username) {
            Some(i) => {
                proof {
                    assert(self@.identities[i as int] == self.identities@[i as int]@);
                }
                Some(self.identities[i].clone())
            },
            None => None,
        }
    }

    /// Pure lookup by bound email address; returns a copy of the stored
    /// record.
    pub fn identity_by_email(&self, email: &str) -> (r: Option<Identity>)
        ensures
            crate::models::view_opt(r) == identity_at(
                self@.identities,
                identity_idx_by_email(self@.identities, email@),
            ),
    {
        match self.find_identity_by_email(email) {
            Some(i) => {
                proof {
                    assert(self@.identities[i as int] == self.identities@[i as int]@);
                }
                Some(self.identities[i].clone())
            },
            None => None,
        }
    }

    /// Atomic check-and-insert of a new identity: fails with
    /// `AlreadyExists` when the id, the username or one of the bound
    /// emails is already taken, and writes nothing in that case.
    pub fn create_identity(&mut self, ident: Identity) -> (r: Result<(), StorageError>)
        requires
            old(self).wf(),
            identity_wf(ident@),
        ensures
            final(self).wf(),
            match r {
                Ok(()) => !identity_conflict(old(self)@.identities, ident@) && final(self)@ == (
                StorageV { identities: old(self)@.identities.push(ident@), ..old(self)@ }),
                Err(StorageError::Storage(LogicStorageError::AlreadyExists(k))) => identity_conflict(
                    old(self)@.identities,
                    ident@,
                ) && k@ == ident@.id && final(self)@ == old(self)@,
                _ => false,
            },
    {
        let ghost s = self@.identities;
        if self.find_identity_by_id(ident.id.as_str()).is_some() {
            return Err(StorageError::Storage(LogicStorageError::AlreadyExists(ident.id.clone())));
        }
        let username_taken = match &ident.username {
            Some(u) => self.find_identity_by_username(u.as_str()).is_some(),
            None => false,
        };
        if username_taken {
            return Err(StorageError::Storage(LogicStorageError::AlreadyExists(ident.id.clone())));
        }
        let m = ident.emails.len();
        let mut k: usize = 0;
        while k < m
            invariant
                m == ident.emails.len(),
                k <= m,
                self@ == old(self)@,
                self.wf(),
                s == self@.identities,
                forall|l: int|
                    0 <= l < k ==> identity_idx_by_email(
                        s,
                        (#[trigger] ident@.emails[l]).0,
                    ) is None,
            decreases m - k,
        {
            proof {
                assert(ident@.emails[k as int].0 == ident.emails@[k as int].0@);
            }
            if self.find_identity_by_email(ident.emails[k].0.as_str()).is_some() {
                proof {
                    assert(identity_conflict(s, ident@));
                }
                return Err(StorageError::Storage(
                    LogicStorageError::AlreadyExists(ident.id.clone()),
                ));
            }
            k += 1;
        }
        proof {
            assert(!identity_conflict(s, ident@));
        }
        self.identities.push(ident);
        proof {
            assert(self@.identities =~= s.push(ident@));
            let ns = s.push(ident@);
            assert forall|i: int, j: int|
                0 <= i < ns.len() && 0 <= j < ns.len() && i != j implies distinct_identities(
                #[trigger] ns[i],
                #[trigger] ns[j],
            ) by {
                if i < s.len() && j < s.len() {
                    assert(distinct_identities(s[i], s[j]));
                } else if i == s.len() {
                    lemma_distinct_after_no_conflict(s, ident@, j);
                    assert(distinct_identities(ns[i], ns[j]));
                } else {
                    lemma_distinct_after_no_conflict(s, ident@, i);
                    assert(distinct_identities(ns[j], ns[i]));
                    assert(distinct_identities(ns[i], ns[j]));
                }
            }
            assert(identities_wf(ns));
            assert(self@ =~= (StorageV { identities: s.push(ident@), ..old(self)@ }));
        }
        Ok(())
    }

    fn find_process(&self, id: &str) -> (r: Option<usize>)
        ensures
            match r {
                Some(i) => i < self@.processes.len() && process_idx(self@.processes, id@)
                    == Some(i as int),
                None => process_idx(self@.processes, id@) is None,
            },
    {
        let n = self.processes.len();
        let mut i: usize = 0;
        while i < n
            invariant
                n == self.processes.len(),
                i <= n,
                process_idx(self@.processes, id@) == process_idx_from(
                    self@.processes,
                    i as int,
                    id@,
                ),
            decreases n - i,
        {
            proof {
                assert(self@.processes[i as int] == self.processes@[i as int]@);
            }
            if str_eq(self.processes[i].id.as_str(), id) {
                return Some(i);
            }
            i += 1;
        }
        None
    }

    fn find_session(&self, id: &str) -> (r: Option<usize>)
        ensures
            match r {
                Some(i) => i < self@.sessions.len() && session_idx(self@.sessions, id@)
                    == Some(i as int),
                None => session_idx(self@.sessions, id@) is None,
            },
    {
        let n = self.sessions.len();
        let mut i: usize = 0;
        while i < n
            invariant
                n == self.sessions.len(),
                i <= n,
                session_idx(self@.sessions, id@) == session_idx_from(
                    self@.sessions,
                    i as int,
                    id@,
                ),
            decreases n - i,
        {
            proof {
                assert(self@.sessions[i as int] == self.sessions@[i as int]@);
            }
            if str_eq(self.sessions[i].id.as_str(), id) {
                return Some(i);
            }
            i += 1;
        }
        None
    }
}

/// The base byte-level capability set every backend implements: values
/// keyable within an optional namespace, with an atomic check-and-insert
/// as the sole uniqueness primitive. Each contract is stated over the
/// backend's byte-level contents `kv_state`.
pub trait BaseStorage: Sized {
    /// The byte-level contents of the backend.
    spec fn kv_state(&self) -> Seq<KvEntryV>;

    /// The backend invariant; every operation preserves it.
    spec fn inv(&self) -> bool;

    /// Get a value from the storage, if it exists. Prefer the typed
    /// lookups where they apply.
    fn _get_u8(&self, key: &str) -> (r: Result<Option<Vec<u8>>, StorageError>)
        requires
            self.inv(),
        ensures
            match r {
                Ok(v) => view_opt(v) == kv_lookup(self.kv_state(), ""@, key@),
                Err(_) => false,
            },
    ;

    /// Get a value from a namespace, if it exists.
    fn _pget_u8(&self, prefix: &str, key: &str) -> (r: Result<Option<Vec<u8>>, StorageError>)
        requires
            self.inv(),
        ensures
            match r {
                Ok(v) => view_opt(v) == kv_lookup(self.kv_state(), prefix@, key@),
                Err(_) => false,
            },
    ;

    /// Set a value: overwrite-or-insert.
    fn _set_u8(&mut self, key: &str, value: &[u8]) -> (r: Result<(), StorageError>)
        requires
            old(self).inv(),
        ensures
            final(self).inv(),
            r is Ok,
            final(self).kv_state() == kv_set_spec(old(self).kv_state(), ""@, key@, value@),
    ;

    /// Set a value in a namespace: overwrite-or-insert.
    fn _pset_u8(&mut self, prefix: &str, key: &str, value: &[u8]) -> (r: Result<(), StorageError>)
        requires
            old(self).inv(),
        ensures
            final(self).inv(),
            r is Ok,
            final(self).kv_state() == kv_set_spec(old(self).kv_state(), prefix@, key@, value@),
    ;

    /// The create-exclusive primitive: an atomic check-and-insert that
    /// fails with `AlreadyExists` when the key is present. This is the
    /// basis for uniqueness and idempotent completion above it.
    fn _create_u8(&mut self, key: &str, value: &[u8]) -> (r: Result<(), StorageError>)
        requires
            old(self).inv(),
        ensures
            final(self).inv(),
            match r {
                Ok(()) => kv_idx(old(self).kv_state(), ""@, key@) is None && final(self).kv_state()
                    == old(self).kv_state().push(
                    KvEntryV { ns: ""@, key: key@, value: value@ },
                ),
                Err(StorageError::Storage(LogicStorageError::AlreadyExists(k))) => k@ == key@
                    && kv_idx(old(self).kv_state(), ""@, key@) is Some && final(self).kv_state()
                    == old(self).kv_state(),
                _ => false,
            },
    ;

    /// The create-exclusive primitive within a namespace.
    fn _pcreate_u8(&mut self, prefix: &str, key: &str, value: &[u8]) -> (r: Result<
        (),
        StorageError,
    >)
        requires
            old(self).inv(),
        ensures
            final(self).inv(),
            match r {
                Ok(()) => kv_idx(old(self).kv_state(), prefix@, key@) is None && final(self).kv_state() == old(self).kv_state().push(
                    KvEntryV { ns: prefix@, key: key@, value: value@ },
                ),
                Err(StorageError::Storage(LogicStorageError::AlreadyExists(k))) => k@ == key@
                    && kv_idx(old(self).kv_state(), prefix@, key@) is Some && final(self).kv_state() == old(self).kv_state(),
                _ => false,
            },
    ;

    /// Delete a value; fails with `NotFound` when the key is absent.
    fn _del(&mut self, key: &str) -> (r: Result<(), StorageError>)
        requires
            old(self).inv(),
        ensures
            final(self).inv(),
            match r {
                Ok(()) => kv_idx(old(self).kv_state(), ""@, key@) matches Some(j) && final(self).kv_state() == old(self).kv_state().remove(j),
                Err(StorageError::Storage(LogicStorageError::NotFound(k))) => k@ == key@ && kv_idx(
                    old(self).kv_state(),
                    ""@,
                    key@,
                ) is None && final(self).kv_state() == old(self).kv_state(),
                _ => false,
            },
    ;

    /// Delete a value from a namespace; fails with `NotFound` when the
    /// key is absent.
    fn _pdel(&mut self, prefix: &str, key: &str) -> (r: Result<(), StorageError>)
        requires
            old(self).inv(),
        ensures
            final(self).inv(),
            match r {
                Ok(()) => kv_idx(old(self).kv_state(), prefix@, key@) matches Some(j) && final(self).kv_state() == old(self).kv_state().remove(j),
                Err(StorageError::Storage(LogicStorageError::NotFound(k))) => k@ == key@ && kv_idx(
                    old(self).kv_state(),
                    prefix@,
                    key@,
                ) is None && final(self).kv_state() == old(self).kv_state(),
                _ => false,
            },
    ;

    /// Check whether a key exists, derived from get.
    fn key_exists(&self, key: &str) -> (r: Result<bool, StorageError>)
        requires
            self.inv(),
        ensures
            match r {
                Ok(b) => b == (kv_idx(self.kv_state(), ""@, key@) is Some),
                Err(_) => false,
            },
    ;

    /// Check whether a key exists in a namespace, derived from get.
    fn pkey_exists(&self, prefix: &str, key: &str) -> (r: Result<bool, StorageError>)
        requires
            self.inv(),
        ensures
            match r {
                Ok(b) => b == (kv_idx(self.kv_state(), prefix@, key@) is Some),
                Err(_) => false,
            },
    ;
}

/// The full persistence contract a backend must satisfy to be selectable:
/// the byte-level base set; the typed identity, process and session
/// extensions stand on [`MemStorage`] directly.
pub trait Storage: BaseStorage {

}

/// A snapshot of how many records each logical collection holds: the
/// backend-specific administrative accessor, explicitly typed rather
/// than reached through a cast. Flow logic never uses it.
#[derive(Clone, Copy, PartialEq, Eq, Debug)]
pub struct StorageCounts {
    pub kv: usize,
    pub identities: usize,
    pub processes: usize,
    pub sessions: usize,
}

impl BaseStorage for MemStorage {
    open spec fn kv_state(&self) -> Seq<KvEntryV> {
        self@.kv
    }

    open spec fn inv(&self) -> bool {
        self.wf()
    }

    fn _get_u8(&self, key: &str) -> (r: Result<Option<Vec<u8>>, StorageError>) {
        self._pget_u8("", key)
    }

    fn _pget_u8(&self, prefix: &str, key: &str) -> (r: Result<Option<Vec<u8>>, StorageError>) {
        match self.find_kv(prefix, key) {
            Some(i) => {
                proof {
                    assert(self@.kv[i as int] == self.kv@[i as int]@);
                }
                let mut out: Vec<u8> = Vec::new();
                out.extend_from_slice(self.kv[i].value.as_slice());
                proof {
                    assert(out@ =~= self@.kv[i as int].value);
                }
                Ok(Some(out))
            },
            None => Ok(None),
        }
    }

    fn _set_u8(&mut self, key: &str, value: &[u8]) -> (r: Result<(), StorageError>) {
        self._pset_u8("", key, value)
    }

    fn _pset_u8(&mut self, prefix: &str, key: &str, value: &[u8]) -> (r: Result<
        (),
        StorageError,
    >) {
        let ghost s0 = self@.kv;
        let entry = KvEntry {
            ns: prefix.to_owned(),
            key: key.to_owned(),
            value: vstd::slice::slice_to_vec(value),
        };
        proof {
            assert(entry@ =~= (KvEntryV { ns: prefix@, key: key@, value: value@ }));
        }
        match self.find_kv(prefix, key) {
            Some(i) => {
                proof {
                    lemma_kv_idx_from(s0, 0, prefix@, key@);
                }
                self.kv.set(i, entry);
                proof {
                    let ns = s0.update(i as int, KvEntryV { ns: prefix@, key: key@, value: value@ });
                    assert(self@.kv =~= ns);
                    assert forall|q1: int, q2: int|
                        0 <= q1 < ns.len() && 0 <= q2 < ns.len() && q1 != q2 implies !((
                    #[trigger] ns[q1]).ns == (#[trigger] ns[q2]).ns && ns[q1].key == ns[q2].key) by {
                        assert(!(s0[q1].ns == s0[q2].ns && s0[q1].key == s0[q2].key));
                    }
                    assert(kv_wf(ns));
                    assert(self@ =~= (StorageV { kv: ns, ..old(self)@ }));
                }
                Ok(())
            },
            None => {
                proof {
                    lemma_kv_idx_from(s0, 0, prefix@, key@);
                }
                self.kv.push(entry);
                proof {
                    let ns = s0.push(KvEntryV { ns: prefix@, key: key@, value: value@ });
                    assert(self@.kv =~= ns);
                    assert(kv_wf(ns));
                    assert(self@ =~= (StorageV { kv: ns, ..old(self)@ }));
                }
                Ok(())
            },
        }
    }

    fn _create_u8(&mut self, key: &str, value: &[u8]) -> (r: Result<(), StorageError>) {
        self._pcreate_u8("", key, value)
    }

    fn _pcreate_u8(&mut self, prefix: &str, key: &str, value: &[u8]) -> (r: Result<
        (),
        StorageError,
    >) {
        let ghost s0 = self@.kv;
        if self.find_kv(prefix, key).is_some() {
            return Err(StorageError::Storage(LogicStorageError::AlreadyExists(key.to_owned())));
        }
        let entry = KvEntry {
            ns: prefix.to_owned(),
            key: key.to_owned(),
            value: vstd::slice::slice_to_vec(value),
        };
        proof {
            assert(entry@ =~= (KvEntryV { ns: prefix@, key: key@, value: value@ }));
            lemma_kv_idx_from(s0, 0, prefix@, key@);
        }
        self.kv.push(entry);
        proof {
            let ns = s0.push(KvEntryV { ns: prefix@, key: key@, value: value@ });
            assert(self@.kv =~= ns);
            assert(kv_wf(ns));
            assert(self@ =~= (StorageV { kv: ns, ..old(self)@ }));
        }
        Ok(())
    }

    fn _del(&mut self, key: &str) -> (r: Result<(), StorageError>) {
        self._pdel("", key)
    }

    fn _pdel(&mut self, prefix: &str, key: &str) -> (r: Result<(), StorageError>) {
        let ghost s0 = self@.kv;
        match self.find_kv(prefix, key) {
            None => Err(StorageError::Storage(LogicStorageError::NotFound(key.to_owned()))),
            Some(j) => {
                self.kv.remove(j);
                proof {
                    let ns = s0.remove(j as int);
                    assert(self@.kv =~= ns);
                    assert forall|q1: int, q2: int|
                        0 <= q1 < ns.len() && 0 <= q2 < ns.len() && q1 != q2 implies !((
                    #[trigger] ns[q1]).ns == (#[trigger] ns[q2]).ns && ns[q1].key == ns[q2].key) by {
                        let o1: int = if q1 < j { q1 } else { q1 + 1 };
                        let o2: int = if q2 < j { q2 } else { q2 + 1 };
                        assert(ns[q1] == s0[o1]);
                        assert(ns[q2] == s0[o2]);
                    }
                    assert(kv_wf(ns));
                    assert(self@ =~= (StorageV { kv: ns, ..old(self)@ }));
                }
                Ok(())
            },
        }
    }

    fn key_exists(&self, key: &str) -> (r: Result<bool, StorageError>) {
        match self._get_u8(key) {
            Ok(v) => Ok(v.is_some()),
            Err(e) => Err(e),
        }
    }

    fn pkey_exists(&self, prefix: &str, key: &str) -> (r: Result<bool, StorageError>) {
        match self._pget_u8(prefix, key) {
            Ok(v) => Ok(v.is_some()),
            Err(e) => Err(e),
        }
    }
}

impl Storage for MemStorage {

}

impl MemStorage {
    /// Administrative record counts, for operational tooling only.
    pub fn record_counts(&self) -> (r: StorageCounts)
        ensures
            r.kv == self@.kv.len(),
            r.identities == self@.identities.len(),
            r.processes == self@.processes.len(),
            r.sessions == self@.sessions.len(),
    {
        StorageCounts {
            kv: self.kv.len(),
            identities: self.identities.len(),
            processes: self.processes.len(),
            sessions: self.sessions.len(),
        }
    }
}

/// The process with its completion instant set.
pub open spec fn completed_process(p: ProcessV, now: i64) -> ProcessV {
    ProcessV { completed_at: Some(now), ..p }
}

/// The process after one failed one-time-code attempt: the counter on
/// the login payload moves up by one, saturating; nothing else changes.
pub open spec fn otp_failed_process(p: ProcessV) -> ProcessV {
    match p.payload {
        ProcessPayloadV::Login(lp) => ProcessV {
            payload: ProcessPayloadV::Login(
                LoginPayloadV {
                    otp_attempts: if lp.otp_attempts < u32::MAX {
                        (lp.otp_attempts + 1) as u32
                    } else {
                        lp.otp_attempts
                    },
                    ..lp
                },
            ),
            ..p
        },
        ProcessPayloadV::Signup(_) => p,
    }
}

proof fn lemma_identity_idx_scan_id(t: Seq<IdentityV>, i: int, id: Seq<char>, j: int)
    requires
        0 <= i <= j < t.len(),
        t[j].id == id,
        forall|q: int| i <= q < j ==> (#[trigger] t[q]).id != id,
    ensures
        identity_idx_by_id_from(t, i, id) == Some(j),
    decreases j - i,
{
    if i < j {
        lemma_identity_idx_scan_id(t, i + 1, id, j);
    }
}

proof fn lemma_identity_idx_scan_username(t: Seq<IdentityV>, i: int, u: Seq<char>, j: int)
    requires
        0 <= i <= j < t.len(),
        t[j].username == Some(u),
        forall|q: int| i <= q < j ==> (#[trigger] t[q]).username != Some(u),
    ensures
        identity_idx_by_username_from(t, i, u) == Some(j),
    decreases j - i,
{
    if i < j {
        lemma_identity_idx_scan_username(t, i + 1, u, j);
    }
}

proof fn lemma_identity_idx_scan_email(t: Seq<IdentityV>, i: int, e: Seq<char>, j: int)
    requires
        0 <= i <= j < t.len(),
        has_email(t[j], e),
        forall|q: int| i <= q < j ==> !has_email(#[trigger] t[q], e),
    ensures
        identity_idx_by_email_from(t, i, e) == Some(j),
    decreases j - i,
{
    if i < j {
        lemma_identity_idx_scan_email(t, i + 1, e, j);
    }
}

/// Replacing a process by one with the same id moves no process and
/// changes no lookup position.
pub proof fn lemma_process_idx_update_same_id(s: Seq<ProcessV>, i: int, id: Seq<char>, j: int, p2: ProcessV)
    requires
        0 <= i <= s.len(),
        0 <= j < s.len(),
        p2.id == s[j].id,
    ensures
        process_idx_from(s.update(j, p2), i, id) == process_idx_from(s, i, id),
    decreases s.len() - i,
{
    if i < s.len() {
        lemma_process_idx_update_same_id(s, i + 1, id, j, p2);
    }
}

/// Round trip: an identity inserted without conflict is found again by
/// its id, by its username, and by each of its bound emails, identical
/// field for field.
pub proof fn lemma_identity_round_trip(s: Seq<IdentityV>, iv: IdentityV)
    requires
        !identity_conflict(s, iv),
    ensures
        identity_at(s.push(iv), identity_idx_by_id(s.push(iv), iv.id)) == Some(iv),
        iv.username matches Some(u) ==> identity_at(
            s.push(iv),
            identity_idx_by_username(s.push(iv), u),
        ) == Some(iv),
        forall|k: int|
            0 <= k < iv.emails.len() ==> identity_at(
                s.push(iv),
                identity_idx_by_email(s.push(iv), (#[trigger] iv.emails[k]).0),
            ) == Some(iv),
{
    let t = s.push(iv);
    let n = s.len() as int;
    lemma_identity_idx_by_id_from(s, 0, iv.id);
    assert forall|q: int| 0 <= q < n implies (#[trigger] t[q]).id != iv.id by {
        assert(t[q] == s[q]);
    }
    lemma_identity_idx_scan_id(t, 0, iv.id, n);
    if iv.username is Some {
        let u = iv.username->Some_0;
        lemma_identity_idx_by_username_from(s, 0, u);
        assert forall|q: int| 0 <= q < n implies (#[trigger] t[q]).username != Some(u) by {
            assert(t[q] == s[q]);
        }
        lemma_identity_idx_scan_username(t, 0, u, n);
    }
    assert forall|k: int| 0 <= k < iv.emails.len() implies identity_at(
        t,
        identity_idx_by_email(t, (#[trigger] iv.emails[k]).0),
    ) == Some(iv) by {
        let e = iv.emails[k].0;
        lemma_identity_idx_by_email_from(s, 0, e);
        assert forall|q: int| 0 <= q < n implies !has_email(#[trigger] t[q], e) by {
            assert(t[q] == s[q]);
        }
        assert(has_email(t[n], e));
        lemma_identity_idx_scan_email(t, 0, e, n);
    }
}

/// No identity other than the one at `j` has `email` bound.
pub open spec fn email_free_except(s: Seq<IdentityV>, email: Seq<char>, j: int) -> bool {
    forall|q: int| 0 <= q < s.len() && q != j ==> !has_email(#[trigger] s[q], email)
}

/// No identity other than the one at `j` holds `iv`'s username.
pub open spec fn username_free_except(s: Seq<IdentityV>, iv: IdentityV, j: int) -> bool {
    forall|q: int|
        0 <= q < s.len() && q != j ==> !(iv.username is Some && (#[trigger] s[q]).username
            == iv.username)
}

proof fn lemma_emails_disjoint_sym(a: IdentityV, b: IdentityV)
    requires
        emails_disjoint(a, b),
    ensures
        emails_disjoint(b, a),
{
    assert forall|k: int, l: int|
        0 <= k < b.emails.len() && 0 <= l < a.emails.len() implies (#[trigger] b.emails[k]).0 != (
    #[trigger] a.emails[l]).0 by {
        assert(a.emails[l].0 != b.emails[k].0);
    }
}

impl MemStorage {
    /// Replace the identity stored under `ident`'s id, re-checking that no
    /// other record holds its username or one of its emails. Writes
    /// nothing on any failure.
    pub fn put_identity(&mut self, ident: Identity) -> (r: Result<(), StorageError>)
        requires
            old(self).wf(),
            identity_wf(ident@),
        ensures
            final(self).wf(),
            match r {
                Ok(()) => identity_idx_by_id(old(self)@.identities, ident@.id) matches Some(j)
                    && !identity_conflict_except(old(self)@.identities, ident@, j) && final(self)@
                    == (StorageV {
                    identities: old(self)@.identities.update(j, ident@),
                    ..old(self)@
                }),
                Err(StorageError::Storage(LogicStorageError::NotFound(k))) => k@ == ident@.id
                    && identity_idx_by_id(old(self)@.identities, ident@.id) is None && final(self)@
                    == old(self)@,
                Err(StorageError::Storage(LogicStorageError::AlreadyExists(k))) => k@ == ident@.id
                    && identity_idx_by_id(old(self)@.identities, ident@.id) is Some
                    && identity_conflict_except(
                    old(self)@.identities,
                    ident@,
                    identity_idx_by_id(old(self)@.identities, ident@.id)->Some_0,
                ) && final(self)@ == old(self)@,
                _ => false,
            },
    {
        let ghost s = self@.identities;
        let j = match self.find_identity_by_id(ident.id.as_str()) {
            None => {
                return Err(StorageError::Storage(LogicStorageError::NotFound(ident.id.clone())));
            },
            Some(j) => j,
        };
        proof {
            lemma_identity_idx_by_id_from(s, 0, ident@.id);
        }
        match &ident.username {
            Some(u) => {
                match self.find_identity_by_username(u.as_str()) {
                    Some(q) => {
                        proof {
                            lemma_identity_idx_by_username_from(s, 0, u@);
                        }
                        if q != j {
                            proof {
                                assert(s[q as int].username == Some(u@));
                                assert(ident@.username == Some(u@));
                                assert(identity_conflict_except(s, ident@, j as int));
                            }
                            return Err(StorageError::Storage(
                                LogicStorageError::AlreadyExists(ident.id.clone()),
                            ));
                        }
                        proof {
                            assert forall|q2: int|
                                0 <= q2 < s.len() && q2 != j implies !(ident@.username is Some && (
                            #[trigger] s[q2]).username == ident@.username) by {
                                if s[q2].username == Some(u@) {
                                    assert(distinct_identities(s[q2], s[j as int]));
                                }
                            }
                            assert(username_free_except(s, ident@, j as int));
                        }
                    },
                    None => {
                        proof {
                            lemma_identity_idx_by_username_from(s, 0, u@);
                            assert(username_free_except(s, ident@, j as int));
                        }
                    },
                }
            },
            None => {
                proof {
                    assert(username_free_except(s, ident@, j as int));
                }
            },
        }
        let m = ident.emails.len();
        let mut k: usize = 0;
        while k < m
            invariant
                m == ident.emails.len(),
                k <= m,
                self@ == old(self)@,
                self.wf(),
                s == self@.identities,
                identity_idx_by_id(s, ident@.id) == Some(j as int),
                j < s.len(),
                s[j as int].id == ident@.id,
                username_free_except(s, ident@, j as int),
                forall|l: int|
                    0 <= l < k ==> email_free_except(s, (#[trigger] ident@.emails[l]).0, j as int),
            decreases m - k,
        {
            proof {
                assert(ident@.emails[k as int].0 == ident.emails@[k as int].0@);
            }
            match self.find_identity_by_email(ident.emails[k].0.as_str()) {
                Some(q) => {
                    proof {
                        lemma_identity_idx_by_email_from(s, 0, ident@.emails[k as int].0);
                    }
                    if q != j {
                        proof {
                            assert(has_email(s[q as int], ident@.emails[k as int].0));
                            assert(!emails_disjoint(ident@, s[q as int]));
                            assert(identity_conflict_except(s, ident@, j as int));
                        }
                        return Err(StorageError::Storage(
                            LogicStorageError::AlreadyExists(ident.id.clone()),
                        ));
                    }
                    proof {
                        let e = ident@.emails[k as int].0;
                        assert forall|q2: int|
                            0 <= q2 < s.len() && q2 != j implies !has_email(#[trigger] s[q2], e) by {
                            if has_email(s[q2], e) {
                                assert(distinct_identities(s[q2], s[j as int]));
                                let l1 = choose|l: int|
                                    0 <= l < s[q2].emails.len() && (#[trigger] s[q2].emails[l]).0
                                        == e;
                                let l2 = choose|l: int|
                                    0 <= l < s[j as int].emails.len() && (#[trigger] s[j as int].emails[l]).0
                                        == e;
                                assert(s[q2].emails[l1].0 == s[j as int].emails[l2].0);
                            }
                        }
                        assert(email_free_except(s, e, j as int));
                    }
                },
                None => {
                    proof {
                        let e = ident@.emails[k as int].0;
                        lemma_identity_idx_by_email_from(s, 0, e);
                        assert(email_free_except(s, e, j as int));
                    }
                },
            }
            k += 1;
        }
        proof {
            assert(!identity_conflict_except(s, ident@, j as int)) by {
                if identity_conflict_except(s, ident@, j as int) {
                    let q = choose|q: int|
                        0 <= q < s.len() && q != j && {
                            ||| (ident@.username is Some && (#[trigger] s[q]).username
                                == ident@.username)
                            ||| !emails_disjoint(ident@, s[q])
                        };
                    if ident@.username is Some && s[q].username == ident@.username {
                        assert(false);
                    } else {
                        let (k1, l1) = choose|k1: int, l1: int|
                            0 <= k1 < ident@.emails.len() && 0 <= l1 < s[q].emails.len() && (
                            #[trigger] ident@.emails[k1]).0 == (#[trigger] s[q].emails[l1]).0;
                        assert(has_email(s[q], ident@.emails[k1].0));
                        assert(email_free_except(s, ident@.emails[k1].0, j as int));
                        assert(false);
                    }
                }
            }
        }
        self.identities.set(j, ident);
        proof {
            assert(self@.identities =~= s.update(j as int, ident@));
            let ns = s.update(j as int, ident@);
            assert forall|i1: int, i2: int|
                0 <= i1 < ns.len() && 0 <= i2 < ns.len() && i1 != i2 implies distinct_identities(
                #[trigger] ns[i1],
                #[trigger] ns[i2],
            ) by {
                if i1 != j && i2 != j {
                    assert(distinct_identities(s[i1], s[i2]));
                } else if i1 == j {
                    assert(ns[i1] == ident@);
                    assert(s[i2].id != s[j as int].id) by {
                        assert(distinct_identities(s[i2], s[j as int]));
                    }
                    assert(emails_disjoint(ident@, s[i2]));
                    lemma_emails_disjoint_sym(ident@, s[i2]);
                    assert(distinct_identities(ns[i1], ns[i2]));
                } else {
                    assert(ns[i2] == ident@);
                    assert(s[i1].id != s[j as int].id) by {
                        assert(distinct_identities(s[i1], s[j as int]));
                    }
                    assert(emails_disjoint(ident@, s[i1]));
                    lemma_emails_disjoint_sym(ident@, s[i1]);
                    assert(distinct_identities(ns[i1], ns[i2]));
                }
            }
            assert(identities_wf(ns));
            assert(self@ =~= (StorageV { identities: ns, ..old(self)@ }));
        }
        Ok(())
    }

    /// Administrative hard delete of an identity record.
    pub fn delete_identity(&mut self, id: &str) -> (r: Result<(), StorageError>)
        requires
            old(self).wf(),
        ensures
            final(self).wf(),
            match r {
                Ok(()) => identity_idx_by_id(old(self)@.identities, id@) matches Some(j) && final(self)@ == (StorageV { identities: old(self)@.identities.remove(j), ..old(self)@ }),
                Err(StorageError::Storage(LogicStorageError::NotFound(k))) => k@ == id@
                    && identity_idx_by_id(old(self)@.identities, id@) is None && final(self)@
                    == old(self)@,
                _ => false,
            },
    {
        let ghost s = self@.identities;
        match self.find_identity_by_id(id) {
            None => Err(StorageError::Storage(LogicStorageError::NotFound(id.to_owned()))),
            Some(j) => {
                self.identities.remove(j);
                proof {
                    assert(self@.identities =~= s.remove(j as int));
                    let ns = s.remove(j as int);
                    assert forall|i1: int, i2: int|
                        0 <= i1 < ns.len() && 0 <= i2 < ns.len() && i1 != i2
                        implies distinct_identities(#[trigger] ns[i1], #[trigger] ns[i2]) by {
                        let o1: int = if i1 < j { i1 } else { i1 + 1 };
                        let o2: int = if i2 < j { i2 } else { i2 + 1 };
                        assert(ns[i1] == s[o1]);
                        assert(ns[i2] == s[o2]);
                        assert(distinct_identities(s[o1], s[o2]));
                    }
                    assert forall|i1: int| 0 <= i1 < ns.len() implies identity_wf(
                        #[trigger] ns[i1],
                    ) by {
                        let o1: int = if i1 < j { i1 } else { i1 + 1 };
                        assert(ns[i1] == s[o1]);
                    }
                    assert(identities_wf(ns));
                    assert(self@ =~= (StorageV { identities: ns, ..old(self)@ }));
                }
                Ok(())
            },
        }
    }

    /// Pure lookup of a process by id; returns a copy of the envelope.
    pub fn process_by_id(&self, id: &str) -> (r: Option<Process>)
        ensures
            view_opt(r) == process_lookup(self@.processes, id@),
    {
        match self.find_process(id) {
            Some(i) => {
                proof {
                    assert(self@.processes[i as int] == self.processes@[i as int]@);
                }
                Some(self.processes[i].clone())
            },
            None => None,
        }
    }

    /// Atomic check-and-insert of a new process under its id.
    pub fn create_process(&mut self, p: Process) -> (r: Result<(), StorageError>)
        requires
            old(self).wf(),
        ensures
            final(self).wf(),
            match r {
                Ok(()) => process_idx(old(self)@.processes, p@.id) is None && final(self)@ == (
                StorageV { processes: old(self)@.processes.push(p@), ..old(self)@ }),
                Err(StorageError::Storage(LogicStorageError::AlreadyExists(k))) => k@ == p@.id
                    && process_idx(old(self)@.processes, p@.id) is Some && final(self)@ == old(self)@,
                _ => false,
            },
    {
        let ghost s = self@.processes;
        if self.find_process(p.id.as_str()).is_some() {
            return Err(StorageError::Storage(LogicStorageError::AlreadyExists(p.id.clone())));
        }
        proof {
            lemma_process_idx_from(s, 0, p@.id);
        }
        self.processes.push(p);
        proof {
            assert(self@.processes =~= s.push(p@));
            assert(processes_wf(self@.processes));
            assert(self@ =~= (StorageV { processes: self@.processes, ..old(self)@ }));
        }
        Ok(())
    }

    /// The conditional completion primitive: set `completed_at` if and
    /// only if it is still unset, so at most one caller ever observes
    /// success. Reports `AlreadyExists` when the process is already
    /// completed and `NotFound` when it is absent.
    pub fn complete_process(&mut self, id: &str, now: i64) -> (r: Result<(), StorageError>)
        requires
            old(self).wf(),
        ensures
            final(self).wf(),
            match r {
                Ok(()) => process_idx(old(self)@.processes, id@) matches Some(j) && old(self)@.processes[j].completed_at is None && final(self)@ == (StorageV {
                    processes: old(self)@.processes.update(
                        j,
                        completed_process(old(self)@.processes[j], now),
                    ),
                    ..old(self)@
                }),
                Err(StorageError::Storage(LogicStorageError::AlreadyExists(k))) => k@ == id@
                    && (process_idx(old(self)@.processes, id@) matches Some(j) && old(self)@.processes[j].completed_at is Some) && final(self)@ == old(self)@,
                Err(StorageError::Storage(LogicStorageError::NotFound(k))) => k@ == id@
                    && process_idx(old(self)@.processes, id@) is None && final(self)@ == old(self)@,
                _ => false,
            },
    {
        let ghost s = self@.processes;
        match self.find_process(id) {
            None => Err(StorageError::Storage(LogicStorageError::NotFound(id.to_owned()))),
            Some(j) => {
                proof {
                    assert(self@.processes[j as int] == self.processes@[j as int]@);
                }
                if self.processes[j].completed_at.is_some() {
                    return Err(StorageError::Storage(
                        LogicStorageError::AlreadyExists(id.to_owned()),
                    ));
                }
                let mut p = self.processes[j].clone();
                p.completed_at = Some(now);
                proof {
                    assert(p@ =~= completed_process(s[j as int], now));
                }
                self.processes.set(j, p);
                proof {
                    let ns = s.update(j as int, completed_process(s[j as int], now));
                    assert(self@.processes =~= ns);
                    assert forall|i1: int, i2: int|
                        0 <= i1 < ns.len() && 0 <= i2 < ns.len() && i1 != i2 implies (
                    #[trigger] ns[i1]).id != (#[trigger] ns[i2]).id by {
                        assert(s[i1].id != s[i2].id);
                    }
                    assert(processes_wf(ns));
                    assert(self@ =~= (StorageV { processes: ns, ..old(self)@ }));
                }
                Ok(())
            },
        }
    }

    /// Pure lookup of a session by id; returns a copy of the handle.
    pub fn session_by_id(&self, id: &str) -> (r: Option<Session>)
        ensures
            view_opt(r) == session_lookup(self@.sessions, id@),
    {
        match self.find_session(id) {
            Some(i) => {
                proof {
                    assert(self@.sessions[i as int] == self.sessions@[i as int]@);
                }
                Some(self.sessions[i].clone())
            },
            None => None,
        }
    }

    /// Atomic check-and-insert of a new session under its id.
    pub fn create_session(&mut self, s: Session) -> (r: Result<(), StorageError>)
        requires
            old(self).wf(),
        ensures
            final(self).wf(),
            match r {
                Ok(()) => session_idx(old(self)@.sessions, s@.id) is None && final(self)@ == (
                StorageV { sessions: old(self)@.sessions.push(s@), ..old(self)@ }),
                Err(StorageError::Storage(LogicStorageError::AlreadyExists(k))) => k@ == s@.id
                    && session_idx(old(self)@.sessions, s@.id) is Some && final(self)@ == old(self)@,
                _ => false,
            },
    {
        let ghost sv = self@.sessions;
        if self.find_session(s.id.as_str()).is_some() {
            return Err(StorageError::Storage(LogicStorageError::AlreadyExists(s.id.clone())));
        }
        proof {
            lemma_session_idx_from(sv, 0, s@.id);
        }
        self.sessions.push(s);
        proof {
            assert(self@.sessions =~= sv.push(s@));
            assert(sessions_wf(self@.sessions));
            assert(self@ =~= (StorageV { sessions: self@.sessions, ..old(self)@ }));
        }
        Ok(())
    }

    /// Remove a session, ending its validity.
    pub fn invalidate_session(&mut self, id: &str) -> (r: Result<(), StorageError>)
        requires
            old(self).wf(),
        ensures
            final(self).wf(),
            match r {
                Ok(()) => session_idx(old(self)@.sessions, id@) matches Some(j) && final(self)@
                    == (StorageV { sessions: old(self)@.sessions.remove(j), ..old(self)@ }),
                Err(StorageError::Storage(LogicStorageError::NotFound(k))) => k@ == id@
                    && session_idx(old(self)@.sessions, id@) is None && final(self)@ == old(self)@,
                _ => false,
            },
    {
        let ghost sv = self@.sessions;
        match self.find_session(id) {
            None => Err(StorageError::Storage(LogicStorageError::NotFound(id.to_owned()))),
            Some(j) => {
                self.sessions.remove(j);
                proof {
                    let ns = sv.remove(j as int);
                    assert(self@.sessions =~= ns);
                    assert forall|i1: int, i2: int|
                        0 <= i1 < ns.len() && 0 <= i2 < ns.len() && i1 != i2 implies (
                    #[trigger] ns[i1]).id != (#[trigger] ns[i2]).id by {
                        let o1: int = if i1 < j { i1 } else { i1 + 1 };
                        let o2: int = if i2 < j { i2 } else { i2 + 1 };
                        assert(ns[i1] == sv[o1]);
                        assert(ns[i2] == sv[o2]);
                    }
                    assert(sessions_wf(ns));
                    assert(self@ =~= (StorageV { sessions: ns, ..old(self)@ }));
                }
                Ok(())
            },
        }
    }

    /// Record one failed one-time-code attempt on a login process,
    /// moving its bounded counter up by one. A completed process is
    /// terminal and is never touched.
    pub fn record_otp_failure(&mut self, id: &str) -> (r: Result<(), StorageError>)
        requires
            old(self).wf(),
        ensures
            final(self).wf(),
            match r {
                Ok(()) => process_idx(old(self)@.processes, id@) matches Some(j) && old(
                    self,
                )@.processes[j].payload is Login && old(self)@.processes[j].completed_at is None
                    && final(self)@ == (StorageV {
                    processes: old(self)@.processes.update(
                        j,
                        otp_failed_process(old(self)@.processes[j]),
                    ),
                    ..old(self)@
                }),
                Err(StorageError::Storage(LogicStorageError::NotFound(k))) => k@ == id@
                    && process_idx(old(self)@.processes, id@) is None && final(self)@ == old(
                    self,
                )@,
                Err(StorageError::Storage(LogicStorageError::AlreadyExists(k))) => k@ == id@ && (
                process_idx(old(self)@.processes, id@) matches Some(j) && old(
                    self,
                )@.processes[j].completed_at is Some) && final(self)@ == old(self)@,
                Err(StorageError::Storage(LogicStorageError::Unknown)) => (process_idx(
                    old(self)@.processes,
                    id@,
                ) matches Some(j) && old(self)@.processes[j].completed_at is None && old(
                    self,
                )@.processes[j].payload is Signup) && final(self)@ == old(self)@,
                _ => false,
            },
    {
        let ghost s = self@.processes;
        match self.find_process(id) {
            None => Err(StorageError::Storage(LogicStorageError::NotFound(id.to_owned()))),
            Some(j) => {
                proof {
                    assert(self@.processes[j as int] == self.processes@[j as int]@);
                }
                if self.processes[j].completed_at.is_some() {
                    return Err(StorageError::Storage(
                        LogicStorageError::AlreadyExists(id.to_owned()),
                    ));
                }
                let p0 = self.processes[j].clone();
                match p0.payload {
                    ProcessPayload::Signup(_) => Err(
                        StorageError::Storage(LogicStorageError::Unknown),
                    ),
                    ProcessPayload::Login(lp) => {
                        let attempts = if lp.otp_attempts < u32::MAX {
                            lp.otp_attempts + 1
                        } else {
                            lp.otp_attempts
                        };
                        let np = Process {
                            id: p0.id,
                            created_at: p0.created_at,
                            expires_at: p0.expires_at,
                            completed_at: p0.completed_at,
                            payload: ProcessPayload::Login(
                                LoginPayload { otp_attempts: attempts, ..lp },
                            ),
                        };
                        proof {
                            assert(np@ =~~= otp_failed_process(s[j as int]));
                        }
                        self.processes.set(j, np);
                        proof {
                            let ns = s.update(j as int, otp_failed_process(s[j as int]));
                            assert(self@.processes =~= ns);
                            assert forall|i1: int, i2: int|
                                0 <= i1 < ns.len() && 0 <= i2 < ns.len() && i1 != i2 implies (
                            #[trigger] ns[i1]).id != (#[trigger] ns[i2]).id by {
                                assert(s[i1].id != s[i2].id);
                            }
                            assert(processes_wf(ns));
                            assert(self@ =~= (StorageV { processes: ns, ..old(self)@ }));
                        }
                        Ok(())
                    },
                }
            },
        }
    }

    /// The atomic transition that finishes a signup: mark the process
    /// completed and insert the new identity as one storage transaction,
    /// so no identity is ever created against a process that can still be
    /// replayed, and no process is marked complete without its identity
    /// existing. Fails without writing if the process is absent or already
    /// completed, or if the identity would violate a uniqueness rule.
    pub fn complete_process_and_create_identity(
        &mut self,
        process_id: &str,
        now: i64,
        ident: Identity,
    ) -> (r: Result<(), StorageError>)
        requires
            old(self).wf(),
            identity_wf(ident@),
        ensures
            final(self).wf(),
            match r {
                Ok(()) => process_idx(old(self)@.processes, process_id@) matches Some(j) && old(self)@.processes[j].completed_at is None && !identity_conflict(
                    old(self)@.identities,
                    ident@,
                ) && final(self)@ == (StorageV {
                    processes: old(self)@.processes.update(
                        j,
                        completed_process(old(self)@.processes[j], now),
                    ),
                    identities: old(self)@.identities.push(ident@),
                    ..old(self)@
                }),
                Err(StorageError::Storage(LogicStorageError::NotFound(k))) => k@ == process_id@
                    && process_idx(old(self)@.processes, process_id@) is None && final(self)@
                    == old(self)@,
                Err(StorageError::Storage(LogicStorageError::AlreadyExists(k))) => final(self)@
                    == old(self)@ && (process_idx(old(self)@.processes, process_id@) matches Some(j) && {
                    ||| (old(self)@.processes[j].completed_at is Some && k@ == process_id@)
                    ||| (old(self)@.processes[j].completed_at is None && identity_conflict(
                        old(self)@.identities,
                        ident@,
                    ) && k@ == ident@.id)
                }),
                _ => false,
            },
    {
        let ghost s = self@.processes;
        match self.find_process(process_id) {
            None => Err(StorageError::Storage(LogicStorageError::NotFound(
                process_id.to_owned(),
            ))),
            Some(j) => {
                proof {
                    assert(self@.processes[j as int] == self.processes@[j as int]@);
                }
                if self.processes[j].completed_at.is_some() {
                    return Err(StorageError::Storage(
                        LogicStorageError::AlreadyExists(process_id.to_owned()),
                    ));
                }
                match self.create_identity(ident) {
                    Err(e) => Err(e),
                    Ok(()) => {
                        proof {
                            assert(self@.processes == s);
                        }
                        let mut p = self.processes[j].clone();
                        p.completed_at = Some(now);
                        proof {
                            assert(self@.processes[j as int] == self.processes@[j as int]@);
                            assert(p@ =~= completed_process(s[j as int], now));
                        }
                        self.processes.set(j, p);
                        proof {
                            let ns = s.update(j as int, completed_process(s[j as int], now));
                            assert(self@.processes =~= ns);
                            assert forall|i1: int, i2: int|
                                0 <= i1 < ns.len() && 0 <= i2 < ns.len() && i1 != i2 implies (
                            #[trigger] ns[i1]).id != (#[trigger] ns[i2]).id by {
                                assert(s[i1].id != s[i2].id);
                            }
                            assert(processes_wf(ns));
                            assert(self@ =~= (StorageV {
                                processes: ns,
                                identities: old(self)@.identities.push(
                                    self@.identities.last(),
                                ),
                                ..old(self)@
                            }));
                        }
                        Ok(())
                    },
                }
            },
        }
    }

    /// The atomic transition that finishes a login: mark the process
    /// completed and insert the new session as one storage transaction.
    /// Fails without writing if the process is absent or already
    /// completed, or if the session id is taken.
    pub fn complete_process_and_create_session(
        &mut self,
        process_id: &str,
        now: i64,
        session: Session,
    ) -> (r: Result<(), StorageError>)
        requires
            old(self).wf(),
        ensures
            final(self).wf(),
            match r {
                Ok(()) => process_idx(old(self)@.processes, process_id@) matches Some(j) && old(self)@.processes[j].completed_at is None && session_idx(
                    old(self)@.sessions,
                    session@.id,
                ) is None && final(self)@ == (StorageV {
                    processes: old(self)@.processes.update(
                        j,
                        completed_process(old(self)@.processes[j], now),
                    ),
                    sessions: old(self)@.sessions.push(session@),
                    ..old(self)@
                }),
                Err(StorageError::Storage(LogicStorageError::NotFound(k))) => k@ == process_id@
                    && process_idx(old(self)@.processes, process_id@) is None && final(self)@
                    == old(self)@,
                Err(StorageError::Storage(LogicStorageError::AlreadyExists(k))) => final(self)@
                    == old(self)@ && (process_idx(old(self)@.processes, process_id@) matches Some(j) && {
                    ||| (old(self)@.processes[j].completed_at is Some && k@ == process_id@)
                    ||| (old(self)@.processes[j].completed_at is None && session_idx(
                        old(self)@.sessions,
                        session@.id,
                    ) is Some && k@ == session@.id)
                }),
                _ => false,
            },
    {
        let ghost s = self@.processes;
        match self.find_process(process_id) {
            None => Err(StorageError::Storage(LogicStorageError::NotFound(
                process_id.to_owned(),
            ))),
            Some(j) => {
                proof {
                    assert(self@.processes[j as int] == self.processes@[j as int]@);
                }
                if self.processes[j].completed_at.is_some() {
                    return Err(StorageError::Storage(
                        LogicStorageError::AlreadyExists(process_id.to_owned()),
                    ));
                }
                match self.create_session(session) {
                    Err(e) => Err(e),
                    Ok(()) => {
                        proof {
                            assert(self@.processes == s);
                        }
                        let mut p = self.processes[j].clone();
                        p.completed_at = Some(now);
                        proof {
                            assert(self@.processes[j as int] == self.processes@[j as int]@);
                            assert(p@ =~= completed_process(s[j as int], now));
                        }
                        self.processes.set(j, p);
                        proof {
                            let ns = s.update(j as int, completed_process(s[j as int], now));
                            assert(self@.processes =~= ns);
                            assert forall|i1: int, i2: int|
                                0 <= i1 < ns.len() && 0 <= i2 < ns.len() && i1 != i2 implies (
                            #[trigger] ns[i1]).id != (#[trigger] ns[i2]).id by {
                                assert(s[i1].id != s[i2].id);
                            }
                            assert(processes_wf(ns));
                            assert(self@ =~= (StorageV {
                                processes: ns,
                                sessions: old(self)@.sessions.push(self@.sessions.last()),
                                ..old(self)@
                            }));
                        }
                        Ok(())
                    },
                }
            },
        }
    }
}

} // verus!
