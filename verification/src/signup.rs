//! The signup flow engine: a process is created Pending by an init call,
//! bound to a device and an expiry, and transitions at most once to
//! Completed, producing exactly one new identity in the same atomic
//! storage transaction.
use vstd::prelude::*;

use crate::config::{Configuration, ConfigurationV, IdentityConfig};
use crate::models;
use crate::models::{
    opt_view, str_eq, IdentityEmail, IdentityV, Process, ProcessPayload, ProcessPayloadV, ProcessV,
    SignupPayload, SignupPayloadV,
};
use crate::storage::{
    completed_process, identity_conflict, identity_wf, lemma_process_idx_from,
    lemma_process_idx_update_same_id, process_idx, process_lookup, MemStorage, StorageV,
};
use crate::validate::{is_valid_id, valid_id};

verus! {

/// What a signup operation can report. `MalformedDeviceId` is the
/// validation-tier report for a device id that fails its shape check,
/// distinct from `InvalidDeviceId`, the logic-tier report for a device
/// that does not match the one recorded at init.
#[derive(Clone, Copy, PartialEq, Eq, Debug)]
pub enum SignupError {
    Unknown,
    ProcessNotFound,
    ProcessExpired,
    ProcessAlreadyCompleted,
    MalformedDeviceId,
    InvalidDeviceId,
    InvalidEmail,
    InvalidPassword,
    InvalidUsername,
    UserAlreadyExists,
}

/// The validation and uniqueness cascade an init call runs before it
/// writes anything, in order: device-id shape, email presence and
/// freshness when policy signs up by email, username presence and
/// freshness when policy requires one, and expiry arithmetic.
pub open spec fn init_check(
    cfg: IdentityConfig,
    username: Option<Seq<char>>,
    email: Option<Seq<char>>,
    device_id: Seq<char>,
    identities: Seq<IdentityV>,
    now: i64,
) -> Option<SignupError> {
    if !valid_id(device_id) {
        Some(SignupError::MalformedDeviceId)
    } else if cfg.signup_with_email && email is None {
        Some(SignupError::InvalidEmail)
    } else if cfg.signup_with_email && crate::storage::identity_idx_by_email(
        identities,
        email->Some_0,
    ) is Some {
        Some(SignupError::UserAlreadyExists)
    } else if cfg.signup_require_username && username is None {
        Some(SignupError::InvalidUsername)
    } else if cfg.signup_require_username && crate::storage::identity_idx_by_username(
        identities,
        username->Some_0,
    ) is Some {
        Some(SignupError::UserAlreadyExists)
    } else if now + cfg.signup_process_lifetime > i64::MAX || now + cfg.signup_process_lifetime
        < i64::MIN {
        Some(SignupError::Unknown)
    } else {
        None
    }
}

/// The Pending process an init call builds: expiry at `now` plus the
/// configured lifetime, no completion, the email marked unverified.
pub open spec fn signup_process_view(
    username: Option<Seq<char>>,
    email: Option<Seq<char>>,
    device_id: Seq<char>,
    now: i64,
    process_id: Seq<char>,
    lifetime: i64,
) -> ProcessV {
    ProcessV {
        id: process_id,
        created_at: now,
        expires_at: (now + lifetime) as i64,
        completed_at: None,
        payload: ProcessPayloadV::Signup(
            SignupPayloadV {
                device_id,
                username,
                email: match email {
                    Some(e) => Some((e, IdentityEmail { verified: false, verified_at: None })),
                    None => None,
                },
            },
        ),
    }
}

/// The precondition cascade of a finish call, in order: the process must
/// exist and be a signup process, the device must match the one recorded
/// at init, the expiry must not have passed, and the process must not be
/// completed.
pub open spec fn finish_check(
    processes: Seq<ProcessV>,
    process_id: Seq<char>,
    device_id: Seq<char>,
    now: i64,
) -> Option<SignupError> {
    match process_lookup(processes, process_id) {
        None => Some(SignupError::ProcessNotFound),
        Some(p) => match p.payload {
            ProcessPayloadV::Login(_) => Some(SignupError::ProcessNotFound),
            ProcessPayloadV::Signup(sp) => if sp.device_id != device_id {
                Some(SignupError::InvalidDeviceId)
            } else if p.expires_at < now {
                Some(SignupError::ProcessExpired)
            } else if p.completed_at is Some {
                Some(SignupError::ProcessAlreadyCompleted)
            } else {
                None
            },
        },
    }
}

/// The identity a successful finish builds from the process payload: a
/// fresh id distinct from the process id, the payload's username and
/// email, the given password hash, both timestamps at `now`.
pub open spec fn finished_identity_view(
    sp: SignupPayloadV,
    password_hash: Seq<char>,
    now: i64,
    new_id: Seq<char>,
) -> IdentityV {
    IdentityV {
        id: new_id,
        username: sp.username,
        first_name: None,
        last_name: None,
        emails: match sp.email {
            Some(e) => seq![e],
            None => Seq::empty(),
        },
        linked_accounts: Seq::empty(),
        password_hash: Some(password_hash),
        created_at: now,
        updated_at: now,
    }
}

/// Single completion: once a finish has gone through at `now1`, a second
/// finish of the same process — same device, at any instant not past the
/// expiry — fails with `ProcessAlreadyCompleted`.
pub proof fn lemma_finish_single_completion(
    processes: Seq<ProcessV>,
    process_id: Seq<char>,
    device_id: Seq<char>,
    now1: i64,
    now2: i64,
)
    requires
        finish_check(processes, process_id, device_id, now1) is None,
        now2 <= process_lookup(processes, process_id)->Some_0.expires_at,
    ensures
        finish_check(
            processes.update(
                process_idx(processes, process_id)->Some_0,
                completed_process(process_lookup(processes, process_id)->Some_0, now1),
            ),
            process_id,
            device_id,
            now2,
        ) == Some(SignupError::ProcessAlreadyCompleted),
{
    let j = process_idx(processes, process_id)->Some_0;
    lemma_process_idx_from(processes, 0, process_id);
    let p2 = completed_process(processes[j], now1);
    lemma_process_idx_update_same_id(processes, 0, process_id, j, p2);
    assert(process_lookup(processes.update(j, p2), process_id) == Some(p2));
}

/// The signup flow engine: a configuration snapshot and the storage
/// handle.
pub struct Signup {
    config: Configuration,
    storage: MemStorage,
}

impl Signup {
    /// The configuration snapshot the engine was built with.
    pub closed spec fn cfg(&self) -> ConfigurationV {
        self.config@
    }

    /// The storage state behind the engine.
    pub closed spec fn store(&self) -> StorageV {
        self.storage@
    }

    /// The engine invariant: the storage uniqueness invariant holds.
    pub closed spec fn wf(&self) -> bool {
        self.storage.wf()
    }

    /// Build the engine over a configuration snapshot and a storage
    /// handle.
    pub fn new(config: Configuration, storage: MemStorage) -> (r: Self)
        ensures
            r.cfg() == config@,
            r.store() == storage@,
            storage.wf() ==> r.wf(),
    {
        Signup { config, storage }
    }

    /// A copy of the configuration snapshot.
    pub fn get_config(&self) -> (c: Configuration)
        ensures
            c@ == self.cfg(),
    {
        self.config.clone()
    }

    /// Borrow the storage handle, for read-only inspection.
    pub fn storage(&self) -> (r: &MemStorage)
        ensures
            r@ == self.store(),
            self.wf() ==> r.wf(),
    {
        &self.storage
    }

    /// Hand the parts back, for passing the storage on to another engine.
    pub fn into_parts(self) -> (r: (Configuration, MemStorage))
        ensures
            r.0@ == self.cfg(),
            r.1@ == self.store(),
            self.wf() ==> r.1.wf(),
    {
        (self.config, self.storage)
    }

    /// Deterministic core of signup init: run the validation cascade
    /// against policy, build the Pending process for the given instant
    /// and fresh process id, and persist it with the create-exclusive
    /// primitive. Writes nothing on any failure.
    pub fn init_signup_process_with(
        &mut self,
        username: Option<String>,
        email: Option<String>,
        device_id: &str,
        now: i64,
        process_id: String,
    ) -> (r: Result<Process, SignupError>)
        requires
            old(self).wf(),
        ensures
            final(self).wf(),
            final(self).cfg() == old(self).cfg(),
            match r {
                Ok(p) => {
                    &&& init_check(
                        old(self).cfg().identity,
                        opt_view(username),
                        opt_view(email),
                        device_id@,
                        old(self).store().identities,
                        now,
                    ) is None
                    &&& p@ == signup_process_view(
                        opt_view(username),
                        opt_view(email),
                        device_id@,
                        now,
                        process_id@,
                        old(self).cfg().identity.signup_process_lifetime,
                    )
                    &&& process_idx(old(self).store().processes, process_id@) is None
                    &&& final(self).store() == (StorageV {
                        processes: old(self).store().processes.push(p@),
                        ..old(self).store()
                    })
                },
                Err(e) => final(self).store() == old(self).store() && {
                    ||| init_check(
                        old(self).cfg().identity,
                        opt_view(username),
                        opt_view(email),
                        device_id@,
                        old(self).store().identities,
                        now,
                    ) == Some(e)
                    ||| (e == SignupError::Unknown && init_check(
                        old(self).cfg().identity,
                        opt_view(username),
                        opt_view(email),
                        device_id@,
                        old(self).store().identities,
                        now,
                    ) is None && process_idx(
                        old(self).store().processes,
                        process_id@,
                    ) is Some)
                },
            },
    {
        if !is_valid_id(device_id) {
            return Err(SignupError::MalformedDeviceId);
        }
        if self.config.identity.signup_with_email {
            match &email {
                None => {
                    return Err(SignupError::InvalidEmail);
                },
                Some(e) => {
                    if self.storage.identity_by_email(e.as_str()).is_some() {
                        return Err(SignupError::UserAlreadyExists);
                    }
                },
            }
        }
        if self.config.identity.signup_require_username {
            match &username {
                None => {
                    return Err(SignupError::InvalidUsername);
                },
                Some(u) => {
                    if self.storage.identity_by_username(u.as_str()).is_some() {
                        return Err(SignupError::UserAlreadyExists);
                    }
                },
            }
        }
        let expires_at = match now.checked_add(self.config.identity.signup_process_lifetime) {
            Some(t) => t,
            None => {
                return Err(SignupError::Unknown);
            },
        };
        let payload = SignupPayload {
            device_id: device_id.to_owned(),
            username,
            email: match email {
                Some(e) => Some((e, IdentityEmail { verified: false, verified_at: None })),
                None => None,
            },
        };
        let process = Process {
            id: process_id,
            created_at: now,
            expires_at,
            completed_at: None,
            payload: ProcessPayload::Signup(payload),
        };
        let ret = process.clone();
        match self.storage.create_process(process) {
            Ok(()) => {
                proof {
                    assert(ret@ =~= signup_process_view(
                        opt_view(username),
                        opt_view(email),
                        device_id@,
                        now,
                        ret@.id,
                        old(self).cfg().identity.signup_process_lifetime,
                    ));
                }
                Ok(ret)
            },
            Err(_) => Err(SignupError::Unknown),
        }
    }

    /// Create a Pending signup process for the clock's current instant
    /// under a freshly drawn process id, and return the envelope as an
    /// opaque continuation token.
    pub fn init_signup_process(
        &mut self,
        username: Option<String>,
        email: Option<String>,
        device_id: &str,
    ) -> (r: Result<Process, SignupError>)
        requires
            old(self).wf(),
        ensures
            final(self).wf(),
            final(self).cfg() == old(self).cfg(),
            match r {
                Ok(p) => {
                    &&& p@.completed_at is None
                    &&& p@.expires_at == p@.created_at
                        + old(self).cfg().identity.signup_process_lifetime
                    &&& p@.payload == ProcessPayloadV::Signup(
                        SignupPayloadV {
                            device_id: device_id@,
                            username: opt_view(username),
                            email: match opt_view(email) {
                                Some(e) => Some(
                                    (e, IdentityEmail { verified: false, verified_at: None }),
                                ),
                                None => None,
                            },
                        },
                    )
                    &&& final(self).store() == (StorageV {
                        processes: old(self).store().processes.push(p@),
                        ..old(self).store()
                    })
                },
                Err(e) => final(self).store() == old(self).store() && match e {
                    SignupError::MalformedDeviceId => !valid_id(device_id@),
                    SignupError::InvalidEmail => old(self).cfg().identity.signup_with_email
                        && opt_view(email) is None,
                    SignupError::InvalidUsername => old(
                        self,
                    ).cfg().identity.signup_require_username && opt_view(username) is None,
                    SignupError::UserAlreadyExists => (old(
                        self,
                    ).cfg().identity.signup_with_email && (opt_view(email) matches Some(e2)
                        && crate::storage::identity_idx_by_email(
                        old(self).store().identities,
                        e2,
                    ) is Some)) || (old(self).cfg().identity.signup_require_username && (opt_view(
                        username,
                    ) matches Some(u2) && crate::storage::identity_idx_by_username(
                        old(self).store().identities,
                        u2,
                    ) is Some)),
                    _ => true,
                },
            },
    {
        let now = crate::clock::now_timestamp();
        let process_id = crate::random::secure_random_id();
        self.init_signup_process_with(username, email, device_id, now, process_id)
    }

    /// Deterministic core of signup finish: run the precondition cascade,
    /// build the new identity from the payload and the given password
    /// hash under the given fresh id, and atomically mark the process
    /// completed in the same transaction that persists the identity. The
    /// init-time uniqueness checks were a fast-path reject only; the
    /// authoritative re-check happens at this write and surfaces as a
    /// duplicate-user error. Writes nothing on any failure.
    pub fn finish_signup_process_with(
        &mut self,
        password_hash: String,
        process_id: &str,
        device_id: &str,
        now: i64,
        new_id: String,
    ) -> (r: Result<models::Identity, SignupError>)
        requires
            old(self).wf(),
        ensures
            final(self).wf(),
            final(self).cfg() == old(self).cfg(),
            match r {
                Ok(ident) => {
                    &&& finish_check(
                        old(self).store().processes,
                        process_id@,
                        device_id@,
                        now,
                    ) is None
                    &&& ident@ == finished_identity_view(
                        process_lookup(
                            old(self).store().processes,
                            process_id@,
                        )->Some_0.payload->Signup_0,
                        password_hash@,
                        now,
                        new_id@,
                    )
                    &&& !identity_conflict(old(self).store().identities, ident@)
                    &&& process_idx(old(self).store().processes, process_id@) matches Some(j)
                        && final(self).store() == (StorageV {
                        processes: old(self).store().processes.update(
                            j,
                            completed_process(old(self).store().processes[j], now),
                        ),
                        identities: old(self).store().identities.push(ident@),
                        ..old(self).store()
                    })
                },
                Err(e) => final(self).store() == old(self).store() && {
                    ||| finish_check(old(self).store().processes, process_id@, device_id@, now)
                        == Some(e)
                    ||| (e == SignupError::UserAlreadyExists && finish_check(
                        old(self).store().processes,
                        process_id@,
                        device_id@,
                        now,
                    ) is None && identity_conflict(
                        old(self).store().identities,
                        finished_identity_view(
                            process_lookup(
                                old(self).store().processes,
                                process_id@,
                            )->Some_0.payload->Signup_0,
                            password_hash@,
                            now,
                            new_id@,
                        ),
                    ))
                },
            },
    {
        let p = match self.storage.process_by_id(process_id) {
            None => {
                return Err(SignupError::ProcessNotFound);
            },
            Some(p) => p,
        };
        let sp = match p.payload {
            ProcessPayload::Signup(sp) => sp,
            ProcessPayload::Login(_) => {
                return Err(SignupError::ProcessNotFound);
            },
        };
        if !str_eq(sp.device_id.as_str(), device_id) {
            return Err(SignupError::InvalidDeviceId);
        }
        if p.expires_at < now {
            return Err(SignupError::ProcessExpired);
        }
        if p.completed_at.is_some() {
            return Err(SignupError::ProcessAlreadyCompleted);
        }
        let mut emails: Vec<(String, IdentityEmail)> = Vec::new();
        match sp.email {
            Some(e) => {
                emails.push(e);
            },
            None => {},
        }
        let ident = models::Identity {
            id: new_id,
            username: sp.username,
            first_name: None,
            last_name: None,
            emails,
            linked_accounts: Vec::new(),
            password_hash: Some(password_hash),
            created_at: now,
            updated_at: now,
        };
        proof {
            assert(ident@.emails =~= finished_identity_view(
                process_lookup(old(self).store().processes, process_id@)->Some_0.payload->Signup_0,
                password_hash@,
                now,
                ident@.id,
            ).emails);
            assert(ident@.linked_accounts =~= Seq::<(Seq<char>, Seq<char>)>::empty());
            assert(ident@ =~= finished_identity_view(
                process_lookup(old(self).store().processes, process_id@)->Some_0.payload->Signup_0,
                password_hash@,
                now,
                ident@.id,
            ));
            assert(identity_wf(ident@));
        }
        let ret = ident.clone();
        match self.storage.complete_process_and_create_identity(process_id, now, ident) {
            Ok(()) => Ok(ret),
            Err(_) => Err(SignupError::UserAlreadyExists),
        }
    }

    /// Finish a signup at the clock's current instant: hash the password
    /// through the opaque hashing collaborator, draw a fresh identity id,
    /// and run the deterministic core. On success the returned identity
    /// carries a hash that verifies against the submitted password and
    /// is not the plaintext.
    pub fn finish_signup_process(
        &mut self,
        password: &str,
        process_id: &str,
        device_id: &str,
    ) -> (r: Result<models::Identity, SignupError>)
        requires
            old(self).wf(),
        ensures
            final(self).wf(),
            final(self).cfg() == old(self).cfg(),
            match r {
                Ok(ident) => {
                    &&& ident@.password_hash matches Some(h) && h.len() > 0 && h[0] == '$'
                        && crate::hash::password_matches(h, password@)
                    &&& final(self).store().identities == old(self).store().identities.push(
                        ident@,
                    )
                    &&& process_lookup(old(self).store().processes, process_id@) matches Some(op)
                        && op.payload matches ProcessPayloadV::Signup(sp) && ident@.username
                        == sp.username && ident@.emails == (match sp.email {
                        Some(e) => seq![e],
                        None => Seq::<(Seq<char>, IdentityEmail)>::empty(),
                    })
                    &&& process_lookup(final(self).store().processes, process_id@) matches Some(p)
                        && p.completed_at is Some
                },
                Err(e) => final(self).store() == old(self).store() && match e {
                    SignupError::ProcessNotFound => match process_lookup(
                        old(self).store().processes,
                        process_id@,
                    ) {
                        None => true,
                        Some(p) => p.payload is Login,
                    },
                    SignupError::InvalidDeviceId => process_lookup(
                        old(self).store().processes,
                        process_id@,
                    ) matches Some(p) && (p.payload matches ProcessPayloadV::Signup(sp)
                        && sp.device_id != device_id@),
                    SignupError::ProcessAlreadyCompleted => process_lookup(
                        old(self).store().processes,
                        process_id@,
                    ) matches Some(p) && p.completed_at is Some,
                    _ => true,
                },
            },
    {
        let now = crate::clock::now_timestamp();
        let password_hash = match crate::hash::password(password) {
            Some(h) => h,
            None => {
                return Err(SignupError::Unknown);
            },
        };
        let new_id = crate::random::secure_random_id();
        let r = self.finish_signup_process_with(password_hash, process_id, device_id, now, new_id);
        proof {
            if r is Ok {
                let j = process_idx(old(self).store().processes, process_id@)->Some_0;
                lemma_process_idx_from(old(self).store().processes, 0, process_id@);
                lemma_process_idx_update_same_id(
                    old(self).store().processes,
                    0,
                    process_id@,
                    j,
                    completed_process(old(self).store().processes[j], now),
                );
            }
        }
        r
    }
}

} // verus!
