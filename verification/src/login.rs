//! The login flow engine: the same envelope and state shape as signup,
//! with three completion paths — password, magic link and one-time code —
//! that share one precondition cascade and diverge only in credential
//! verification. A successful completion produces an authenticated
//! session handle in the same atomic transaction that marks the process
//! completed.
use vstd::prelude::*;

use crate::config::{Configuration, ConfigurationV, IdentityConfig};
use crate::hash::password_matches;
use crate::identity::contains_at;
use crate::models::{
    str_eq, IdentityV, LoginMethod, LoginPayload, LoginPayloadV, Process, ProcessPayload,
    ProcessPayloadV, ProcessV, Session, SessionV,
};
use crate::storage::{
    completed_process, identity_at, identity_idx_by_email, identity_idx_by_username,
    otp_failed_process, process_idx, process_lookup, session_idx, MemStorage, StorageV,
};
use crate::validate::{is_valid_id, valid_id};

verus! {

/// What a login operation can report. `MalformedDeviceId` is the
/// validation-tier report for a device id that fails its shape check,
/// distinct from `InvalidDeviceId`, the logic-tier report for a device
/// that does not match the one recorded at init.
#[derive(Clone, Copy, PartialEq, Eq, Debug)]
pub enum LoginError {
    Unknown,
    ProcessNotFound,
    ProcessExpired,
    ProcessAlreadyCompleted,
    MalformedDeviceId,
    InvalidDeviceId,
    MethodNotAllowed,
    InvalidCredentials,
    OtpAttemptsExceeded,
}

/// The identity designated by a login identifier: everything with an `@`
/// is looked up as an email, everything else as a username.
pub open spec fn identity_for_identifier(
    identities: Seq<IdentityV>,
    identifier: Seq<char>,
) -> Option<IdentityV> {
    if identifier.contains('@') {
        identity_at(identities, identity_idx_by_email(identities, identifier))
    } else {
        identity_at(identities, identity_idx_by_username(identities, identifier))
    }
}

/// The validation cascade a login init runs before it writes anything:
/// device-id shape, the policy toggle for the identifier's kind, and
/// expiry arithmetic.
pub open spec fn login_init_check(
    cfg: IdentityConfig,
    identifier: Seq<char>,
    device_id: Seq<char>,
    now: i64,
) -> Option<LoginError> {
    if !valid_id(device_id) {
        Some(LoginError::MalformedDeviceId)
    } else if identifier.contains('@') && !cfg.login_with_email {
        Some(LoginError::MethodNotAllowed)
    } else if !identifier.contains('@') && !cfg.login_with_username {
        Some(LoginError::MethodNotAllowed)
    } else if now + cfg.login_process_lifetime > i64::MAX || now + cfg.login_process_lifetime
        < i64::MIN {
        Some(LoginError::Unknown)
    } else {
        None
    }
}

/// The Pending process a login init builds: the chosen identifier and
/// method, a fresh one-time code or magic-link token for the respective
/// method, and no attempts recorded yet.
pub open spec fn login_process_view(
    identifier: Seq<char>,
    device_id: Seq<char>,
    method: LoginMethod,
    now: i64,
    process_id: Seq<char>,
    otp_code: Seq<char>,
    magic_token: Seq<char>,
    lifetime: i64,
) -> ProcessV {
    ProcessV {
        id: process_id,
        created_at: now,
        expires_at: (now + lifetime) as i64,
        completed_at: None,
        payload: ProcessPayloadV::Login(
            LoginPayloadV {
                device_id,
                identifier,
                method,
                otp_code: if method is Otp {
                    Some(otp_code)
                } else {
                    None
                },
                magic_token: if method is MagicLink {
                    Some(magic_token)
                } else {
                    None
                },
                otp_attempts: 0,
            },
        ),
    }
}

/// The shared precondition cascade of every completion path, in order:
/// the process must exist and be a login process, the device must match
/// the one recorded at init, the expiry must not have passed, and the
/// process must not be completed.
pub open spec fn login_check(
    processes: Seq<ProcessV>,
    process_id: Seq<char>,
    device_id: Seq<char>,
    now: i64,
) -> Option<LoginError> {
    match process_lookup(processes, process_id) {
        None => Some(LoginError::ProcessNotFound),
        Some(p) => match p.payload {
            ProcessPayloadV::Signup(_) => Some(LoginError::ProcessNotFound),
            ProcessPayloadV::Login(lp) => if lp.device_id != device_id {
                Some(LoginError::InvalidDeviceId)
            } else if p.expires_at < now {
                Some(LoginError::ProcessExpired)
            } else if p.completed_at is Some {
                Some(LoginError::ProcessAlreadyCompleted)
            } else {
                None
            },
        },
    }
}

/// The full password-path cascade: the shared checks, the permitted
/// method, then constant-time verification against the stored hash.
pub open spec fn password_submit_check(
    processes: Seq<ProcessV>,
    identities: Seq<IdentityV>,
    process_id: Seq<char>,
    device_id: Seq<char>,
    password: Seq<char>,
    now: i64,
) -> Option<LoginError> {
    match login_check(processes, process_id, device_id, now) {
        Some(e) => Some(e),
        None => {
            let lp = process_lookup(processes, process_id)->Some_0.payload->Login_0;
            if lp.method != LoginMethod::Password {
                Some(LoginError::MethodNotAllowed)
            } else {
                match identity_for_identifier(identities, lp.identifier) {
                    None => Some(LoginError::InvalidCredentials),
                    Some(iv) => match iv.password_hash {
                        None => Some(LoginError::InvalidCredentials),
                        Some(h) => if !password_matches(h, password) {
                            Some(LoginError::InvalidCredentials)
                        } else {
                            None
                        },
                    },
                }
            }
        },
    }
}

/// The magic-link cascade: the shared checks, the permitted method, then
/// the single-use token comparison.
pub open spec fn magic_link_submit_check(
    processes: Seq<ProcessV>,
    identities: Seq<IdentityV>,
    process_id: Seq<char>,
    device_id: Seq<char>,
    token: Seq<char>,
    now: i64,
) -> Option<LoginError> {
    match login_check(processes, process_id, device_id, now) {
        Some(e) => Some(e),
        None => {
            let lp = process_lookup(processes, process_id)->Some_0.payload->Login_0;
            if lp.method != LoginMethod::MagicLink {
                Some(LoginError::MethodNotAllowed)
            } else if lp.magic_token != Some(token) {
                Some(LoginError::InvalidCredentials)
            } else {
                match identity_for_identifier(identities, lp.identifier) {
                    None => Some(LoginError::InvalidCredentials),
                    Some(_) => None,
                }
            }
        },
    }
}

/// The one-time-code cascade up to the code comparison: the shared
/// checks, the permitted method, then the bounded attempt counter, which
/// fails permanently once exhausted.
pub open spec fn otp_submit_pre_check(
    processes: Seq<ProcessV>,
    process_id: Seq<char>,
    device_id: Seq<char>,
    now: i64,
) -> Option<LoginError> {
    match login_check(processes, process_id, device_id, now) {
        Some(e) => Some(e),
        None => {
            let lp = process_lookup(processes, process_id)->Some_0.payload->Login_0;
            if lp.method != LoginMethod::Otp {
                Some(LoginError::MethodNotAllowed)
            } else if lp.otp_attempts >= crate::models::MAX_OTP_ATTEMPTS {
                Some(LoginError::OtpAttemptsExceeded)
            } else {
                None
            }
        },
    }
}

/// Whether the submitted one-time code is the one on the payload.
pub open spec fn otp_code_matches(lp: LoginPayloadV, code: Seq<char>) -> bool {
    lp.otp_code == Some(code)
}

/// The session a successful completion creates.
pub open spec fn session_view(
    session_id: Seq<char>,
    identity_id: Seq<char>,
    device_id: Seq<char>,
    now: i64,
) -> SessionV {
    SessionV { id: session_id, identity_id, device_id, created_at: now }
}

/// The login flow engine: a configuration snapshot and the storage
/// handle.
pub struct Login {
    config: Configuration,
    storage: MemStorage,
}

impl Login {
    /// The configuration snapshot the engine was built with.
    pub closed spec fn cfg(&self) -> ConfigurationV {
        self.config@
    }

    /// The storage state behind the engine.
    pub closed spec fn store(&self) -> StorageV {
        self.storage@
    }

    /// The engine invariant: the storage uniqueness invariant holds.
    pub closed spec fn wf(&self) -> bool {
        self.storage.wf()
    }

    /// Build the engine over a configuration snapshot and a storage
    /// handle.
    pub fn new(config: Configuration, storage: MemStorage) -> (r: Self)
        ensures
            r.cfg() == config@,
            r.store() == storage@,
            storage.wf() ==> r.wf(),
    {
        Login { config, storage }
    }

    /// Borrow the storage handle, for read-only inspection.
    pub fn storage(&self) -> (r: &MemStorage)
        ensures
            r@ == self.store(),
            self.wf() ==> r.wf(),
    {
        &self.storage
    }

    /// Hand the parts back, for passing the storage on to another engine.
    pub fn into_parts(self) -> (r: (Configuration, MemStorage))
        ensures
            r.0@ == self.cfg(),
            r.1@ == self.store(),
            self.wf() ==> r.1.wf(),
    {
        (self.config, self.storage)
    }

    /// Deterministic core of login init: validate against policy, build
    /// the Pending process bound to the device and the chosen identifier,
    /// and persist it with the create-exclusive primitive. Writes nothing
    /// on any failure.
    pub fn login_init_flow_with(
        &mut self,
        identifier: &str,
        device_id: &str,
        method: LoginMethod,
        now: i64,
        process_id: String,
        otp_code: String,
        magic_token: String,
    ) -> (r: Result<Process, LoginError>)
        requires
            old(self).wf(),
        ensures
            final(self).wf(),
            final(self).cfg() == old(self).cfg(),
            match r {
                Ok(p) => {
                    &&& login_init_check(old(self).cfg().identity, identifier@, device_id@, now)
                        is None
                    &&& p@ == login_process_view(
                        identifier@,
                        device_id@,
                        method,
                        now,
                        process_id@,
                        otp_code@,
                        magic_token@,
                        old(self).cfg().identity.login_process_lifetime,
                    )
                    &&& process_idx(old(self).store().processes, process_id@) is None
                    &&& final(self).store() == (StorageV {
                        processes: old(self).store().processes.push(p@),
                        ..old(self).store()
                    })
                },
                Err(e) => final(self).store() == old(self).store() && {
                    ||| login_init_check(old(self).cfg().identity, identifier@, device_id@, now)
                        == Some(e)
                    ||| (e == LoginError::Unknown && login_init_check(
                        old(self).cfg().identity,
                        identifier@,
                        device_id@,
                        now,
                    ) is None && process_idx(
                        old(self).store().processes,
                        process_id@,
                    ) is Some)
                },
            },
    {
        if !is_valid_id(device_id) {
            return Err(LoginError::MalformedDeviceId);
        }
        let is_email = contains_at(identifier);
        if is_email && !self.config.identity.login_with_email {
            return Err(LoginError::MethodNotAllowed);
        }
        if !is_email && !self.config.identity.login_with_username {
            return Err(LoginError::MethodNotAllowed);
        }
        let expires_at = match now.checked_add(self.config.identity.login_process_lifetime) {
            Some(t) => t,
            None => {
                return Err(LoginError::Unknown);
            },
        };
        let payload = LoginPayload {
            device_id: device_id.to_owned(),
            identifier: identifier.to_owned(),
            method,
            otp_code: if method == LoginMethod::Otp {
                Some(otp_code)
            } else {
                None
            },
            magic_token: if method == LoginMethod::MagicLink {
                Some(magic_token)
            } else {
                None
            },
            otp_attempts: 0,
        };
        let process = Process {
            id: process_id,
            created_at: now,
            expires_at,
            completed_at: None,
            payload: ProcessPayload::Login(payload),
        };
        let ret = process.clone();
        match self.storage.create_process(process) {
            Ok(()) => {
                proof {
                    assert(ret@ =~~= login_process_view(
                        identifier@,
                        device_id@,
                        method,
                        now,
                        ret@.id,
                        otp_code@,
                        magic_token@,
                        old(self).cfg().identity.login_process_lifetime,
                    ));
                }
                Ok(ret)
            },
            Err(_) => Err(LoginError::Unknown),
        }
    }

    /// Create a Pending login process for the clock's current instant,
    /// under a fresh process id and with fresh secrets for the chosen
    /// method.
    pub fn login_init_flow(&mut self, identifier: &str, device_id: &str, method: LoginMethod) -> (r:
        Result<Process, LoginError>)
        requires
            old(self).wf(),
        ensures
            final(self).wf(),
            final(self).cfg() == old(self).cfg(),
            match r {
                Ok(p) => {
                    &&& p@.completed_at is None
                    &&& p@.expires_at == p@.created_at
                        + old(self).cfg().identity.login_process_lifetime
                    &&& p@.payload matches ProcessPayloadV::Login(lp) && lp.device_id == device_id@
                        && lp.identifier == identifier@ && lp.method == method && lp.otp_attempts
                        == 0
                    &&& final(self).store() == (StorageV {
                        processes: old(self).store().processes.push(p@),
                        ..old(self).store()
                    })
                },
                Err(e) => final(self).store() == old(self).store() && match e {
                    LoginError::MalformedDeviceId => !valid_id(device_id@),
                    LoginError::MethodNotAllowed => (identifier@.contains('@') && !old(
                        self,
                    ).cfg().identity.login_with_email) || (!identifier@.contains('@') && !old(
                        self,
                    ).cfg().identity.login_with_username),
                    _ => true,
                },
            },
    {
        let now = crate::clock::now_timestamp();
        let process_id = crate::random::secure_random_id();
        let otp_code = crate::random::secure_random_id();
        let magic_token = crate::random::secure_random_id();
        self.login_init_flow_with(
            identifier,
            device_id,
            method,
            now,
            process_id,
            otp_code,
            magic_token,
        )
    }

    /// Look a login process up again, checking the device binding.
    pub fn login_get_flow(&self, device_id: &str, login_flow_id: &str) -> (r: Result<
        Process,
        LoginError,
    >)
        ensures
            match r {
                Ok(p) => process_lookup(self.store().processes, login_flow_id@) == Some(p@) && (
                p@.payload matches ProcessPayloadV::Login(lp) && lp.device_id == device_id@),
                Err(LoginError::ProcessNotFound) => match process_lookup(
                    self.store().processes,
                    login_flow_id@,
                ) {
                    None => true,
                    Some(p) => p.payload is Signup,
                },
                Err(LoginError::InvalidDeviceId) => process_lookup(
                    self.store().processes,
                    login_flow_id@,
                ) matches Some(p) && p.payload matches ProcessPayloadV::Login(lp) && lp.device_id
                    != device_id@,
                _ => false,
            },
    {
        let p = match self.storage.process_by_id(login_flow_id) {
            None => {
                return Err(LoginError::ProcessNotFound);
            },
            Some(p) => p,
        };
        let matches_device = match &p.payload {
            ProcessPayload::Login(lp) => str_eq(lp.device_id.as_str(), device_id),
            ProcessPayload::Signup(_) => {
                return Err(LoginError::ProcessNotFound);
            },
        };
        if !matches_device {
            return Err(LoginError::InvalidDeviceId);
        }
        Ok(p)
    }

    /// Deterministic core of the password path: the shared cascade, then
    /// verification against the stored hash, then the atomic completion
    /// that creates the session. Writes nothing on any failure.
    pub fn login_submit_password_at(
        &mut self,
        login_flow_id: &str,
        device_id: &str,
        password: &str,
        now: i64,
        session_id: String,
    ) -> (r: Result<Session, LoginError>)
        requires
            old(self).wf(),
        ensures
            final(self).wf(),
            final(self).cfg() == old(self).cfg(),
            match r {
                Ok(sess) => {
                    &&& password_submit_check(
                        old(self).store().processes,
                        old(self).store().identities,
                        login_flow_id@,
                        device_id@,
                        password@,
                        now,
                    ) is None
                    &&& sess@ == session_view(
                        session_id@,
                        identity_for_identifier(
                            old(self).store().identities,
                            process_lookup(
                                old(self).store().processes,
                                login_flow_id@,
                            )->Some_0.payload->Login_0.identifier,
                        )->Some_0.id,
                        device_id@,
                        now,
                    )
                    &&& session_idx(old(self).store().sessions, session_id@) is None
                    &&& process_idx(old(self).store().processes, login_flow_id@) matches Some(j)
                        && final(self).store() == (StorageV {
                        processes: old(self).store().processes.update(
                            j,
                            completed_process(old(self).store().processes[j], now),
                        ),
                        sessions: old(self).store().sessions.push(sess@),
                        ..old(self).store()
                    })
                },
                Err(e) => final(self).store() == old(self).store() && {
                    ||| password_submit_check(
                        old(self).store().processes,
                        old(self).store().identities,
                        login_flow_id@,
                        device_id@,
                        password@,
                        now,
                    ) == Some(e)
                    ||| (e == LoginError::Unknown && password_submit_check(
                        old(self).store().processes,
                        old(self).store().identities,
                        login_flow_id@,
                        device_id@,
                        password@,
                        now,
                    ) is None && session_idx(old(self).store().sessions, session_id@) is Some)
                },
            },
    {
        let p = match self.storage.process_by_id(login_flow_id) {
            None => {
                return Err(LoginError::ProcessNotFound);
            },
            Some(p) => p,
        };
        let lp = match p.payload {
            ProcessPayload::Login(lp) => lp,
            ProcessPayload::Signup(_) => {
                return Err(LoginError::ProcessNotFound);
            },
        };
        if !str_eq(lp.device_id.as_str(), device_id) {
            return Err(LoginError::InvalidDeviceId);
        }
        if p.expires_at < now {
            return Err(LoginError::ProcessExpired);
        }
        if p.completed_at.is_some() {
            return Err(LoginError::ProcessAlreadyCompleted);
        }
        if !(lp.method == LoginMethod::Password) {
            return Err(LoginError::MethodNotAllowed);
        }
        let ident = match (if contains_at(lp.identifier.as_str()) {
            self.storage.identity_by_email(lp.identifier.as_str())
        } else {
            self.storage.identity_by_username(lp.identifier.as_str())
        }) {
            None => {
                return Err(LoginError::InvalidCredentials);
            },
            Some(i) => i,
        };
        let hash_ok = match &ident.password_hash {
            Some(h) => crate::hash::verify_password(h.as_str(), password),
            None => false,
        };
        if !hash_ok {
            return Err(LoginError::InvalidCredentials);
        }
        let sess = Session {
            id: session_id,
            identity_id: ident.id,
            device_id: device_id.to_owned(),
            created_at: now,
        };
        let ret = sess.clone();
        match self.storage.complete_process_and_create_session(login_flow_id, now, sess) {
            Ok(()) => Ok(ret),
            Err(_) => Err(LoginError::Unknown),
        }
    }

    /// Complete a login with a password at the clock's current instant,
    /// under a fresh session id.
    pub fn login_submit_password(
        &mut self,
        login_flow_id: &str,
        device_id: &str,
        password: &str,
    ) -> (r: Result<Session, LoginError>)
        requires
            old(self).wf(),
        ensures
            final(self).wf(),
            final(self).cfg() == old(self).cfg(),
            match r {
                Ok(sess) => sess@.device_id == device_id@ && final(self).store().sessions == old(self).store().sessions.push(sess@),
                Err(e) => final(self).store() == old(self).store() && match e {
                    LoginError::ProcessNotFound => match process_lookup(
                        old(self).store().processes,
                        login_flow_id@,
                    ) {
                        None => true,
                        Some(p) => p.payload is Signup,
                    },
                    LoginError::InvalidDeviceId => process_lookup(
                        old(self).store().processes,
                        login_flow_id@,
                    ) matches Some(p) && (p.payload matches ProcessPayloadV::Login(lp)
                        && lp.device_id != device_id@),
                    LoginError::ProcessAlreadyCompleted => process_lookup(
                        old(self).store().processes,
                        login_flow_id@,
                    ) matches Some(p) && p.completed_at is Some,
                    LoginError::MethodNotAllowed => process_lookup(
                        old(self).store().processes,
                        login_flow_id@,
                    ) matches Some(p) && (p.payload matches ProcessPayloadV::Login(lp)
                        && lp.method != LoginMethod::Password),
                    LoginError::InvalidCredentials => process_lookup(
                        old(self).store().processes,
                        login_flow_id@,
                    ) matches Some(p) && (p.payload matches ProcessPayloadV::Login(lp) && match
                        identity_for_identifier(old(self).store().identities, lp.identifier) {
                        None => true,
                        Some(iv) => match iv.password_hash {
                            None => true,
                            Some(h) => !password_matches(h, password@),
                        },
                    }),
                    _ => true,
                },
            },
    {
        let now = crate::clock::now_timestamp();
        let session_id = crate::random::secure_random_id();
        self.login_submit_password_at(login_flow_id, device_id, password, now, session_id)
    }

    /// Deterministic core of the magic-link path: the shared cascade,
    /// then the token comparison, then the atomic completion that creates
    /// the session. The token is single-use because the completion makes
    /// the process terminal. Writes nothing on any failure.
    pub fn login_submit_magic_link_at(
        &mut self,
        login_flow_id: &str,
        device_id: &str,
        magic_link_token: &str,
        now: i64,
        session_id: String,
    ) -> (r: Result<Session, LoginError>)
        requires
            old(self).wf(),
        ensures
            final(self).wf(),
            final(self).cfg() == old(self).cfg(),
            match r {
                Ok(sess) => {
                    &&& magic_link_submit_check(
                        old(self).store().processes,
                        old(self).store().identities,
                        login_flow_id@,
                        device_id@,
                        magic_link_token@,
                        now,
                    ) is None
                    &&& sess@ == session_view(
                        session_id@,
                        identity_for_identifier(
                            old(self).store().identities,
                            process_lookup(
                                old(self).store().processes,
                                login_flow_id@,
                            )->Some_0.payload->Login_0.identifier,
                        )->Some_0.id,
                        device_id@,
                        now,
                    )
                    &&& session_idx(old(self).store().sessions, session_id@) is None
                    &&& process_idx(old(self).store().processes, login_flow_id@) matches Some(j)
                        && final(self).store() == (StorageV {
                        processes: old(self).store().processes.update(
                            j,
                            completed_process(old(self).store().processes[j], now),
                        ),
                        sessions: old(self).store().sessions.push(sess@),
                        ..old(self).store()
                    })
                },
                Err(e) => final(self).store() == old(self).store() && {
                    ||| magic_link_submit_check(
                        old(self).store().processes,
                        old(self).store().identities,
                        login_flow_id@,
                        device_id@,
                        magic_link_token@,
                        now,
                    ) == Some(e)
                    ||| (e == LoginError::Unknown && magic_link_submit_check(
                        old(self).store().processes,
                        old(self).store().identities,
                        login_flow_id@,
                        device_id@,
                        magic_link_token@,
                        now,
                    ) is None && session_idx(old(self).store().sessions, session_id@) is Some)
                },
            },
    {
        let p = match self.storage.process_by_id(login_flow_id) {
            None => {
                return Err(LoginError::ProcessNotFound);
            },
            Some(p) => p,
        };
        let lp = match p.payload {
            ProcessPayload::Login(lp) => lp,
            ProcessPayload::Signup(_) => {
                return Err(LoginError::ProcessNotFound);
            },
        };
        if !str_eq(lp.device_id.as_str(), device_id) {
            return Err(LoginError::InvalidDeviceId);
        }
        if p.expires_at < now {
            return Err(LoginError::ProcessExpired);
        }
        if p.completed_at.is_some() {
            return Err(LoginError::ProcessAlreadyCompleted);
        }
        if !(lp.method == LoginMethod::MagicLink) {
            return Err(LoginError::MethodNotAllowed);
        }
        let token_ok = match &lp.magic_token {
            Some(t) => str_eq(t.as_str(), magic_link_token),
            None => false,
        };
        if !token_ok {
            return Err(LoginError::InvalidCredentials);
        }
        let ident = match (if contains_at(lp.identifier.as_str()) {
            self.storage.identity_by_email(lp.identifier.as_str())
        } else {
            self.storage.identity_by_username(lp.identifier.as_str())
        }) {
            None => {
                return Err(LoginError::InvalidCredentials);
            },
            Some(i) => i,
        };
        let sess = Session {
            id: session_id,
            identity_id: ident.id,
            device_id: device_id.to_owned(),
            created_at: now,
        };
        let ret = sess.clone();
        match self.storage.complete_process_and_create_session(login_flow_id, now, sess) {
            Ok(()) => Ok(ret),
            Err(_) => Err(LoginError::Unknown),
        }
    }

    /// Complete a login with a magic-link token at the clock's current
    /// instant, under a fresh session id.
    pub fn login_submit_magic_link(
        &mut self,
        login_flow_id: &str,
        device_id: &str,
        magic_link_token: &str,
    ) -> (r: Result<Session, LoginError>)
        requires
            old(self).wf(),
        ensures
            final(self).wf(),
            final(self).cfg() == old(self).cfg(),
            match r {
                Ok(sess) => sess@.device_id == device_id@ && final(self).store().sessions == old(self).store().sessions.push(sess@),
                Err(e) => final(self).store() == old(self).store() && match e {
                    LoginError::ProcessNotFound => match process_lookup(
                        old(self).store().processes,
                        login_flow_id@,
                    ) {
                        None => true,
                        Some(p) => p.payload is Signup,
                    },
                    LoginError::InvalidDeviceId => process_lookup(
                        old(self).store().processes,
                        login_flow_id@,
                    ) matches Some(p) && (p.payload matches ProcessPayloadV::Login(lp)
                        && lp.device_id != device_id@),
                    LoginError::ProcessAlreadyCompleted => process_lookup(
                        old(self).store().processes,
                        login_flow_id@,
                    ) matches Some(p) && p.completed_at is Some,
                    LoginError::MethodNotAllowed => process_lookup(
                        old(self).store().processes,
                        login_flow_id@,
                    ) matches Some(p) && (p.payload matches ProcessPayloadV::Login(lp)
                        && lp.method != LoginMethod::MagicLink),
                    LoginError::InvalidCredentials => process_lookup(
                        old(self).store().processes,
                        login_flow_id@,
                    ) matches Some(p) && (p.payload matches ProcessPayloadV::Login(lp) && (
                    lp.magic_token != Some(magic_link_token@) || identity_for_identifier(
                        old(self).store().identities,
                        lp.identifier,
                    ) is None)),
                    _ => true,
                },
            },
    {
        let now = crate::clock::now_timestamp();
        let session_id = crate::random::secure_random_id();
        self.login_submit_magic_link_at(login_flow_id, device_id, magic_link_token, now, session_id)
    }

    /// Deterministic core of the one-time-code path: the shared cascade,
    /// the bounded attempt counter — exhausted attempts fail permanently —
    /// then the code comparison. A wrong code is the one failure that
    /// writes: it moves the counter up by one. Success completes the
    /// process and creates the session atomically.
    pub fn login_submit_otp_at(
        &mut self,
        login_flow_id: &str,
        device_id: &str,
        otp_code: &str,
        now: i64,
        session_id: String,
    ) -> (r: Result<Session, LoginError>)
        requires
            old(self).wf(),
        ensures
            final(self).wf(),
            final(self).cfg() == old(self).cfg(),
            match r {
                Ok(sess) => {
                    &&& otp_submit_pre_check(
                        old(self).store().processes,
                        login_flow_id@,
                        device_id@,
                        now,
                    ) is None
                    &&& otp_code_matches(
                        process_lookup(
                            old(self).store().processes,
                            login_flow_id@,
                        )->Some_0.payload->Login_0,
                        otp_code@,
                    )
                    &&& identity_for_identifier(
                        old(self).store().identities,
                        process_lookup(
                            old(self).store().processes,
                            login_flow_id@,
                        )->Some_0.payload->Login_0.identifier,
                    ) matches Some(iv) && sess@ == session_view(
                        session_id@,
                        iv.id,
                        device_id@,
                        now,
                    )
                    &&& session_idx(old(self).store().sessions, session_id@) is None
                    &&& process_idx(old(self).store().processes, login_flow_id@) matches Some(j)
                        && final(self).store() == (StorageV {
                        processes: old(self).store().processes.update(
                            j,
                            completed_process(old(self).store().processes[j], now),
                        ),
                        sessions: old(self).store().sessions.push(sess@),
                        ..old(self).store()
                    })
                },
                Err(e) => {
                    ||| (otp_submit_pre_check(
                        old(self).store().processes,
                        login_flow_id@,
                        device_id@,
                        now,
                    ) == Some(e) && final(self).store() == old(self).store())
                    ||| (e == LoginError::InvalidCredentials && otp_submit_pre_check(
                        old(self).store().processes,
                        login_flow_id@,
                        device_id@,
                        now,
                    ) is None && !otp_code_matches(
                        process_lookup(
                            old(self).store().processes,
                            login_flow_id@,
                        )->Some_0.payload->Login_0,
                        otp_code@,
                    ) && (process_idx(old(self).store().processes, login_flow_id@) matches Some(j)
                        && final(self).store() == (StorageV {
                        processes: old(self).store().processes.update(
                            j,
                            otp_failed_process(old(self).store().processes[j]),
                        ),
                        ..old(self).store()
                    })))
                    ||| (e == LoginError::InvalidCredentials && otp_submit_pre_check(
                        old(self).store().processes,
                        login_flow_id@,
                        device_id@,
                        now,
                    ) is None && otp_code_matches(
                        process_lookup(
                            old(self).store().processes,
                            login_flow_id@,
                        )->Some_0.payload->Login_0,
                        otp_code@,
                    ) && identity_for_identifier(
                        old(self).store().identities,
                        process_lookup(
                            old(self).store().processes,
                            login_flow_id@,
                        )->Some_0.payload->Login_0.identifier,
                    ) is None && final(self).store() == old(self).store())
                    ||| (e == LoginError::Unknown && session_idx(
                        old(self).store().sessions,
                        session_id@,
                    ) is Some && final(self).store() == old(self).store())
                },
            },
    {
        let p = match self.storage.process_by_id(login_flow_id) {
            None => {
                return Err(LoginError::ProcessNotFound);
            },
            Some(p) => p,
        };
        let lp = match p.payload {
            ProcessPayload::Login(lp) => lp,
            ProcessPayload::Signup(_) => {
                return Err(LoginError::ProcessNotFound);
            },
        };
        if !str_eq(lp.device_id.as_str(), device_id) {
            return Err(LoginError::InvalidDeviceId);
        }
        if p.expires_at < now {
            return Err(LoginError::ProcessExpired);
        }
        if p.completed_at.is_some() {
            return Err(LoginError::ProcessAlreadyCompleted);
        }
        if !(lp.method == LoginMethod::Otp) {
            return Err(LoginError::MethodNotAllowed);
        }
        if lp.otp_attempts >= crate::models::MAX_OTP_ATTEMPTS {
            return Err(LoginError::OtpAttemptsExceeded);
        }
        let code_ok = match &lp.otp_code {
            Some(c) => str_eq(c.as_str(), otp_code),
            None => false,
        };
        if !code_ok {
            match self.storage.record_otp_failure(login_flow_id) {
                Ok(()) => {
                    return Err(LoginError::InvalidCredentials);
                },
                Err(_) => {
                    proof {
                        assert(false);
                    }
                    return Err(LoginError::Unknown);
                },
            }
        }
        let ident = match (if contains_at(lp.identifier.as_str()) {
            self.storage.identity_by_email(lp.identifier.as_str())
        } else {
            self.storage.identity_by_username(lp.identifier.as_str())
        }) {
            None => {
                return Err(LoginError::InvalidCredentials);
            },
            Some(i) => i,
        };
        let sess = Session {
            id: session_id,
            identity_id: ident.id,
            device_id: device_id.to_owned(),
            created_at: now,
        };
        let ret = sess.clone();
        match self.storage.complete_process_and_create_session(login_flow_id, now, sess) {
            Ok(()) => Ok(ret),
            Err(_) => Err(LoginError::Unknown),
        }
    }

    /// Complete a login with a one-time code at the clock's current
    /// instant, under a fresh session id.
    pub fn login_submit_otp(&mut self, login_flow_id: &str, device_id: &str, otp_code: &str) -> (r:
        Result<Session, LoginError>)
        requires
            old(self).wf(),
        ensures
            final(self).wf(),
            final(self).cfg() == old(self).cfg(),
            match r {
                Ok(sess) => sess@.device_id == device_id@ && final(self).store().sessions == old(self).store().sessions.push(sess@),
                Err(e) => (final(self).store().identities == old(self).store().identities && final(self).store().sessions == old(self).store().sessions) && match e {
                    LoginError::ProcessNotFound => match process_lookup(
                        old(self).store().processes,
                        login_flow_id@,
                    ) {
                        None => true,
                        Some(p) => p.payload is Signup,
                    },
                    LoginError::InvalidDeviceId => process_lookup(
                        old(self).store().processes,
                        login_flow_id@,
                    ) matches Some(p) && (p.payload matches ProcessPayloadV::Login(lp)
                        && lp.device_id != device_id@),
                    LoginError::ProcessAlreadyCompleted => process_lookup(
                        old(self).store().processes,
                        login_flow_id@,
                    ) matches Some(p) && p.completed_at is Some,
                    LoginError::MethodNotAllowed => process_lookup(
                        old(self).store().processes,
                        login_flow_id@,
                    ) matches Some(p) && (p.payload matches ProcessPayloadV::Login(lp)
                        && lp.method != LoginMethod::Otp),
                    LoginError::OtpAttemptsExceeded => process_lookup(
                        old(self).store().processes,
                        login_flow_id@,
                    ) matches Some(p) && (p.payload matches ProcessPayloadV::Login(lp)
                        && lp.otp_attempts >= crate::models::MAX_OTP_ATTEMPTS),
                    LoginError::InvalidCredentials => process_lookup(
                        old(self).store().processes,
                        login_flow_id@,
                    ) matches Some(p) && (p.payload matches ProcessPayloadV::Login(lp) && (
                    !otp_code_matches(lp, otp_code@) || identity_for_identifier(
                        old(self).store().identities,
                        lp.identifier,
                    ) is None)),
                    _ => true,
                },
            },
    {
        let now = crate::clock::now_timestamp();
        let session_id = crate::random::secure_random_id();
        self.login_submit_otp_at(login_flow_id, device_id, otp_code, now, session_id)
    }
}

} // verus!
