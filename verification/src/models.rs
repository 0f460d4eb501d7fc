//! The persisted records: identities, flow processes and sessions.
//!
//! Each record type carries a mathematical view (`@`) over which every
//! contract in the crate is stated; the view replaces each string by its
//! character sequence.
use vstd::prelude::*;

verus! {

/// The verification state of one email address bound to an identity.
#[derive(Clone, Copy, PartialEq, Eq, Debug)]
pub struct IdentityEmail {
    pub verified: bool,
    pub verified_at: Option<i64>,
}

/// The view of an optional string: the character sequence, if present.
pub open spec fn opt_view(o: Option<String>) -> Option<Seq<char>> {
    match o {
        Some(s) => Some(s@),
        None => None,
    }
}

/// The view of an optional value, if present.
pub open spec fn view_opt<T: View>(o: Option<T>) -> Option<T::V> {
    match o {
        Some(x) => Some(x@),
        None => None,
    }
}

/// String-slice equality, stated over the character sequences.
pub fn str_eq(a: &str, b: &str) -> (r: bool)
    ensures
        r == (a@ == b@),
{
    let x = a.to_owned();
    let y = b.to_owned();
    x == y
}

/// Mathematical view of an [`Identity`].
#[verifier::ext_equal]
pub ghost struct IdentityV {
    pub id: Seq<char>,
    pub username: Option<Seq<char>>,
    pub first_name: Option<Seq<char>>,
    pub last_name: Option<Seq<char>>,
    pub emails: Seq<(Seq<char>, IdentityEmail)>,
    pub linked_accounts: Seq<(Seq<char>, Seq<char>)>,
    pub password_hash: Option<Seq<char>>,
    pub created_at: i64,
    pub updated_at: i64,
}

/// An account record. The id never changes after creation; username and
/// every bound email are unique across all identities, enforced by storage.
#[derive(Debug)]
pub struct Identity {
    pub id: String,
    pub username: Option<String>,
    pub first_name: Option<String>,
    pub last_name: Option<String>,
    pub emails: Vec<(String, IdentityEmail)>,
    pub linked_accounts: Vec<(String, String)>,
    pub password_hash: Option<String>,
    pub created_at: i64,
    pub updated_at: i64,
}

impl View for Identity {
    type V = IdentityV;

    open spec fn view(&self) -> IdentityV {
        IdentityV {
            id: self.id@,
            username: opt_view(self.username),
            first_name: opt_view(self.first_name),
            last_name: opt_view(self.last_name),
            emails: self.emails@.map_values(|p: (String, IdentityEmail)| (p.0@, p.1)),
            linked_accounts: self.linked_accounts@.map_values(
                |p: (String, String)| (p.0@, p.1@),
            ),
            password_hash: opt_view(self.password_hash),
            created_at: self.created_at,
            updated_at: self.updated_at,
        }
    }
}

/// Whether the identity view has `email` among its bound addresses.
pub open spec fn has_email(iv: IdentityV, email: Seq<char>) -> bool {
    exists|k: int| 0 <= k < iv.emails.len() && (#[trigger] iv.emails[k]).0 == email
}

/// Mathematical view of a [`CreateIdentity`].
#[verifier::ext_equal]
pub ghost struct CreateIdentityV {
    pub username: Option<Seq<char>>,
    pub primary_email: Option<Seq<char>>,
    pub password_hash: Option<Seq<char>>,
}

/// The request shape for creating an identity through the identity manager.
#[derive(Debug)]
pub struct CreateIdentity {
    pub username: Option<String>,
    pub primary_email: Option<String>,
    pub password_hash: Option<String>,
}

impl View for CreateIdentity {
    type V = CreateIdentityV;

    open spec fn view(&self) -> CreateIdentityV {
        CreateIdentityV {
            username: opt_view(self.username),
            primary_email: opt_view(self.primary_email),
            password_hash: opt_view(self.password_hash),
        }
    }
}

/// Mathematical view of a [`UserIdentifier`].
#[verifier::ext_equal]
pub ghost enum UserIdentifierV {
    Id(Seq<char>),
    Username(Seq<char>),
    Email(Seq<char>),
}

/// The ways a caller may designate an identity for lookup.
#[derive(Debug)]
pub enum UserIdentifier {
    Id(String),
    Username(String),
    Email(String),
}

impl View for UserIdentifier {
    type V = UserIdentifierV;

    open spec fn view(&self) -> UserIdentifierV {
        match self {
            UserIdentifier::Id(s) => UserIdentifierV::Id(s@),
            UserIdentifier::Username(s) => UserIdentifierV::Username(s@),
            UserIdentifier::Email(s) => UserIdentifierV::Email(s@),
        }
    }
}

/// The completion method a login process permits.
#[derive(Clone, Copy, PartialEq, Eq, Structural, Debug)]
pub enum LoginMethod {
    Password,
    MagicLink,
    Otp,
}

/// How often a wrong one-time code may be submitted before the login
/// process fails permanently.
pub const MAX_OTP_ATTEMPTS: u32 = 3;

/// Mathematical view of a [`SignupPayload`].
#[verifier::ext_equal]
pub ghost struct SignupPayloadV {
    pub device_id: Seq<char>,
    pub username: Option<Seq<char>>,
    pub email: Option<(Seq<char>, IdentityEmail)>,
}

/// The flow-specific data of a signup process.
#[derive(Debug)]
pub struct SignupPayload {
    pub device_id: String,
    pub username: Option<String>,
    pub email: Option<(String, IdentityEmail)>,
}

impl View for SignupPayload {
    type V = SignupPayloadV;

    open spec fn view(&self) -> SignupPayloadV {
        SignupPayloadV {
            device_id: self.device_id@,
            username: opt_view(self.username),
            email: match self.email {
                Some(p) => Some((p.0@, p.1)),
                None => None,
            },
        }
    }
}

/// Mathematical view of a [`LoginPayload`].
#[verifier::ext_equal]
pub ghost struct LoginPayloadV {
    pub device_id: Seq<char>,
    pub identifier: Seq<char>,
    pub method: LoginMethod,
    pub otp_code: Option<Seq<char>>,
    pub magic_token: Option<Seq<char>>,
    pub otp_attempts: u32,
}

/// The flow-specific data of a login process. The one-time code and the
/// magic-link token are generated at init; the token is single-use
/// because a consuming completion makes the process terminal.
#[derive(Debug)]
pub struct LoginPayload {
    pub device_id: String,
    pub identifier: String,
    pub method: LoginMethod,
    pub otp_code: Option<String>,
    pub magic_token: Option<String>,
    pub otp_attempts: u32,
}

impl View for LoginPayload {
    type V = LoginPayloadV;

    open spec fn view(&self) -> LoginPayloadV {
        LoginPayloadV {
            device_id: self.device_id@,
            identifier: self.identifier@,
            method: self.method,
            otp_code: opt_view(self.otp_code),
            magic_token: opt_view(self.magic_token),
            otp_attempts: self.otp_attempts,
        }
    }
}

/// Mathematical view of a [`ProcessPayload`].
#[verifier::ext_equal]
pub ghost enum ProcessPayloadV {
    Signup(SignupPayloadV),
    Login(LoginPayloadV),
}

/// The tagged union over the known flow kinds.
#[derive(Debug)]
pub enum ProcessPayload {
    Signup(SignupPayload),
    Login(LoginPayload),
}

impl View for ProcessPayload {
    type V = ProcessPayloadV;

    open spec fn view(&self) -> ProcessPayloadV {
        match self {
            ProcessPayload::Signup(p) => ProcessPayloadV::Signup(p@),
            ProcessPayload::Login(p) => ProcessPayloadV::Login(p@),
        }
    }
}

/// Mathematical view of a [`Process`].
#[verifier::ext_equal]
pub ghost struct ProcessV {
    pub id: Seq<char>,
    pub created_at: i64,
    pub expires_at: i64,
    pub completed_at: Option<i64>,
    pub payload: ProcessPayloadV,
}

/// The shared envelope of every flow: a time-bounded, single-completion
/// unit of interaction identified by an opaque id. Once `completed_at` is
/// set the process is terminal; once `expires_at` has passed it is
/// unusable for completion.
#[derive(Debug)]
pub struct Process {
    pub id: String,
    pub created_at: i64,
    pub expires_at: i64,
    pub completed_at: Option<i64>,
    pub payload: ProcessPayload,
}

impl View for Process {
    type V = ProcessV;

    open spec fn view(&self) -> ProcessV {
        ProcessV {
            id: self.id@,
            created_at: self.created_at,
            expires_at: self.expires_at,
            completed_at: self.completed_at,
            payload: self.payload@,
        }
    }
}

/// Mathematical view of a [`Session`].
#[verifier::ext_equal]
pub ghost struct SessionV {
    pub id: Seq<char>,
    pub identity_id: Seq<char>,
    pub device_id: Seq<char>,
    pub created_at: i64,
}

/// An authenticated session handle, produced by a completed login process.
#[derive(Debug)]
pub struct Session {
    pub id: String,
    pub identity_id: String,
    pub device_id: String,
    pub created_at: i64,
}

impl View for Session {
    type V = SessionV;

    open spec fn view(&self) -> SessionV {
        SessionV {
            id: self.id@,
            identity_id: self.identity_id@,
            device_id: self.device_id@,
            created_at: self.created_at,
        }
    }
}

fn clone_opt_string(o: &Option<String>) -> (r: Option<String>)
    ensures
        opt_view(r) == opt_view(*o),
{
    match o {
        Some(s) => Some(s.clone()),
        None => None,
    }
}

fn clone_email_pairs(v: &Vec<(String, IdentityEmail)>) -> (r: Vec<(String, IdentityEmail)>)
    ensures
        r@.map_values(|p: (String, IdentityEmail)| (p.0@, p.1)) == v@.map_values(
            |p: (String, IdentityEmail)| (p.0@, p.1),
        ),
{
    let mut out: Vec<(String, IdentityEmail)> = Vec::new();
    let mut i: usize = 0;
    while i < v.len()
        invariant
            i <= v.len(),
            out@.len() == i,
            forall|j: int|
                0 <= j < i ==> (#[trigger] out@[j]).0@ == v@[j].0@ && out@[j].1 == v@[j].1,
        decreases v.len() - i,
    {
        let s = v[i].0.clone();
        out.push((s, v[i].1));
        i += 1;
    }
    proof {
        assert(out@.map_values(|p: (String, IdentityEmail)| (p.0@, p.1)) =~= v@.map_values(
            |p: (String, IdentityEmail)| (p.0@, p.1),
        ));
    }
    out
}

fn clone_string_pairs(v: &Vec<(String, String)>) -> (r: Vec<(String, String)>)
    ensures
        r@.map_values(|p: (String, String)| (p.0@, p.1@)) == v@.map_values(
            |p: (String, String)| (p.0@, p.1@),
        ),
{
    let mut out: Vec<(String, String)> = Vec::new();
    let mut i: usize = 0;
    while i < v.len()
        invariant
            i <= v.len(),
            out@.len() == i,
            forall|j: int|
                0 <= j < i ==> (#[trigger] out@[j]).0@ == v@[j].0@ && out@[j].1@ == v@[j].1@,
        decreases v.len() - i,
    {
        let s = v[i].0.clone();
        let t = v[i].1.clone();
        out.push((s, t));
        i += 1;
    }
    proof {
        assert(out@.map_values(|p: (String, String)| (p.0@, p.1@)) =~= v@.map_values(
            |p: (String, String)| (p.0@, p.1@),
        ));
    }
    out
}

impl Clone for Identity {
    fn clone(&self) -> (r: Self)
        ensures
            r@ == self@,
    {
        let r = Identity {
            id: self.id.clone(),
            username: clone_opt_string(&self.username),
            first_name: clone_opt_string(&self.first_name),
            last_name: clone_opt_string(&self.last_name),
            emails: clone_email_pairs(&self.emails),
            linked_accounts: clone_string_pairs(&self.linked_accounts),
            password_hash: clone_opt_string(&self.password_hash),
            created_at: self.created_at,
            updated_at: self.updated_at,
        };
        proof {
            assert(r@ =~= self@);
        }
        r
    }
}

impl Clone for SignupPayload {
    fn clone(&self) -> (r: Self)
        ensures
            r@ == self@,
    {
        let email = match &self.email {
            Some(p) => Some((p.0.clone(), p.1)),
            None => None,
        };
        let r = SignupPayload {
            device_id: self.device_id.clone(),
            username: clone_opt_string(&self.username),
            email,
        };
        proof {
            assert(r@ =~= self@);
        }
        r
    }
}

impl Clone for LoginPayload {
    fn clone(&self) -> (r: Self)
        ensures
            r@ == self@,
    {
        let r = LoginPayload {
            device_id: self.device_id.clone(),
            identifier: self.identifier.clone(),
            method: self.method,
            otp_code: clone_opt_string(&self.otp_code),
            magic_token: clone_opt_string(&self.magic_token),
            otp_attempts: self.otp_attempts,
        };
        proof {
            assert(r@ =~= self@);
        }
        r
    }
}

impl Clone for ProcessPayload {
    fn clone(&self) -> (r: Self)
        ensures
            r@ == self@,
    {
        match self {
            ProcessPayload::Signup(p) => ProcessPayload::Signup(p.clone()),
            ProcessPayload::Login(p) => ProcessPayload::Login(p.clone()),
        }
    }
}

impl Clone for Process {
    fn clone(&self) -> (r: Self)
        ensures
            r@ == self@,
    {
        let r = Process {
            id: self.id.clone(),
            created_at: self.created_at,
            expires_at: self.expires_at,
            completed_at: self.completed_at,
            payload: self.payload.clone(),
        };
        proof {
            assert(r@ =~= self@);
        }
        r
    }
}

impl Clone for Session {
    fn clone(&self) -> (r: Self)
        ensures
            r@ == self@,
    {
        let r = Session {
            id: self.id.clone(),
            identity_id: self.identity_id.clone(),
            device_id: self.device_id.clone(),
            created_at: self.created_at,
        };
        proof {
            assert(r@ =~= self@);
        }
        r
    }
}

} // verus!
