//! Which SSH identity a clone authenticates with.
use crate::path::{join, joined};
use vstd::prelude::*;

verus! {

/// The private key that is used where it exists, below the home directory.
pub const DEFAULT_KEY: &'static str = ".ssh/id_rsa";

/// An SSH identity: the user to log in as, the path of the private key, and
/// the passphrase of the key.
#[derive(Clone, Debug, PartialEq, Eq)]
pub struct SshIdentity {
    pub username: String,
    pub private_key: String,
    pub passphrase: String,
}

/// An identity, as plain values.
pub struct SshIdentityView {
    pub username: Seq<char>,
    pub private_key: Seq<char>,
    pub passphrase: Seq<char>,
}

impl View for SshIdentity {
    type V = SshIdentityView;

    open spec fn view(&self) -> SshIdentityView {
        SshIdentityView {
            username: self.username@,
            private_key: self.private_key@,
            passphrase: self.passphrase@,
        }
    }
}

/// Why no identity could be given.
#[derive(Clone, Copy, Debug, PartialEq, Eq, Structural)]
pub enum CredentialError {
    /// The transport asks for something other than an SSH key.
    UnsupportedScheme,
    /// The transport named no user to log in as.
    NoUsername,
    /// The default key does not exist and no other key was named.
    NoPrivateKey,
    /// The transport library did not take the identity.
    Rejected,
}

/// What the transport asks for: the user named in the URL, if any, and
/// whether it accepts an SSH key.
#[derive(Clone, Debug, PartialEq, Eq)]
pub struct Request {
    pub username: Option<String>,
    pub ssh_key_allowed: bool,
}

/// Where an identity can come from: the default key, given only if it
/// exists; a key named in its place; and a passphrase.
#[derive(Clone, Debug, PartialEq, Eq)]
pub struct Sources {
    pub default_key: Option<String>,
    pub key_override: Option<String>,
    pub passphrase: Option<String>,
}

/// `git2::Cred`, the credential object that the transport authenticates
/// with. Nothing inside it is visible here.
#[verifier::external_type_specification]
#[verifier::external_body]
pub struct ExCred(git2::Cred);

/// `git2::Error`, the error of the transport library. Nothing inside it is
/// visible here.
#[verifier::external_type_specification]
#[verifier::external_body]
pub struct ExGitError(git2::Error);

/// The text of an optional string, or the empty text.
pub open spec fn text_or_empty(s: Option<String>) -> Seq<char> {
    match s {
        Some(t) => t@,
        None => Seq::empty(),
    }
}

/// The identity for a request. Only SSH keys are supported, and a user must
/// be named. The default key is used if it exists, else the key named in
/// its place; with neither there is no identity. The passphrase is empty
/// unless one is given.
pub open spec fn identity_for(request: Request, sources: Sources) -> Result<
    SshIdentityView,
    CredentialError,
> {
    if !request.ssh_key_allowed {
        Err(CredentialError::UnsupportedScheme)
    } else if request.username is None {
        Err(CredentialError::NoUsername)
    } else if sources.default_key is None && sources.key_override is None {
        Err(CredentialError::NoPrivateKey)
    } else {
        Ok(
            SshIdentityView {
                username: request.username->0@,
                private_key: if sources.default_key is Some {
                    sources.default_key->0@
                } else {
                    sources.key_override->0@
                },
                passphrase: text_or_empty(sources.passphrase),
            },
        )
    }
}

/// The path of the default private key below the home directory `home`.
pub fn default_key_under(home: &str) -> (r: String)
    ensures
        r@ == joined(home@, DEFAULT_KEY@),
{
    join(home, DEFAULT_KEY)
}

/// Resolves the SSH identity for a request of the transport.
pub fn credentials(request: &Request, sources: &Sources) -> (r: Result<
    SshIdentity,
    CredentialError,
>)
    ensures
        r is Ok <==> identity_for(*request, *sources) is Ok,
        r is Ok ==> r->Ok_0@ == identity_for(*request, *sources)->Ok_0,
        r is Err ==> r->Err_0 == identity_for(*request, *sources)->Err_0,
{
    if !request.ssh_key_allowed {
        return Err(CredentialError::UnsupportedScheme);
    }
    let username = match &request.username {
        Some(u) => u.clone(),
        None => {
            return Err(CredentialError::NoUsername);
        },
    };
    let private_key = match &sources.default_key {
        Some(k) => k.clone(),
        None => match &sources.key_override {
            Some(k) => k.clone(),
            None => {
                return Err(CredentialError::NoPrivateKey);
            },
        },
    };
    let passphrase = match &sources.passphrase {
        Some(p) => p.clone(),
        None => String::new(),
    };
    Ok(SshIdentity { username, private_key, passphrase })
}

/// The identity can be handed to the transport library as C strings:
/// none of its three texts holds a NUL character.
pub open spec fn presentable(identity: SshIdentityView) -> bool {
    &&& !identity.username.contains('\0')
    &&& !identity.private_key.contains('\0')
    &&& !identity.passphrase.contains('\0')
}

/// `git2::Cred::ssh_key`, called with the identity's user, no public key,
/// the path of its private key and its passphrase. It turns the three texts
/// into C strings, which fails exactly on a NUL character in one of them,
/// and copies them into the credential object that the transport
/// authenticates with; it reads no file. So it succeeds exactly on an
/// identity without a NUL character. Nothing is claimed of the object
/// itself.
#[verifier::external_body]
fn ssh_key(identity: &SshIdentity) -> (r: Result<git2::Cred, git2::Error>)
    ensures
        r is Ok <==> presentable(identity@),
{
    git2::Cred::ssh_key(
        identity.username.as_str(),
        None,
        std::path::Path::new(identity.private_key.as_str()),
        Some(identity.passphrase.as_str()),
    )
}

/// What becomes of an attempt to make the credential object: the object if
/// it was made, else the error that the identity was not taken.
pub fn accepted(made: Result<git2::Cred, git2::Error>) -> (r: Result<git2::Cred, CredentialError>)
    ensures
        made is Ok ==> r is Ok && r->Ok_0 == made->Ok_0,
        made is Err ==> r is Err && r->Err_0 == CredentialError::Rejected,
{
    match made {
        Ok(c) => Ok(c),
        Err(_) => Err(CredentialError::Rejected),
    }
}

/// The outcome of making the credential object for a request: the error of
/// the identity where none can be given, the error that the transport
/// library does not take it where one of its texts holds a NUL character,
/// and success otherwise.
pub open spec fn credential_outcome(request: Request, sources: Sources) -> Result<
    (),
    CredentialError,
> {
    match identity_for(request, sources) {
        Err(e) => Err(e),
        Ok(identity) => if presentable(identity) {
            Ok(())
        } else {
            Err(CredentialError::Rejected)
        },
    }
}

/// Resolves the SSH identity for a request of the transport and makes the
/// credential object of it. Where no identity can be given the error says
/// why. Where there is one, the object is made unless one of the identity's
/// texts holds a NUL character, which the transport library does not take.
pub fn credential(request: &Request, sources: &Sources) -> (r: Result<
    git2::Cred,
    CredentialError,
>)
    ensures
        r is Ok <==> credential_outcome(*request, *sources) is Ok,
        r is Err ==> r->Err_0 == credential_outcome(*request, *sources)->Err_0,
{
    match credentials(request, sources) {
        Ok(identity) => accepted(ssh_key(&identity)),
        Err(e) => Err(e),
    }
}

} // verus!
