//! Credential storage: the keychain-backed store and the policy that
//! governs its encrypted-file fallback.
//!
//! The keychain and the fallback file are outside I/O; the binary around
//! the library performs them and feeds the outcomes to the policy
//! functions here, which decide every step exactly as specified: the
//! fallback mirrors writes, a keychain miss falls back to the file, and
//! writing the fallback in plaintext is refused.

use vstd::prelude::*;
use vstd::string::StringExecFns;

use crate::model::{Credential, CredentialRef};

verus! {

/// A handle on the OS keychain, identified by a service name.
pub struct KeyringStore {
    pub service: String,
}

impl KeyringStore {
    /// A store for the given keychain service.
    pub fn new(service: &str) -> (r: KeyringStore)
        ensures
            r.service@ == service@,
    {
        KeyringStore { service: String::from_str(service) }
    }
}

impl Clone for KeyringStore {
    /// An exact copy.
    fn clone(&self) -> (r: Self)
        ensures
            r == *self,
    {
        KeyringStore { service: self.service.clone() }
    }
}

/// The contract a credential backend offers: store a secret under a
/// reference and resolve a reference back to the secret.  Implementations
/// do I/O and live outside the library.
pub trait CredentialStore {
    /// Stores a credential under the reference.
    fn store(&mut self, reference: &CredentialRef, credential: &Credential) -> Result<(), String>;

    /// Resolves a reference to the stored credential.
    fn resolve(&mut self, reference: &CredentialRef) -> Result<Credential, String>;
}

/// What a store operation should do once the keychain write attempt has
/// come back.
#[derive(Clone, Copy, PartialEq, Eq, Structural, Debug)]
pub enum StorePlan {
    /// The write is complete.
    Done,
    /// Mirror the credential into the fallback file, then report success.
    WriteFallback,
    /// No fallback is configured: report the keychain error.
    Fail,
}

/// After a keychain write attempt: mirror to the fallback whenever one is
/// configured; without a fallback, a keychain failure propagates.
pub fn store_followup(keychain_ok: bool, fallback_configured: bool) -> (r: StorePlan)
    ensures
        r == (if fallback_configured {
            StorePlan::WriteFallback
        } else if keychain_ok {
            StorePlan::Done
        } else {
            StorePlan::Fail
        }),
{
    if fallback_configured {
        StorePlan::WriteFallback
    } else if keychain_ok {
        StorePlan::Done
    } else {
        StorePlan::Fail
    }
}

/// Writing the fallback file is allowed only when an encryption
/// passphrase is configured: plaintext secrets at rest are refused.
pub fn fallback_write_allowed(encryption_key_configured: bool) -> (r: bool)
    ensures
        r == encryption_key_configured,
{
    encryption_key_configured
}

/// Where a resolve should take the credential from.
#[derive(Clone, Copy, PartialEq, Eq, Structural, Debug)]
pub enum ResolvePlan {
    /// The keychain answered.
    Keychain,
    /// The keychain missed; take the fallback file's copy.
    Fallback,
    /// Both missed: report the keychain error.
    Fail,
}

/// After a keychain read attempt: a miss is answered from the fallback
/// file when one is configured and holds the reference; otherwise the
/// keychain error propagates.
pub fn resolve_source(keychain_hit: bool, fallback_configured: bool, fallback_hit: bool) -> (r:
    ResolvePlan)
    ensures
        r == (if keychain_hit {
            ResolvePlan::Keychain
        } else if fallback_configured && fallback_hit {
            ResolvePlan::Fallback
        } else {
            ResolvePlan::Fail
        }),
{
    if keychain_hit {
        ResolvePlan::Keychain
    } else if fallback_configured && fallback_hit {
        ResolvePlan::Fallback
    } else {
        ResolvePlan::Fail
    }
}

/// How an SSH session authenticates, derived from a resolved credential.
/// The secret material stays in the credential; the plan only names the
/// method.
#[derive(Debug)]
pub enum SshAuthPlan {
    /// Password authentication for the named user.
    Password { username: String },
    /// Key authentication: the key file is read from this path, with or
    /// without a passphrase.
    KeyFile { username: String, key_path: String, has_passphrase: bool },
}

/// Chooses the SSH authentication method a credential supports: a
/// password or a key file; a bearer token cannot open an SSH session.
pub fn ssh_auth_plan(credential: &Credential) -> (r: Result<SshAuthPlan, String>)
    ensures
        match credential {
            Credential::UserPassword { username, .. } => r matches Ok(p) && (p matches
                SshAuthPlan::Password { username: u } && u@ == username@),
            Credential::SshKey { username, key_path, passphrase } => r matches Ok(p) && (p matches
                SshAuthPlan::KeyFile { username: u, key_path: k, has_passphrase: h } && u@
                == username@ && k@ == key_path@ && h == (passphrase is Some)),
            Credential::Token { .. } => r matches Err(m) && m@
                == "token-based credential cannot be used for SSH"@,
        },
{
    match credential {
        Credential::UserPassword { username, password: _ } => Ok(
            SshAuthPlan::Password { username: username.clone() },
        ),
        Credential::SshKey { username, key_path, passphrase } => Ok(
            SshAuthPlan::KeyFile {
                username: username.clone(),
                key_path: key_path.clone(),
                has_passphrase: passphrase.is_some(),
            },
        ),
        Credential::Token { .. } => Err(
            String::from_str("token-based credential cannot be used for SSH"),
        ),
    }
}

} // verus!
