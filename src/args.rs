//! The settings that a run is started with.
use vstd::prelude::*;

verus! {

/// The age threshold in days when none is given.
pub const DEFAULT_UNUSED_ACCESS_AGE: i64 = 90;

#[derive(Debug, Clone)]
pub struct Args {
    pub region: Option<String>,
    pub access_key: Option<String>,
    pub secret_key: Option<String>,
    pub unused_access_age: i64,
}

#[derive(Clone, Copy, Debug, PartialEq, Eq, Structural)]
pub enum CredentialError {
    AccessKeyNotFound,
    SecretKeyNotFound,
}

impl Args {
    /// The access key and the secret key, where both were given; else the
    /// first that is missing.
    pub fn cred(&self) -> (r: Result<(String, String), CredentialError>)
        ensures
            self.access_key is None ==> r == Err::<(String, String), _>(CredentialError::AccessKeyNotFound),
            self.access_key is Some && self.secret_key is None ==> r == Err::<(String, String), _>(
                CredentialError::SecretKeyNotFound,
            ),
            self.access_key is Some && self.secret_key is Some ==> r is Ok && r->Ok_0.0@
                == self.access_key->Some_0@ && r->Ok_0.1@ == self.secret_key->Some_0@,
    {
        let ak = match &self.access_key {
            Some(ak) => ak.clone(),
            None => return Err(CredentialError::AccessKeyNotFound),
        };
        let sk = match &self.secret_key {
            Some(sk) => sk.clone(),
            None => return Err(CredentialError::SecretKeyNotFound),
        };
        Ok((ak, sk))
    }
}

} // verus!
