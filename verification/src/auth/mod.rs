//! API keys of the services that talk to the system.
//!
//! A key belongs to one service and may expire.  The manager keeps the keys
//! that are known and says whether a key is good for a service.

pub mod cli;
pub mod config;

use crate::clock::unix_now;
use crate::text::opt_text;
use crate::strmap::StrMap;
use vstd::prelude::*;
use vstd::string::*;

verus! {

/// Why a key was not accepted.
#[derive(Debug)]
pub enum AuthError {
    /// No key was given.
    MissingApiKey,
    /// The key is unknown, or belongs to another service.
    InvalidApiKey,
    /// The operating system failed.
    Io(String),
    /// Another failure, with its message.
    Other(String),
}

/// What a key record says, as plain values.
#[verifier::ext_equal]
pub struct ApiKeyView {
    pub key: Seq<char>,
    pub service: Seq<char>,
    pub description: Option<Seq<char>>,
    pub expires_at: Option<i64>,
}

/// A key with what is known of it.
#[derive(Debug)]
pub struct ApiKey {
    /// The key itself.
    pub key: String,
    /// The service that the key is for.
    pub service: String,
    /// What the key is for.
    pub description: Option<String>,
    /// The last second, since 1970, at which the key is good.
    pub expires_at: Option<i64>,
}

impl View for ApiKey {
    type V = ApiKeyView;

    open spec fn view(&self) -> ApiKeyView {
        ApiKeyView {
            key: self.key@,
            service: self.service@,
            description: opt_text(self.description),
            expires_at: self.expires_at,
        }
    }
}

/// What the manager makes of a key.
#[derive(Debug, Clone, Copy, PartialEq, Eq, Structural)]
pub enum KeyCheck {
    /// The key is known for the service and has not expired.
    Accepted,
    /// The key is unknown, or known for another service.
    Rejected,
    /// The key is known for the service but its time is over.
    Expired,
}

/// What the manager makes of `key` for `service` at the second `now`.
pub open spec fn check_key(
    keys: Map<Seq<char>, ApiKeyView>,
    key: Seq<char>,
    service: Seq<char>,
    now: i64,
) -> KeyCheck {
    if !keys.contains_key(key) || keys[key].service != service {
        KeyCheck::Rejected
    } else {
        match keys[key].expires_at {
            Some(e) => if now > e {
                KeyCheck::Expired
            } else {
                KeyCheck::Accepted
            },
            None => KeyCheck::Accepted,
        }
    }
}

/// The message for a key whose time is over.
pub open spec fn expired_message() -> Seq<char> {
    "API key has expired"@
}

/// The message for a clock that stands before 1970.
pub open spec fn clock_message() -> Seq<char> {
    "System time is before UNIX_EPOCH"@
}

/// `r` is what the check `c` asks for.
pub open spec fn answers(c: KeyCheck, r: Result<(), AuthError>) -> bool {
    match c {
        KeyCheck::Accepted => r is Ok,
        KeyCheck::Rejected => r matches Err(AuthError::InvalidApiKey),
        KeyCheck::Expired => r matches Err(AuthError::Other(m)) && m@ == expired_message(),
    }
}

/// `r` is what validating `key` for `service` may give, whatever the clock
/// says: a key that cannot expire is judged without the clock; for one that
/// can, the answer is that of some second, or the failure of the clock.
pub open spec fn validated(
    keys: Map<Seq<char>, ApiKeyView>,
    key: Seq<char>,
    service: Seq<char>,
    r: Result<(), AuthError>,
) -> bool {
    if check_key(keys, key, service, 0) == KeyCheck::Rejected || keys[key].expires_at is None {
        answers(check_key(keys, key, service, 0), r)
    } else {
        ||| exists|now: i64| answers(#[trigger] check_key(keys, key, service, now), r)
        ||| (r matches Err(AuthError::Other(m)) && m@ == clock_message())
    }
}

/// The keys that are known, by key.
pub struct ApiKeyManager {
    keys: StrMap<ApiKey>,
}

/// The records of a table of keys.
pub open spec fn key_views(m: Map<Seq<char>, ApiKey>) -> Map<Seq<char>, ApiKeyView> {
    m.map_values(|k: ApiKey| k@)
}

impl View for ApiKeyManager {
    type V = Map<Seq<char>, ApiKeyView>;

    closed spec fn view(&self) -> Map<Seq<char>, ApiKeyView> {
        key_views(self.keys@)
    }
}

impl ApiKeyManager {
    /// A manager that knows no key.
    pub fn new() -> (r: Self)
        ensures
            r@ == Map::<Seq<char>, ApiKeyView>::empty(),
    {
        let r = ApiKeyManager { keys: StrMap::new() };
        assert(r@ =~= Map::<Seq<char>, ApiKeyView>::empty());
        r
    }

    /// Makes a key known.  A key that was known is replaced.
    pub fn add_key(&mut self, key: ApiKey) -> (r: Result<(), AuthError>)
        ensures
            r is Ok,
            final(self)@ == old(self)@.insert(key.key@, key@),
    {
        let name = key.key.clone();
        let _old = self.keys.insert(name, key);
        assert(self@ =~= old(self)@.insert(key.key@, key@));
        Ok(())
    }

    /// Forgets a key.  An unknown key is no error.
    pub fn remove_key(&mut self, key: &str) -> (r: Result<(), AuthError>)
        ensures
            r is Ok,
            final(self)@ == old(self)@.remove(key@),
    {
        let _old = self.keys.remove(key);
        assert(self@ =~= old(self)@.remove(key@));
        Ok(())
    }

    /// Says whether `key` is good for `service` at the second `now`.
    pub fn validate_key_at(&self, key: &str, service: &str, now: i64) -> (r: Result<
        (),
        AuthError,
    >)
        ensures
            answers(check_key(self@, key@, service@, now), r),
    {
        match self.keys.get(key) {
            None => Err(AuthError::InvalidApiKey),
            Some(api_key) => {
                assert(self@[key@] == api_key@);
                if *api_key.service.as_str() != *service {
                    return Err(AuthError::InvalidApiKey);
                }
                match api_key.expires_at {
                    Some(e) => if now > e {
                        Err(AuthError::Other(String::from_str("API key has expired")))
                    } else {
                        Ok(())
                    },
                    None => Ok(()),
                }
            },
        }
    }

    /// Says whether `key` is good for `service` now.  The clock is read only
    /// for a key that can expire.
    pub fn validate_key(&self, key: &str, service: &str) -> (r: Result<(), AuthError>)
        ensures
            validated(self@, key@, service@, r),
    {
        let expires = match self.keys.get(key) {
            None => false,
            Some(api_key) => {
                assert(self@[key@] == api_key@);
                api_key.expires_at.is_some()
            },
        };
        if !expires {
            return self.validate_key_at(key, service, 0);
        }
        if self.validate_key_at(key, service, i64::MIN).is_err() {
            return Err(AuthError::InvalidApiKey);
        }
        match unix_now() {
            None => Err(AuthError::Other(String::from_str("System time is before UNIX_EPOCH"))),
            Some(now) => self.validate_key_at(key, service, now),
        }
    }
}

/// The key that a caller presents: the one from the command line, or else
/// the one from the environment.
pub open spec fn presented(arg_key: Option<String>, env_value: Option<String>) -> Option<
    Seq<char>,
> {
    match arg_key {
        Some(k) => Some(k@),
        None => opt_text(env_value),
    }
}

/// What presenting a key gives: the key, where it is good for the service.
pub open spec fn key_answer(
    keys: Map<Seq<char>, ApiKeyView>,
    key: Option<Seq<char>>,
    service: Seq<char>,
    r: Result<String, AuthError>,
) -> bool {
    match key {
        None => r matches Err(AuthError::MissingApiKey),
        Some(k) => match r {
            Ok(s) => s@ == k && validated(keys, k, service, Ok(())),
            Err(e) => validated(keys, k, service, Err(e)),
        },
    }
}

/// The key from the environment, where the variable is set and the key is
/// good for the service.  `env_value` is what the variable holds.
pub fn get_api_key_from_env(
    env_value: Option<String>,
    service: &str,
    key_manager: &ApiKeyManager,
) -> (r: Result<String, AuthError>)
    ensures
        key_answer(key_manager@, opt_text(env_value), service@, r),
{
    match env_value {
        None => Err(AuthError::MissingApiKey),
        Some(key) => match key_manager.validate_key(key.as_str(), service) {
            Ok(()) => Ok(key),
            Err(e) => Err(e),
        },
    }
}

/// The key from the command line, or else from the environment, where it is
/// good for the service.  `env_value` is what the variable of the service
/// holds.
pub fn get_api_key(
    arg_key: Option<String>,
    env_value: Option<String>,
    service: &str,
    key_manager: &ApiKeyManager,
) -> (r: Result<String, AuthError>)
    ensures
        key_answer(key_manager@, presented(arg_key, env_value), service@, r),
{
    match arg_key {
        Some(key) => match key_manager.validate_key(key.as_str(), service) {
            Ok(()) => Ok(key),
            Err(e) => Err(e),
        },
        None => get_api_key_from_env(env_value, service, key_manager),
    }
}

} // verus!
