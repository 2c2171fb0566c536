//! The commands that manage API keys.

use crate::clock::parse_day;
use crate::clock::day_start;
use base64::URL_SAFE_NO_PAD;
use crate::random::os_random;
use vstd::prelude::*;

verus! {

/// The commands on API keys.
#[derive(Debug)]
pub enum ApiKeyCommand {
    /// Add a key.
    Add(AddKeyArgs),
    /// List the keys.
    List,
    /// Remove a key.
    Remove(RemoveKeyArgs),
    /// Generate a random key.
    Generate(GenerateKeyArgs),
}

/// What `Add` takes.
#[derive(Debug)]
pub struct AddKeyArgs {
    /// The service that the key is for.
    pub service: String,
    /// The key; a random one is generated where none is given.
    pub key: Option<String>,
    /// What the key is for.
    pub description: Option<String>,
    /// The day on which the key expires, as `YYYY-MM-DD`.
    pub expires: Option<String>,
    /// Whether the key becomes the primary key of the service.
    pub primary: bool,
    /// The environment variable that overrides the key.
    pub env_var: Option<String>,
    /// The key file.
    pub config: String,
}

/// What `Remove` takes.
#[derive(Debug)]
pub struct RemoveKeyArgs {
    /// The service to take keys from.
    pub service: String,
    /// The key to take out.
    pub key: Option<String>,
    /// Whether all keys of the service go.
    pub all: bool,
    /// The key file.
    pub config: String,
}

/// What `Generate` takes.
#[derive(Debug)]
pub struct GenerateKeyArgs {
    /// The service that the key is for.
    pub service: String,
    /// The number of random bytes in the key.
    pub length: usize,
    /// Whether the key is added to the key file.
    pub save: bool,
    /// The key file.
    pub config: String,
}

/// The random bytes of a key where none is given.
pub const DEFAULT_KEY_BYTES: usize = 32;

/// The key file where none is named.
pub fn default_config_path() -> (r: String)
    ensures
        r@ == "/etc/rast/auth/keys.toml"@,
{
    "/etc/rast/auth/keys.toml".to_string()
}

/// The character for the six-bit value `v` in the URL-safe alphabet.
pub open spec fn url_safe_char(v: int) -> char {
    if v < 26 {
        (('A' as int) + v) as char
    } else if v < 52 {
        (('a' as int) + v - 26) as char
    } else if v < 62 {
        (('0' as int) + v - 52) as char
    } else if v == 62 {
        '-'
    } else {
        '_'
    }
}

/// The URL-safe Base64 text of bytes, without padding: every three bytes
/// give four characters of six bits each, and one or two bytes at the end
/// give two or three characters.
pub open spec fn base64_url(bytes: Seq<u8>) -> Seq<char>
    decreases bytes.len(),
{
    if bytes.len() == 0 {
        Seq::empty()
    } else if bytes.len() == 1 {
        seq![url_safe_char(bytes[0] as int / 4), url_safe_char((bytes[0] as int % 4) * 16)]
    } else if bytes.len() == 2 {
        seq![
            url_safe_char(bytes[0] as int / 4),
            url_safe_char((bytes[0] as int % 4) * 16 + bytes[1] as int / 16),
            url_safe_char((bytes[1] as int % 16) * 4),
        ]
    } else {
        seq![
            url_safe_char(bytes[0] as int / 4),
            url_safe_char((bytes[0] as int % 4) * 16 + bytes[1] as int / 16),
            url_safe_char((bytes[1] as int % 16) * 4 + bytes[2] as int / 64),
            url_safe_char(bytes[2] as int % 64),
        ] + base64_url(bytes.skip(3))
    }
}

/// `base64::encode_config` with `URL_SAFE_NO_PAD`: the URL-safe Base64 text
/// of the bytes, without padding.
#[verifier::external_body]
fn encode_url_safe(bytes: &[u8]) -> (r: String)
    requires
        bytes@.len() <= usize::MAX / 2,
    ensures
        r@ == base64_url(bytes@),
{
    base64::encode_config(bytes, URL_SAFE_NO_PAD)
}

/// The text of a key made of the given bytes.
pub fn key_text(bytes: &[u8]) -> (r: Option<String>)
    ensures
        match r {
            Some(s) => bytes@.len() <= usize::MAX / 2 && s@ == base64_url(bytes@),
            None => bytes@.len() > usize::MAX / 2,
        },
{
    if bytes.len() > usize::MAX / 2 {
        None
    } else {
        Some(encode_url_safe(bytes))
    }
}

/// A fresh key: the text of `length` random bytes.  `None` where the
/// operating system gave no random bytes, or where the text of so many bytes
/// cannot be held.
pub fn generate_key(length: usize) -> (r: Option<String>)
    ensures
        length > usize::MAX / 2 ==> r is None,
        r matches Some(s) ==> exists|bytes: Seq<u8>|
            bytes.len() == length && s@ == #[trigger] base64_url(bytes),
{
    if length > usize::MAX / 2 {
        return None;
    }
    match os_random(length) {
        None => None,
        Some(bytes) => {
            let r = key_text(bytes.as_slice());
            proof {
                if r is Some {
                    assert(r->Some_0@ == base64_url(bytes@));
                }
            }
            r
        },
    }
}

impl AddKeyArgs {
    /// The second at which the key expires: the first second of the day
    /// that `expires` names.  A key without such a day does not expire; a
    /// text that names no day is handed back as the error.
    pub fn expires_at(&self) -> (r: Result<Option<i64>, String>)
        ensures
            match self.expires {
                None => r matches Ok(None),
                Some(text) => match day_start(text@) {
                    Some(t) => r matches Ok(Some(x)) && x == t,
                    None => r matches Err(m) && m@ == text@,
                },
            },
    {
        match &self.expires {
            None => Ok(None),
            Some(text) => match parse_day(text.as_str()) {
                Some(t) => Ok(Some(t)),
                None => Err(text.clone()),
            },
        }
    }

    /// The key that is added: the one that was given, else a fresh one of
    /// `DEFAULT_KEY_BYTES` random bytes.  `None` where a fresh one is needed
    /// and the operating system gave no random bytes.
    pub fn key_to_add(&self) -> (r: Option<String>)
        ensures
            self.key matches Some(k) ==> (r matches Some(s) && s@ == k@),
            self.key is None ==> (r matches Some(s) ==> exists|bytes: Seq<u8>|
                bytes.len() == DEFAULT_KEY_BYTES && s@ == #[trigger] base64_url(bytes)),
    {
        match &self.key {
            Some(k) => Some(k.clone()),
            None => generate_key(DEFAULT_KEY_BYTES),
        }
    }
}

} // verus!
