//! The key file: which keys each service has.

use crate::auth::{ApiKey, ApiKeyManager, ApiKeyView, AuthError};

use crate::strmap::StrMap;
use crate::text::{copy_opt, decimal, decimal_text, opt_text, texts};
use vstd::prelude::*;
use vstd::string::*;

verus! {

/// Why the key file could not be used.
#[derive(Debug)]
pub enum ConfigError {
    /// The file could not be read or written.
    Io(String),
    /// The file is no key file.
    Toml(String),
    /// A key was refused.
    Auth(AuthError),
}

/// What the keys of one service say, as plain values.
#[verifier::ext_equal]
pub struct ServiceKeysView {
    pub primary: Option<Seq<char>>,
    pub additional: Seq<Seq<char>>,
    pub env_var: Option<Seq<char>>,
}

/// The keys of one service.
#[derive(Debug)]
pub struct ServiceKeys {
    /// The key that the service uses first.
    pub primary: Option<String>,
    /// Further keys of the service.
    pub additional: Vec<String>,
    /// The environment variable that overrides the primary key.
    pub env_var: Option<String>,
}

impl View for ServiceKeys {
    type V = ServiceKeysView;

    open spec fn view(&self) -> ServiceKeysView {
        ServiceKeysView {
            primary: opt_text(self.primary),
            additional: texts(self.additional@),
            env_var: opt_text(self.env_var),
        }
    }
}

impl Default for ServiceKeys {
    fn default() -> (r: Self)
        ensures
            r@ == no_keys(),
    {
        let r = ServiceKeys { primary: None, additional: Vec::new(), env_var: None };
        assert(r@.additional =~= Seq::<Seq<char>>::empty());
        r
    }
}

/// A service without keys.
pub open spec fn no_keys() -> ServiceKeysView {
    ServiceKeysView { primary: None, additional: Seq::empty(), env_var: None }
}

/// The key file.
#[derive(Debug)]
pub struct ApiKeyConfig {
    /// The prefix of the environment variables.
    pub env_prefix: String,
    /// The keys of each service.
    pub keys: StrMap<ServiceKeys>,
}

/// What the upper-case form of a text is, as `str::to_uppercase` gives it.
pub uninterp spec fn upper_text(s: Seq<char>) -> Seq<char>;

/// `str::to_uppercase`: the upper-case form of a text.
#[verifier::external_body]
fn to_upper(s: &str) -> (r: String)
    ensures
        r@ == upper_text(s@),
{
    s.to_uppercase()
}

/// The prefix of environment variables where the key file names none.
pub fn default_env_prefix() -> (r: String)
    ensures
        r@ == "RAST"@,
{
    String::from_str("RAST")
}

impl Default for ApiKeyConfig {
    fn default() -> (r: Self)
        ensures
            r.env_prefix@ == "RAST"@,
            r.keys@ == Map::<Seq<char>, ServiceKeys>::empty(),
    {
        ApiKeyConfig { env_prefix: default_env_prefix(), keys: StrMap::new() }
    }
}

/// The note on a primary key.
pub open spec fn primary_note() -> Seq<char> {
    "Primary key from config"@
}

/// The note on the `n`-th additional key.
pub open spec fn additional_note(n: nat) -> Seq<char> {
    "Additional key #"@ + decimal_text(n) + " from config"@
}

/// The record of a key from the key file.
pub open spec fn file_key(key: Seq<char>, service: Seq<char>, note: Seq<char>) -> ApiKeyView {
    ApiKeyView { key, service, description: Some(note), expires_at: None }
}

/// The first `upto` additional keys of a service, as records.
pub open spec fn additional_keys(
    service: Seq<char>,
    additional: Seq<Seq<char>>,
    upto: nat,
) -> Seq<ApiKeyView>
    decreases upto,
{
    if upto == 0 {
        Seq::empty()
    } else {
        additional_keys(service, additional, (upto - 1) as nat).push(
            file_key(additional[upto - 1], service, additional_note(upto)),
        )
    }
}

/// The keys of a service, as records: the primary key, then the additional
/// ones, numbered from one.
pub open spec fn service_keys(service: Seq<char>, keys: ServiceKeysView) -> Seq<ApiKeyView> {
    (match keys.primary {
        Some(k) => seq![file_key(k, service, primary_note())],
        None => Seq::empty(),
    }) + additional_keys(service, keys.additional, keys.additional.len())
}

/// The keys of the first `upto` services, as records.
pub open spec fn file_keys(
    services: Seq<Seq<char>>,
    keys: Seq<ServiceKeys>,
    upto: nat,
) -> Seq<ApiKeyView>
    decreases upto,
{
    if upto == 0 {
        Seq::empty()
    } else {
        file_keys(services, keys, (upto - 1) as nat) + service_keys(
            services[upto - 1],
            keys[upto - 1]@,
        )
    }
}

/// A table of keys after the given records were entered, one after another.
pub open spec fn with_keys(m: Map<Seq<char>, ApiKeyView>, ks: Seq<ApiKeyView>) -> Map<
    Seq<char>,
    ApiKeyView,
>
    decreases ks.len(),
{
    if ks.len() == 0 {
        m
    } else {
        with_keys(m, ks.drop_last()).insert(ks.last().key, ks.last())
    }
}

/// Entering two lists of records one after the other is entering their
/// concatenation.
pub proof fn lemma_with_keys_add(
    m: Map<Seq<char>, ApiKeyView>,
    a: Seq<ApiKeyView>,
    b: Seq<ApiKeyView>,
)
    ensures
        with_keys(m, a + b) == with_keys(with_keys(m, a), b),
    decreases b.len(),
{
    if b.len() == 0 {
        assert(a + b =~= a);
    } else {
        assert((a + b).drop_last() =~= a + b.drop_last());
        assert((a + b).last() == b.last());
        lemma_with_keys_add(m, a, b.drop_last());
    }
}

/// The keys of a service after one more key was added.  The new key becomes
/// the primary key where that was asked for or where there was none; the
/// primary key that it replaces goes to the additional keys.  Otherwise the
/// new key goes to the additional keys.
pub open spec fn with_key_added(
    keys: ServiceKeysView,
    key: Seq<char>,
    primary: bool,
    env_var: Option<Seq<char>>,
) -> ServiceKeysView {
    let env = match env_var {
        Some(v) => Some(v),
        None => keys.env_var,
    };
    if primary || keys.primary is None {
        ServiceKeysView {
            primary: Some(key),
            additional: match keys.primary {
                Some(old) => keys.additional.push(old),
                None => keys.additional,
            },
            env_var: env,
        }
    } else {
        ServiceKeysView { primary: keys.primary, additional: keys.additional.push(key), env_var: env }
    }
}

/// What taking keys of a service out did.
#[derive(Debug, Clone, Copy, PartialEq, Eq, Structural)]
pub enum Removed {
    /// The service and all its keys are gone.
    All,
    /// The primary key is gone.
    Primary,
    /// One of the additional keys is gone.
    Additional,
}

/// Why no key was taken out.
#[derive(Debug, Clone, Copy, PartialEq, Eq, Structural)]
pub enum RemoveError {
    /// The key file knows no such service.
    NoService,
    /// The service has no such key.
    NoKey,
    /// Neither a key nor all keys were named.
    NothingNamed,
}

/// The first place of `key` in a list of keys, or the length of the list.
pub open spec fn first_place(keys: Seq<Seq<char>>, key: Seq<char>) -> int
    decreases keys.len(),
{
    if keys.len() == 0 {
        0
    } else if keys[0] == key {
        0
    } else {
        1 + first_place(keys.drop_first(), key)
    }
}

/// What taking keys out gives: the outcome, and the keys of the service
/// afterwards where the service stays.
pub open spec fn removal(
    keys: Option<ServiceKeysView>,
    key: Option<Seq<char>>,
    all: bool,
) -> Result<(Removed, Option<ServiceKeysView>), RemoveError> {
    match keys {
        None => Err(RemoveError::NoService),
        Some(sk) => if all {
            Ok((Removed::All, None))
        } else {
            match key {
                None => Err(RemoveError::NothingNamed),
                Some(k) => if sk.primary == Some(k) {
                    Ok((Removed::Primary, Some(ServiceKeysView { primary: None, ..sk })))
                } else if sk.additional.contains(k) {
                    Ok(
                        (
                            Removed::Additional,
                            Some(
                                ServiceKeysView {
                                    additional: sk.additional.remove(first_place(sk.additional, k)),
                                    ..sk
                                },
                            ),
                        ),
                    )
                } else {
                    Err(RemoveError::NoKey)
                },
            }
        },
    }
}

/// The keys of each service, as plain values.
pub open spec fn services(m: Map<Seq<char>, ServiceKeys>) -> Map<Seq<char>, ServiceKeysView> {
    m.map_values(|k: ServiceKeys| k@)
}

/// The keys of a service, where the table has the service.
pub open spec fn service_of(m: Map<Seq<char>, ServiceKeys>, service: Seq<char>) -> Option<
    ServiceKeysView,
> {
    if m.contains_key(service) {
        Some(m[service]@)
    } else {
        None
    }
}

/// The place of `key` among `keys`.
fn place_in(keys: &Vec<String>, key: &str) -> (r: Option<usize>)
    ensures
        match r {
            Some(i) => texts(keys@).contains(key@) && i == first_place(texts(keys@), key@)
                && i < keys@.len(),
            None => !texts(keys@).contains(key@),
        },
{
    let mut i: usize = 0;
    let ghost all = texts(keys@);
    assert(all.skip(0) =~= all);
    while i < keys.len()
        invariant
            i <= keys@.len(),
            all == texts(keys@),
            forall|j: int| 0 <= j < i ==> all[j] != key@,
            first_place(all, key@) == i + first_place(all.skip(i as int), key@),
        decreases keys@.len() - i,
    {
        assert(all.skip(i as int)[0] == all[i as int]);
        if *keys[i].as_str() == *key {
            assert(all[i as int] == key@);
            return Some(i);
        }
        assert(all.skip(i as int).drop_first() =~= all.skip(i + 1));
        i += 1;
    }
    None
}

impl ApiKeyConfig {
    /// The name of the environment variable of a service: the prefix of the
    /// key file in upper case, followed by `_API_KEY`.
    pub fn env_var_for_service(&self, service: &str) -> (r: String)
        ensures
            r@ == upper_text(self.env_prefix@) + "_API_KEY"@,
    {
        let mut name = to_upper(self.env_prefix.as_str());
        name.append("_API_KEY");
        name
    }

    /// The environment variable that overrides the primary key of a service,
    /// where the key file names one.
    pub fn override_var(&self, service: &str) -> (r: Option<String>)
        ensures
            opt_text(r) == (match service_of(self.keys@, service@) {
                Some(k) => k.env_var,
                None => None,
            }),
    {
        match self.keys.get(service) {
            Some(k) => copy_opt(&k.env_var),
            None => None,
        }
    }

    /// The key of a service.  `env_value` is what the override variable of
    /// the service holds; where the key file names such a variable and it is
    /// set, its value is the key, else the primary key of the key file.
    pub fn get_key(&self, service: &str, env_value: Option<&str>) -> (r: Option<String>)
        ensures
            opt_text(r) == (match service_of(self.keys@, service@) {
                Some(k) => if k.env_var is Some && env_value is Some {
                    Some(env_value->0@)
                } else {
                    k.primary
                },
                None => None,
            }),
    {
        match self.keys.get(service) {
            None => None,
            Some(k) => {
                if k.env_var.is_some() {
                    match env_value {
                        Some(v) => {
                            return Some(String::from_str(v));
                        },
                        None => {},
                    }
                }
                copy_opt(&k.primary)
            },
        }
    }

    /// The keys of the key file, as records, service by service.
    pub open spec fn all_keys(&self) -> Seq<ApiKeyView> {
        file_keys(self.keys.key_seq(), self.keys.value_seq(), self.keys.key_seq().len())
    }

    /// Makes every key of the key file known to the manager: for each
    /// service its primary key, then its additional keys.
    pub fn add_to_manager(&self, manager: &mut ApiKeyManager) -> (r: Result<(), ConfigError>)
        ensures
            r is Ok,
            final(manager)@ == with_keys(old(manager)@, self.all_keys()),
    {
        let n = self.keys.len();
        let ghost services = self.keys.key_seq();
        let ghost values = self.keys.value_seq();
        let ghost start = manager@;
        let mut s: usize = 0;
        while s < n
            invariant
                s <= n,
                n == services.len(),
                services == self.keys.key_seq(),
                values == self.keys.value_seq(),
                manager@ == with_keys(start, file_keys(services, values, s as nat)),
            decreases n - s,
        {
            let (service, keys) = match self.keys.entry_at(s) {
                Some(entry) => entry,
                None => {
                    return Ok(());
                },
            };
            let ghost before = manager@;
            let ghost mut done: Seq<ApiKeyView> = Seq::empty();
            match &keys.primary {
                Some(key) => {
                    let _r = manager.add_key(
                        ApiKey {
                            key: key.clone(),
                            service: service.clone(),
                            description: Some(String::from_str("Primary key from config")),
                            expires_at: None,
                        },
                    );
                    proof {
                        reveal_with_fuel(with_keys, 2);
                        done = seq![file_key(key@, service@, primary_note())];
                        assert(done.drop_last() =~= Seq::<ApiKeyView>::empty());
                        assert(done.last() == file_key(key@, service@, primary_note()));
                        assert(manager@ =~= with_keys(before, done));
                    }
                },
                None => {},
            }
            let ghost head = done;
            let mut i: usize = 0;
            proof {
                assert(head + Seq::<ApiKeyView>::empty() =~= head);
            }
            while i < keys.additional.len()
                invariant
                    i <= keys.additional@.len(),
                    manager@ == with_keys(
                        before,
                        head + additional_keys(service@, keys@.additional, i as nat),
                    ),
                decreases keys.additional@.len() - i,
            {
                let mut note = String::from_str("Additional key #");
                let number = decimal((i + 1) as u64);
                note.append(number.as_str());
                note.append(" from config");
                let key = &keys.additional[i];
                let ghost prior = manager@;
                let _r = manager.add_key(
                    ApiKey {
                        key: key.clone(),
                        service: service.clone(),
                        description: Some(note),
                        expires_at: None,
                    },
                );
                proof {
                    let rec = file_key(key@, service@, additional_note((i + 1) as nat));
                    let so_far = head + additional_keys(service@, keys@.additional, i as nat);
                    let next = head + additional_keys(service@, keys@.additional, (i + 1) as nat);
                    assert(next =~= so_far.push(rec));
                    assert(next.drop_last() =~= so_far);
                    assert(manager@ == prior.insert(rec.key, rec));
                }
                i += 1;
            }
            proof {
                assert(head + additional_keys(
                    service@,
                    keys@.additional,
                    keys@.additional.len(),
                ) =~= service_keys(service@, keys@));
                lemma_with_keys_add(
                    start,
                    file_keys(services, values, s as nat),
                    service_keys(service@, keys@),
                );
            }
            s += 1;
        }
        Ok(())
    }

    /// Adds a key to a service, as `with_key_added` describes.  A service
    /// that the key file did not know is entered.
    pub fn add_key(&mut self, service: &str, key: String, primary: bool, env_var: Option<String>)
        ensures
            final(self).env_prefix == old(self).env_prefix,
            services(final(self).keys@) == services(old(self).keys@).insert(
                service@,
                with_key_added(
                    match service_of(old(self).keys@, service@) {
                        Some(k) => k,
                        None => no_keys(),
                    },
                    key@,
                    primary,
                    opt_text(env_var),
                ),
            ),
    {
        let ghost before = self.keys@;
        let old_keys = match self.keys.insert(String::from_str(service), ServiceKeys::default()) {
            Some(k) => k,
            None => ServiceKeys::default(),
        };
        let ghost old_view = old_keys@;
        let mut keys = old_keys;
        if primary || keys.primary.is_none() {
            let mut slot: Option<String> = Some(key);
            core::mem::swap(&mut slot, &mut keys.primary);
            match slot {
                Some(old) => {
                    let ghost prev = keys.additional@;
                    keys.additional.push(old);
                    assert(texts(keys.additional@) =~= texts(prev).push(old@));
                },
                None => {},
            }
        } else {
            let ghost prev = keys.additional@;
            keys.additional.push(key);
            assert(texts(keys.additional@) =~= texts(prev).push(key@));
        }
        match env_var {
            Some(v) => {
                keys.env_var = Some(v);
            },
            None => {},
        }
        assert(keys@ == with_key_added(old_view, key@, primary, opt_text(env_var)));
        let ghost new_view = keys@;
        let _placeholder = self.keys.insert(String::from_str(service), keys);
        assert(services(self.keys@) =~= services(before).insert(service@, new_view));
    }

    /// Takes keys of a service out, as `removal` describes: all of them with
    /// the service, or the one that is named.  Where nothing is taken out the
    /// key file stays as it was.
    pub fn remove_key(&mut self, service: &str, key: Option<&str>, all: bool) -> (r: Result<
        Removed,
        RemoveError,
    >)
        ensures
            final(self).env_prefix == old(self).env_prefix,
            match removal(
                service_of(old(self).keys@, service@),
                match key {
                    Some(k) => Some(k@),
                    None => None,
                },
                all,
            ) {
                Ok((what, left)) => r == Ok::<Removed, RemoveError>(what) && services(
                    final(self).keys@,
                ) == (match left {
                    Some(k) => services(old(self).keys@).insert(service@, k),
                    None => services(old(self).keys@).remove(service@),
                }),
                Err(e) => r == Err::<Removed, RemoveError>(e) && services(final(self).keys@)
                    == services(old(self).keys@),
            },
    {
        let ghost before = self.keys@;
        if !self.keys.contains_key(service) {
            return Err(RemoveError::NoService);
        }
        if all {
            let _gone = self.keys.remove(service);
            assert(services(self.keys@) =~= services(before).remove(service@));
            return Ok(Removed::All);
        }
        let key = match key {
            None => {
                return Err(RemoveError::NothingNamed);
            },
            Some(k) => k,
        };
        let mut keys = match self.keys.insert(String::from_str(service), ServiceKeys::default()) {
            Some(k) => k,
            None => ServiceKeys::default(),
        };
        let ghost old_view = keys@;
        let is_primary = match &keys.primary {
            Some(p) => *p.as_str() == *key,
            None => false,
        };
        let outcome = if is_primary {
            keys.primary = None;
            Ok(Removed::Primary)
        } else {
            match place_in(&keys.additional, key) {
                Some(i) => {
                    let ghost prev = keys.additional@;
                    let _gone = keys.additional.remove(i);
                    assert(texts(keys.additional@) =~= texts(prev).remove(i as int));
                    Ok(Removed::Additional)
                },
                None => Err(RemoveError::NoKey),
            }
        };
        let ghost new_view = keys@;
        let _placeholder = self.keys.insert(String::from_str(service), keys);
        proof {
            assert(services(self.keys@) =~= services(before).insert(service@, new_view));
            if outcome is Err {
                assert(new_view == old_view);
                assert(services(before).insert(service@, old_view) =~= services(before));
            }
        }
        outcome
    }
}

} // verus!
