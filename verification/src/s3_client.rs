//! Which S3 client a configuration asks for, and the clients that exist already.
use aws_sdk_s3::config::Credentials;
use vstd::prelude::*;

use crate::text::{same, view_of};
use crate::util::s3::{S3Config, S3Settings};

verus! {

/// `aws_sdk_s3::config::Credentials`: a key pair as the S3 client takes it.
#[verifier::external_type_specification]
#[verifier::external_body]
pub struct ExCredentials(aws_sdk_s3::config::Credentials);

/// The credentials that `Credentials::new` makes of a key pair, an optional session token and the
/// name of their provider, with no date of expiry.
pub uninterp spec fn sdk_credentials(
    access_key_id: Seq<char>,
    secret_access_key: Seq<char>,
    session_token: Option<Seq<char>>,
    provider_name: Seq<char>,
) -> Credentials;

/// Makes credentials that never expire with `aws_sdk_s3::config::Credentials::new`.
///
/// Trusted: what it makes is a function of the texts that go into it.
#[verifier::external_body]
fn make_credentials(
    access_key_id: &str,
    secret_access_key: &str,
    session_token: Option<String>,
    provider_name: &'static str,
) -> (credentials: Credentials)
    ensures
        credentials == sdk_credentials(
            access_key_id@,
            secret_access_key@,
            view_of(session_token),
            provider_name@,
        ),
{
    Credentials::new(access_key_id, secret_access_key, session_token, None, provider_name)
}

/// How the S3 client gets its credentials.
pub enum S3CredentialsSource {
    /// From the default chain of providers.
    Default,
    /// From the container that the program runs in, and nowhere else.
    Container,
    /// From the configuration.
    Static(Credentials),
}

impl S3CredentialsSource {
    /// A name for logs, which gives nothing of the credentials away.
    pub fn label(&self) -> (r: &'static str)
        ensures
            r@ == match self {
                S3CredentialsSource::Default => "default"@,
                S3CredentialsSource::Container => "container"@,
                S3CredentialsSource::Static(_) => "static"@,
            },
    {
        match self {
            S3CredentialsSource::Default => "default",
            S3CredentialsSource::Container => "container",
            S3CredentialsSource::Static(_) => "static",
        }
    }
}

/// What is wrong with an S3 configuration.
#[derive(Debug)]
pub enum S3ConfigError {
    /// Keys and a mode of credentials are both given.
    KeysWithMode,
    /// One of the two keys is given without the other.
    KeyWithoutSecret,
    /// A session token is given without keys.
    TokenWithoutKeys,
    /// The mode of credentials is not one there is.
    UnknownMode(String),
}

/// The error of an S3 configuration, if it has one, as what is wrong with it.
pub open spec fn config_error(s: S3Settings) -> Option<S3ConfigFault> {
    if s.access_key_id is Some && s.secret_access_key is Some {
        if s.credentials is Some {
            Some(S3ConfigFault::KeysWithMode)
        } else {
            None
        }
    } else if s.access_key_id is Some || s.secret_access_key is Some {
        Some(S3ConfigFault::KeyWithoutSecret)
    } else if s.session_token is Some {
        Some(S3ConfigFault::TokenWithoutKeys)
    } else {
        match s.credentials {
            Some(mode) => if mode == "container"@ || mode == "default"@ {
                None
            } else {
                Some(S3ConfigFault::UnknownMode(mode))
            },
            None => None,
        }
    }
}

/// An [`S3ConfigError`] by its text.
pub enum S3ConfigFault {
    KeysWithMode,
    KeyWithoutSecret,
    TokenWithoutKeys,
    UnknownMode(Seq<char>),
}

impl View for S3ConfigError {
    type V = S3ConfigFault;

    open spec fn view(&self) -> S3ConfigFault {
        match self {
            S3ConfigError::KeysWithMode => S3ConfigFault::KeysWithMode,
            S3ConfigError::KeyWithoutSecret => S3ConfigFault::KeyWithoutSecret,
            S3ConfigError::TokenWithoutKeys => S3ConfigFault::TokenWithoutKeys,
            S3ConfigError::UnknownMode(mode) => S3ConfigFault::UnknownMode(mode@),
        }
    }
}

/// Where a configuration without fault takes its credentials from.
pub open spec fn credentials_source(s: S3Settings) -> S3CredentialsSource {
    match (s.access_key_id, s.secret_access_key) {
        (Some(id), Some(secret)) => S3CredentialsSource::Static(
            sdk_credentials(id, secret, s.session_token, "avtensor-s3-config"@),
        ),
        _ => if s.credentials == Some("container"@) {
            S3CredentialsSource::Container
        } else {
            S3CredentialsSource::Default
        },
    }
}

/// Decides where the client gets its credentials from.
pub fn resolve_s3_credentials(config: &S3Config) -> (r: Result<S3CredentialsSource, S3ConfigError>)
    ensures
        match config_error(config@) {
            Some(fault) => r matches Err(error) && error@ == fault,
            None => r == Ok::<S3CredentialsSource, S3ConfigError>(credentials_source(config@)),
        },
{
    match (&config.access_key_id, &config.secret_access_key) {
        (Some(id), Some(secret)) => {
            if config.credentials.is_some() {
                return Err(S3ConfigError::KeysWithMode);
            }
            let token = config.session_token.clone();
            return Ok(
                S3CredentialsSource::Static(
                    make_credentials(id.as_str(), secret.as_str(), token, "avtensor-s3-config"),
                ),
            );
        },
        (None, None) => {},
        _ => {
            return Err(S3ConfigError::KeyWithoutSecret);
        },
    }
    if config.session_token.is_some() {
        return Err(S3ConfigError::TokenWithoutKeys);
    }
    match &config.credentials {
        None => Ok(S3CredentialsSource::Default),
        Some(mode) => {
            proof {
                reveal_strlit("container");
                reveal_strlit("default");
                assert("container"@.len() != "default"@.len());
            }
            if same(mode.as_str(), "container") {
                Ok(S3CredentialsSource::Container)
            } else if same(mode.as_str(), "default") {
                Ok(S3CredentialsSource::Default)
            } else {
                Err(S3ConfigError::UnknownMode(mode.clone()))
            }
        },
    }
}

/// How many times the client tries a request.
pub const S3_MAX_ATTEMPTS: u32 = 5;

/// What is laid over the environment's own configuration to make a client.
pub struct S3ClientPlan {
    pub credentials: S3CredentialsSource,
    pub force_path_style: bool,
    pub endpoint_url: Option<String>,
    pub region: Option<String>,
    pub max_attempts: u32,
}

impl S3ClientPlan {
    /// The plan is the one for these settings and this word of the environment.
    pub open spec fn follows(self, s: S3Settings, path_style_variable: Option<Seq<char>>) -> bool {
        &&& self.credentials == credentials_source(s)
        &&& self.force_path_style == match s.force_path_style {
            Some(force) => force,
            None => path_style_variable == Some("1"@),
        }
        &&& view_of(self.endpoint_url) == s.endpoint_url
        &&& view_of(self.region) == s.region
        &&& self.max_attempts == S3_MAX_ATTEMPTS
    }
}

/// Plans the client for `config`. `path_style_variable` is the environment's word on path-style
/// addressing, which counts only where the configuration has none.
pub fn plan_s3_client(config: &S3Config, path_style_variable: Option<&str>) -> (r: Result<
    S3ClientPlan,
    S3ConfigError,
>)
    ensures
        match config_error(config@) {
            Some(fault) => r matches Err(error) && error@ == fault,
            None => r matches Ok(plan) && plan.follows(
                config@,
                match path_style_variable {
                    Some(value) => Some(value@),
                    None => None,
                },
            ),
        },
{
    let credentials = match resolve_s3_credentials(config) {
        Ok(source) => source,
        Err(error) => {
            return Err(error);
        },
    };
    let force_path_style = match config.force_path_style {
        Some(force) => force,
        None => match path_style_variable {
            Some(value) => same(value, "1"),
            None => false,
        },
    };
    Ok(
        S3ClientPlan {
            credentials,
            force_path_style,
            endpoint_url: config.endpoint_url.clone(),
            region: config.region.clone(),
            max_attempts: S3_MAX_ATTEMPTS,
        },
    )
}

/// The settings under which a client is kept.
pub open spec fn settings_of(config: Option<S3Settings>) -> S3Settings {
    match config {
        Some(settings) => settings,
        None => S3Settings::unset(),
    }
}

/// A client is kept under all that its configuration fixes. Without a configuration it is kept as
/// one that fixes nothing is.
pub proof fn law_clients_are_kept_by_their_settings(a: Option<S3Settings>, b: Option<S3Settings>)
    ensures
        a is Some && b is Some && settings_of(a) == settings_of(b) ==> a == b,
        ({
            let nothing = settings_of(None);
            &&& nothing.endpoint_url is None && nothing.region is None
            &&& nothing.access_key_id is None && nothing.secret_access_key is None
            &&& nothing.session_token is None && nothing.credentials is None
            &&& nothing.force_path_style is None
        }),
        a is Some ==> settings_of(a) == a->0,
{
}

/// The configuration under which the client for `config` is kept: nothing fixed where there is
/// none.
pub fn client_key(config: Option<&S3Config>) -> (key: S3Config)
    ensures
        key@ == settings_of(
            match config {
                Some(config) => Some(config@),
                None => None,
            },
        ),
{
    match config {
        Some(config) => config.clone(),
        None => S3Config::default(),
    }
}

/// Clients by the configuration that they were made for.
pub struct ClientCache<C> {
    entries: Vec<(S3Config, C)>,
}

/// Maps each configuration to its client, and to the later one where it stands twice.
pub open spec fn clients_of<C>(entries: Seq<(S3Config, C)>) -> Map<S3Settings, C>
    decreases entries.len(),
{
    if entries.len() == 0 {
        Map::empty()
    } else {
        clients_of(entries.drop_last()).insert(entries.last().0@, entries.last().1)
    }
}

impl<C> View for ClientCache<C> {
    type V = Map<S3Settings, C>;

    closed spec fn view(&self) -> Map<S3Settings, C> {
        clients_of(self.entries@)
    }
}

proof fn lemma_clients_at<C>(entries: Seq<(S3Config, C)>, k: int)
    requires
        0 <= k < entries.len(),
        forall|i: int, j: int|
            0 <= i < j < entries.len() ==> (#[trigger] entries[i]).0@ != (#[trigger] entries[j]).0@,
    ensures
        clients_of(entries).dom().contains(entries[k].0@),
        clients_of(entries)[entries[k].0@] == entries[k].1,
    decreases entries.len(),
{
    if k < entries.len() - 1 {
        assert(entries.drop_last()[k] == entries[k]);
        assert forall|i: int, j: int| 0 <= i < j < entries.len() - 1 implies (
        #[trigger] entries.drop_last()[i]).0@ != (#[trigger] entries.drop_last()[j]).0@ by {
            assert(entries[i].0@ != entries[j].0@);
        }
        lemma_clients_at(entries.drop_last(), k);
        assert(entries[k].0@ != entries[entries.len() - 1].0@);
    }
}

proof fn lemma_clients_absent<C>(entries: Seq<(S3Config, C)>, key: S3Settings)
    requires
        forall|i: int| 0 <= i < entries.len() ==> (#[trigger] entries[i]).0@ != key,
    ensures
        !clients_of(entries).dom().contains(key),
    decreases entries.len(),
{
    if entries.len() > 0 {
        assert(entries[entries.len() - 1].0@ != key);
        assert forall|i: int| 0 <= i < entries.len() - 1 implies (
        #[trigger] entries.drop_last()[i]).0@ != key by {
            assert(entries[i].0@ != key);
        }
        lemma_clients_absent(entries.drop_last(), key);
    }
}

impl<C> ClientCache<C> {
    /// No configuration stands twice.
    pub closed spec fn wf(self) -> bool {
        forall|i: int, j: int|
            0 <= i < j < self.entries@.len() ==> (#[trigger] self.entries@[i]).0@ != (
            #[trigger] self.entries@[j]).0@
    }

    pub fn new() -> (cache: ClientCache<C>)
        ensures
            cache.wf(),
            cache@ == Map::<S3Settings, C>::empty(),
    {
        ClientCache { entries: Vec::new() }
    }

    fn find(&self, key: &S3Config) -> (r: Option<usize>)
        requires
            self.wf(),
        ensures
            match r {
                Some(i) => {
                    &&& i < self.entries@.len()
                    &&& self.entries@[i as int].0@ == key@
                    &&& self@.dom().contains(key@)
                    &&& self@[key@] == self.entries@[i as int].1
                },
                None => {
                    &&& !self@.dom().contains(key@)
                    &&& forall|i: int|
                        0 <= i < self.entries@.len() ==> (#[trigger] self.entries@[i]).0@ != key@
                },
            },
    {
        let mut i: usize = 0;
        while i < self.entries.len()
            invariant
                self.wf(),
                i <= self.entries@.len(),
                forall|j: int| 0 <= j < i ==> (#[trigger] self.entries@[j]).0@ != key@,
            decreases self.entries@.len() - i,
        {
            if self.entries[i].0 == *key {
                proof {
                    lemma_clients_at(self.entries@, i as int);
                }
                return Some(i);
            }
            i = i + 1;
        }
        proof {
            lemma_clients_absent(self.entries@, key@);
        }
        None
    }

    /// The client for `key`, where there is one already.
    pub fn get(&self, key: &S3Config) -> (r: Option<&C>)
        requires
            self.wf(),
        ensures
            match r {
                Some(client) => self@.dom().contains(key@) && *client == self@[key@],
                None => !self@.dom().contains(key@),
            },
    {
        match self.find(key) {
            Some(i) => Some(&self.entries[i].1),
            None => None,
        }
    }

    /// The client for `key`: the one that is here already, or else `client`, which then stays.
    pub fn or_insert(&mut self, key: S3Config, client: C) -> (r: &C)
        requires
            old(self).wf(),
        ensures
            final(self).wf(),
            final(self)@ == insert_once(old(self)@, key@, client),
            *r == final(self)@[key@],
    {
        match self.find(&key) {
            Some(i) => &self.entries[i].1,
            None => {
                let ghost before = self.entries@;
                let i: usize = self.entries.len();
                self.entries.push((key, client));
                proof {
                    assert(self.entries@.drop_last() =~= before);
                }
                &self.entries[i].1
            },
        }
    }
}

/// The first client for a configuration stays: a second one for it is dropped, and every other
/// configuration keeps its own.
pub proof fn law_first_client_wins<C>(
    cache: Map<S3Settings, C>,
    key: S3Settings,
    first: C,
    second: C,
    other: S3Settings,
)
    requires
        !cache.dom().contains(key),
        other != key,
    ensures
        ({
            let once = insert_once(cache, key, first);
            let twice = insert_once(once, key, second);
            &&& twice == once
            &&& twice[key] == first
            &&& twice.dom().contains(other) == cache.dom().contains(other)
            &&& cache.dom().contains(other) ==> twice[other] == cache[other]
        }),
{
}

/// The clients after one is offered for `key`.
pub open spec fn insert_once<C>(
    cache: Map<S3Settings, C>,
    key: S3Settings,
    client: C,
) -> Map<S3Settings, C> {
    if cache.dom().contains(key) {
        cache
    } else {
        cache.insert(key, client)
    }
}

/// A configuration that fixes nothing is without fault, and leaves the credentials to the default
/// chain.
pub proof fn law_unset_config_is_faultless()
    ensures
        config_error(S3Settings::unset()) is None,
        credentials_source(S3Settings::unset()) is Default,
{
}

/// A configuration is refused if and only if it gives keys and a mode, one key without the other, a
/// session token without keys, or a mode that is not one there is; and for what is wrong with it.
pub proof fn law_which_configs_are_refused(s: S3Settings)
    ensures
        match config_error(s) {
            None => {
                ||| s.access_key_id is Some && s.secret_access_key is Some && s.credentials is None
                ||| {
                    &&& s.access_key_id is None && s.secret_access_key is None
                    &&& s.session_token is None
                    &&& s.credentials is None || s.credentials->0 == "container"@
                        || s.credentials->0 == "default"@
                }
            },
            Some(S3ConfigFault::KeysWithMode) => s.access_key_id is Some
                && s.secret_access_key is Some && s.credentials is Some,
            Some(S3ConfigFault::KeyWithoutSecret) => s.access_key_id is Some
                <==> s.secret_access_key is None,
            Some(S3ConfigFault::TokenWithoutKeys) => s.session_token is Some
                && s.access_key_id is None && s.secret_access_key is None,
            Some(S3ConfigFault::UnknownMode(mode)) => {
                &&& s.credentials == Some(mode)
                &&& mode != "container"@ && mode != "default"@
                &&& s.access_key_id is None && s.secret_access_key is None
                &&& s.session_token is None
            },
        },
{
}

/// What a client is made with is what its configuration fixes: its credentials are made of its keys
/// and its token, or come from the container where that is its mode, or from the default chain. What
/// the environment says of path-style addressing counts only where the configuration says nothing.
/// Endpoint and region are its own.
pub proof fn law_clients_follow_their_config(
    s: S3Settings,
    path_style_variable: Option<Seq<char>>,
    plan: S3ClientPlan,
)
    requires
        config_error(s) is None,
        plan.follows(s, path_style_variable),
    ensures
        match plan.credentials {
            S3CredentialsSource::Static(credentials) => {
                &&& s.access_key_id is Some && s.secret_access_key is Some
                &&& credentials == sdk_credentials(
                    s.access_key_id->0,
                    s.secret_access_key->0,
                    s.session_token,
                    "avtensor-s3-config"@,
                )
            },
            S3CredentialsSource::Container => s.access_key_id is None && s.credentials == Some(
                "container"@,
            ),
            S3CredentialsSource::Default => s.access_key_id is None && (s.credentials is None
                || s.credentials == Some("default"@)),
        },
        s.force_path_style is Some ==> plan.force_path_style == s.force_path_style->0,
        s.force_path_style is None ==> (plan.force_path_style <==> path_style_variable is Some
            && path_style_variable->0 == "1"@),
        plan.endpoint_url is Some <==> s.endpoint_url is Some,
        plan.endpoint_url is Some ==> plan.endpoint_url->0@ == s.endpoint_url->0,
        plan.region is Some <==> s.region is Some,
        plan.region is Some ==> plan.region->0@ == s.region->0,
        plan.max_attempts == 5,
{
}

/// Credentials come from the configuration exactly when it gives both keys and no mode.
pub proof fn law_static_needs_both_keys(s: S3Settings)
    ensures
        config_error(s) is None && credentials_source(s) is Static <==> s.access_key_id is Some
            && s.secret_access_key is Some && s.credentials is None,
{
}

} // verus!
