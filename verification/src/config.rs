//! The CLI config: named profiles, and what the options read from them
//! (the profile itself, its account, the REST and faucet URLs). Reading
//! and writing the config file is the caller's; these functions work on
//! the config it loaded.

use vstd::prelude::*;
use crate::address::AccountAddress;
use crate::errors::CliError;
use crate::options::{FaucetOptions, Network, ProfileOptions, RestOptions, DEFAULT_PROFILE};
use crate::named::{lookup, lemma_lookup_empty, named_insert, named_remove, names_unique};
use crate::text::{concat_text, spec_trim};

verus! {

/// What `url::Url::parse` makes of a text: the URL's serialization, or the
/// description of the parse error.
pub uninterp spec fn spec_url_parse(text: Seq<char>) -> Result<Seq<char>, Seq<char>>;

/// Calls `url::Url::parse` and writes the URL back as text (`Url`'s
/// `Display` writes its serialization), or the error as text. Claimed: the
/// result is the named function of the input text.
#[verifier::external_body]
pub(crate) fn parse_url(text: &str) -> (r: Result<String, String>)
    ensures
        match r {
            Ok(s) => spec_url_parse(text@) == Ok::<Seq<char>, Seq<char>>(s@),
            Err(m) => spec_url_parse(text@) == Err::<Seq<char>, Seq<char>>(m@),
        },
{
    match url::Url::parse(text) {
        Ok(u) => Ok(u.to_string()),
        Err(e) => Err(e.to_string()),
    }
}

/// One profile of the CLI config.
pub struct ProfileConfig {
    pub network: Option<Network>,
    /// The private key's bytes.
    pub private_key: Option<Vec<u8>>,
    /// The public key's bytes.
    pub public_key: Option<Vec<u8>>,
    pub account: Option<AccountAddress>,
    pub rest_url: Option<String>,
    pub faucet_url: Option<String>,
}

impl ProfileConfig {
    /// A profile with nothing set.
    pub fn default() -> (r: ProfileConfig)
        ensures
            r.network is None,
            r.private_key is None,
            r.public_key is None,
            r.account is None,
            r.rest_url is None,
            r.faucet_url is None,
    {
        ProfileConfig {
            network: None,
            private_key: None,
            public_key: None,
            account: None,
            rest_url: None,
            faucet_url: None,
        }
    }
}

/// A profile without its private parts.
pub struct ProfileSummary {
    pub has_private_key: bool,
    pub public_key: Option<Vec<u8>>,
    pub account: Option<AccountAddress>,
    pub rest_url: Option<String>,
    pub faucet_url: Option<String>,
}

fn copy_opt_text(s: &Option<String>) -> (r: Option<String>)
    ensures
        match (r, *s) {
            (Some(a), Some(b)) => a@ == b@,
            (None, None) => true,
            _ => false,
        },
{
    match s {
        Some(t) => Some(String::from_str(t.as_str())),
        None => None,
    }
}

fn copy_opt_bytes(s: &Option<Vec<u8>>) -> (r: Option<Vec<u8>>)
    ensures
        match (r, *s) {
            (Some(a), Some(b)) => a@ == b@,
            (None, None) => true,
            _ => false,
        },
{
    match s {
        Some(t) => Some(t.clone()),
        None => None,
    }
}

impl ProfileSummary {
    /// The summary of `config`.
    pub fn from(config: &ProfileConfig) -> (r: ProfileSummary)
        ensures
            r.has_private_key == config.private_key is Some,
            r.account == config.account,
            match (r.public_key, config.public_key) {
                (Some(a), Some(b)) => a@ == b@,
                (None, None) => true,
                _ => false,
            },
            match (r.rest_url, config.rest_url) {
                (Some(a), Some(b)) => a@ == b@,
                (None, None) => true,
                _ => false,
            },
            match (r.faucet_url, config.faucet_url) {
                (Some(a), Some(b)) => a@ == b@,
                (None, None) => true,
                _ => false,
            },
    {
        ProfileSummary {
            has_private_key: config.private_key.is_some(),
            public_key: copy_opt_bytes(&config.public_key),
            account: config.account,
            rest_url: copy_opt_text(&config.rest_url),
            faucet_url: copy_opt_text(&config.faucet_url),
        }
    }
}

/// The CLI config: its profiles by name, when the file has any.
pub struct CliConfig {
    pub profiles: Option<Vec<(String, ProfileConfig)>>,
}

/// The profile named `name` in the config.
pub open spec fn config_lookup(c: CliConfig, name: Seq<char>) -> Option<ProfileConfig> {
    match c.profiles {
        Some(ps) => lookup(ps@, name),
        None => None,
    }
}

impl CliConfig {
    /// A config with no profile yet.
    pub fn default() -> (r: CliConfig)
        ensures
            r.profiles matches Some(ps) && ps@.len() == 0,
    {
        CliConfig { profiles: Some(Vec::new()) }
    }

    /// The config is well formed: no two profiles share a name.
    pub open spec fn wf(self) -> bool {
        match self.profiles {
            Some(ps) => names_unique(ps@),
            None => true,
        }
    }

    /// Takes the profile named `name` out of the config.
    pub fn remove_profile(&mut self, name: &str) -> (r: Option<ProfileConfig>)
        requires
            old(self).wf(),
        ensures
            final(self).wf(),
            r == config_lookup(*old(self), name@),
            config_lookup(*final(self), name@) is None,
            forall|n: Seq<char>|
                n != name@ ==> config_lookup(*final(self), n) == config_lookup(*old(self), n),
            final(self).profiles is Some <==> old(self).profiles is Some,
    {
        match &mut self.profiles {
            None => None,
            Some(ps) => named_remove(ps, name),
        }
    }

    /// Puts `profile` in the config under `name`, replacing any profile of
    /// that name; a config without profiles gets a list of its own first.
    pub fn insert_profile(&mut self, name: String, profile: ProfileConfig)
        requires
            old(self).wf(),
        ensures
            final(self).wf(),
            final(self).profiles is Some,
            config_lookup(*final(self), name@) == Some(profile),
            forall|n: Seq<char>|
                n != name@ ==> config_lookup(*final(self), n) == config_lookup(*old(self), n),
    {
        if self.profiles.is_none() {
            self.profiles = Some(Vec::new());
            proof {
                lemma_lookup_empty::<ProfileConfig>();
            }
        }
        match &mut self.profiles {
            None => {},
            Some(ps) => named_insert(ps, name, profile),
        }
    }

    /// Takes the profile to use out of the loaded config: the one named, or
    /// the default one when none is named. A named profile that is missing
    /// is an error; a missing default profile is not.
    pub fn load_profile(self, profile: Option<&str>) -> (r: Result<Option<ProfileConfig>, CliError>)
        requires
            self.wf(),
        ensures
            match profile {
                Some(n) => match config_lookup(self, n@) {
                    Some(p) => r == Ok::<Option<ProfileConfig>, CliError>(Some(p)),
                    None => r matches Err(e) && e matches CliError::CommandArgumentError(m) && m@
                        == "Profile "@ + n@ + " not found"@,
                },
                None => r == Ok::<Option<ProfileConfig>, CliError>(
                    config_lookup(self, DEFAULT_PROFILE@),
                ),
            },
    {
        let mut config = self;
        match profile {
            Some(name) => match config.remove_profile(name) {
                Some(p) => Ok(Some(p)),
                None => {
                    let m1 = concat_text("Profile ", name);
                    Err(CliError::CommandArgumentError(concat_text(m1.as_str(), " not found")))
                },
            },
            None => Ok(config.remove_profile(DEFAULT_PROFILE)),
        }
    }
}


/// The profile the options select, as `ProfileOptions::profile` finds it
/// in a loaded config.
pub open spec fn selected_profile(opts: ProfileOptions, c: CliConfig) -> Option<ProfileConfig> {
    match opts.profile {
        Some(n) => config_lookup(c, spec_trim(n@)),
        None => config_lookup(c, DEFAULT_PROFILE@),
    }
}

/// The name reported when the selected profile is missing: the one given,
/// as given, or `default`.
pub open spec fn reported_profile_name(opts: ProfileOptions) -> Seq<char> {
    match opts.profile {
        Some(n) => n@,
        None => DEFAULT_PROFILE@,
    }
}

fn reported_name(opts: &ProfileOptions) -> (r: String)
    ensures
        r@ == reported_profile_name(*opts),
{
    match &opts.profile {
        Some(n) => String::from_str(n.as_str()),
        None => String::from_str(DEFAULT_PROFILE),
    }
}

impl ProfileOptions {
    /// The selected profile of the config that was loaded (`loaded`, or the
    /// error loading it gave).
    pub fn profile(&self, loaded: Result<CliConfig, CliError>) -> (r: Result<ProfileConfig, CliError>)
        requires
            loaded matches Ok(c) ==> c.wf(),
        ensures
            match loaded {
                Err(e) => r == Err::<ProfileConfig, CliError>(e),
                Ok(c) => match selected_profile(*self, c) {
                    Some(p) => r == Ok::<ProfileConfig, CliError>(p),
                    None => r matches Err(e) && match self.profile {
                        Some(n) => e matches CliError::CommandArgumentError(m) && m@ == "Profile "@
                            + spec_trim(n@) + " not found"@,
                        None => e matches CliError::ConfigNotFoundError(m) && m@
                            == DEFAULT_PROFILE@,
                    },
                },
            },
    {
        match loaded {
            Err(e) => Err(e),
            Ok(c) => match c.load_profile(self.profile_name()) {
                Err(e) => Err(e),
                Ok(Some(p)) => Ok(p),
                Ok(None) => Err(CliError::ConfigNotFoundError(reported_name(self))),
            },
        }
    }

    /// The account of the selected profile.
    pub fn account_address(&self, loaded: Result<CliConfig, CliError>) -> (r: Result<
        AccountAddress,
        CliError,
    >)
        requires
            loaded matches Ok(c) ==> c.wf(),
        ensures
            loaded is Err ==> r is Err,
            loaded matches Ok(c) ==> match selected_profile(*self, c) {
                Some(p) => match p.account {
                    Some(a) => r == Ok::<AccountAddress, CliError>(a),
                    None => r matches Err(e) && e matches CliError::ConfigNotFoundError(m) && m@
                        == reported_profile_name(*self),
                },
                None => r is Err,
            },
    {
        let p = self.profile(loaded)?;
        match p.account {
            Some(a) => Ok(a),
            None => Err(CliError::ConfigNotFoundError(reported_name(self))),
        }
    }

    /// The public key of the selected profile.
    pub fn public_key(&self, loaded: Result<CliConfig, CliError>) -> (r: Result<Vec<u8>, CliError>)
        requires
            loaded matches Ok(c) ==> c.wf(),
        ensures
            loaded is Err ==> r is Err,
            loaded matches Ok(c) ==> match selected_profile(*self, c) {
                Some(p) => match p.public_key {
                    Some(k) => r matches Ok(b) && b@ == k@,
                    None => r matches Err(e) && e matches CliError::ConfigNotFoundError(m) && m@
                        == reported_profile_name(*self),
                },
                None => r is Err,
            },
    {
        let p = self.profile(loaded)?;
        match p.public_key {
            Some(k) => Ok(k),
            None => Err(CliError::ConfigNotFoundError(reported_name(self))),
        }
    }
}

impl RestOptions {
    /// The REST URL: the one given on the command line, else the profile's
    /// (`loaded` is what loading the selected profile gave), in the form the
    /// URL parser writes it.
    pub fn url(&self, loaded: Result<Option<ProfileConfig>, CliError>) -> (r: Result<String, CliError>)
        ensures
            match self.url {
                Some(u) => match spec_url_parse(u@) {
                    Ok(s) => r matches Ok(t) && t@ == s,
                    Err(m) => r matches Err(e) && e matches CliError::UnableToParse(l, t) && l@
                        == "--url"@ && t@ == m,
                },
                None => match loaded {
                    Err(e) => r == Err::<String, CliError>(e),
                    Ok(Some(p)) if p.rest_url is Some => match spec_url_parse(p.rest_url->0@) {
                        Ok(s) => r matches Ok(t) && t@ == s,
                        Err(m) => r matches Err(e) && e matches CliError::UnableToParse(l, t) && l@
                            == "Rest URL"@ && t@ == m,
                    },
                    _ => r matches Err(e) && e matches CliError::CommandArgumentError(m) && m@
                        == "No rest url given.  Please add --url or add a rest_url to the .movement/config.yaml for the current profile"@,
                },
            },
    {
        if let Some(u) = &self.url {
            return match parse_url(u.as_str()) {
                Ok(s) => Ok(s),
                Err(m) => Err(CliError::UnableToParse("--url", m)),
            };
        }
        match loaded {
            Err(e) => Err(e),
            Ok(Some(p)) if p.rest_url.is_some() => {
                let text = p.rest_url.unwrap();
                match parse_url(text.as_str()) {
                    Ok(s) => Ok(s),
                    Err(m) => Err(CliError::UnableToParse("Rest URL", m)),
                }
            },
            _ => {
                proof {
                    reveal_strlit("No rest url given.  Please add --url or add a rest_url to the .movement/config.yaml for the current profile");
                }
                Err(
                    CliError::CommandArgumentError(
                        String::from_str(
                            "No rest url given.  Please add --url or add a rest_url to the .movement/config.yaml for the current profile",
                        ),
                    ),
                )
            },
        }
    }
}

impl FaucetOptions {
    /// The faucet URL: the one given on the command line, else the
    /// profile's (`loaded` is what loading the selected profile gave), in
    /// the form the URL parser writes it.
    pub fn faucet_url(&self, loaded: Result<Option<ProfileConfig>, CliError>) -> (r: Result<
        String,
        CliError,
    >)
        ensures
            match self.faucet_url {
                Some(u) => match spec_url_parse(u@) {
                    Ok(s) => r matches Ok(t) && t@ == s,
                    Err(m) => r matches Err(e) && e matches CliError::UnableToParse(l, t) && l@
                        == "--faucet-url"@ && t@ == m,
                },
                None => match loaded {
                    Err(e) => r == Err::<String, CliError>(e),
                    Ok(Some(p)) if p.faucet_url is Some => match spec_url_parse(
                        p.faucet_url->0@,
                    ) {
                        Ok(s) => r matches Ok(t) && t@ == s,
                        Err(m) => r matches Err(e) && e matches CliError::UnableToParse(l, t) && l@
                            == "config faucet_url"@ && t@ == m,
                    },
                    _ => r matches Err(e) && e matches CliError::CommandArgumentError(m) && m@
                        == "No faucet given.  Please add --faucet-url or add a faucet URL to the .movement/config.yaml for the current profile"@,
                },
            },
    {
        if let Some(u) = &self.faucet_url {
            return match parse_url(u.as_str()) {
                Ok(s) => Ok(s),
                Err(m) => Err(CliError::UnableToParse("--faucet-url", m)),
            };
        }
        match loaded {
            Err(e) => Err(e),
            Ok(Some(p)) if p.faucet_url.is_some() => {
                let text = p.faucet_url.unwrap();
                match parse_url(text.as_str()) {
                    Ok(s) => Ok(s),
                    Err(m) => Err(CliError::UnableToParse("config faucet_url", m)),
                }
            },
            _ => {
                proof {
                    reveal_strlit("No faucet given.  Please add --faucet-url or add a faucet URL to the .movement/config.yaml for the current profile");
                }
                Err(
                    CliError::CommandArgumentError(
                        String::from_str(
                            "No faucet given.  Please add --faucet-url or add a faucet URL to the .movement/config.yaml for the current profile",
                        ),
                    ),
                )
            },
        }
    }
}

} // verus!
