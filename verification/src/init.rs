//! The decisions of `movement init`: which profile and network are set up,
//! which endpoints a network gets, how the answers typed at the prompts are
//! read, where the private key comes from, and whether the new account is
//! funded. Reading the answers, the REST and faucet calls and saving the
//! config are the caller's.

use vstd::prelude::*;
use crate::address::AccountAddress;
use crate::config::{config_lookup, parse_url, selected_profile, spec_url_parse, CliConfig, ProfileConfig};
use crate::decimal::{decimal_text, u64_to_decimal};
use crate::errors::CliError;
use crate::options::{
    EncodingOptions, Network, PrivateKeyInputOptions, ProfileOptions, PromptOptions,
    DEFAULT_PROFILE, spec_network_from_str,
};
use crate::package::RngArgs;
use crate::text::{concat_text, spec_trim, str_eq, to_lowercase, trim, lowercase_text};

verus! {

/// The REST and faucet endpoint of the public networks.
pub const SEED_NODE_1_REST: &'static str = "https://seed-node1.movementlabs.xyz";

/// The Octas a new account is funded with.
pub const NUM_DEFAULT_OCTAS: u64 = 100000000;

/// The options of `movement init`.
pub struct InitTool {
    /// Network to use for default settings
    pub network: Option<Network>,
    /// URL to a fullnode on the network, as typed; it is read as a URL
    /// where it is used
    pub rest_url: Option<String>,
    /// URL for the Faucet endpoint, as typed; it is read as a URL where it
    /// is used
    pub faucet_url: Option<String>,
    /// Whether to skip the faucet for a non-faucet endpoint
    pub skip_faucet: bool,
    pub rng_args: RngArgs,
    pub private_key_options: PrivateKeyInputOptions,
    pub profile_options: ProfileOptions,
    pub prompt_options: PromptOptions,
    pub encoding_options: EncodingOptions,
}

/// The profile `init` sets up: the one named, or `default`.
pub open spec fn init_profile_name(opts: ProfileOptions) -> Seq<char> {
    match opts.profile {
        Some(n) => spec_trim(n@),
        None => DEFAULT_PROFILE@,
    }
}

/// The network chosen at the prompt: none typed means devnet.
pub open spec fn network_from_answer(input: Seq<char>) -> Option<Network> {
    if spec_trim(input).len() == 0 {
        Some(Network::Devnet)
    } else {
        spec_network_from_str(spec_trim(input))
    }
}

/// The endpoints a network comes with; a custom network asks for its own.
pub open spec fn network_endpoints(n: Network) -> Option<(Seq<char>, Seq<char>)> {
    match n {
        Network::Mainnet => Some((SEED_NODE_1_REST@, SEED_NODE_1_REST@)),
        Network::Testnet => Some((SEED_NODE_1_REST@, SEED_NODE_1_REST@)),
        Network::Devnet => Some((SEED_NODE_1_REST@, SEED_NODE_1_REST@)),
        Network::Local => Some(("http://localhost:8080"@, "http://localhost:8081"@)),
        Network::Custom => None,
    }
}

/// The text answered at a prompt, as `init` reads it: trimmed.
pub open spec fn answer(input: Seq<char>) -> Seq<char> {
    spec_trim(input)
}

/// The REST URL of a custom network, from the command line or the
/// prompt's answer: no answer keeps the current URL or, without one, stops
/// `init`; an answer must be a URL. A URL is kept in the form the URL
/// parser writes it, the one given on the command line too.
pub open spec fn spec_custom_rest_url(
    given: Option<Seq<char>>,
    current: Option<Seq<char>>,
    input: Seq<char>,
) -> Result<Seq<char>, Option<Seq<char>>> {
    match given {
        Some(u) => match spec_url_parse(u) {
            Ok(v) => Ok(v),
            Err(m) => Err(Some(m)),
        },
        None => if answer(input).len() == 0 {
            match current {
                Some(c) => Ok(c),
                None => Err(None),
            }
        } else {
            match spec_url_parse(answer(input)) {
                Ok(u) => Ok(u),
                Err(m) => Err(Some(m)),
            }
        },
    }
}

/// The faucet URL of a custom network: none when the faucet is skipped;
/// else from the command line or the prompt's answer, where no answer keeps
/// the current one and `skip` in any letter case sets none.
pub open spec fn spec_custom_faucet_url(
    skip_faucet: bool,
    given: Option<Seq<char>>,
    current: Option<Seq<char>>,
    input: Seq<char>,
) -> Result<Option<Seq<char>>, Seq<char>> {
    if skip_faucet {
        Ok(None)
    } else {
        match given {
            Some(u) => match spec_url_parse(u) {
                Ok(v) => Ok(Some(v)),
                Err(m) => Err(m),
            },
            None => if answer(input).len() == 0 {
                Ok(current)
            } else if lowercase_text(answer(input)) == "skip"@ {
                Ok(None)
            } else {
                match spec_url_parse(answer(input)) {
                    Ok(u) => Ok(Some(u)),
                    Err(m) => Err(m),
                }
            },
        }
    }
}

/// `e` is the error `init` stops with when the REST URL fails as `f` says:
/// no URL at all aborts, text that is no URL cannot be parsed.
pub open spec fn rest_url_error(e: CliError, f: Option<Seq<char>>) -> bool {
    match f {
        None => e is AbortedError,
        Some(m) => e matches CliError::UnableToParse(l, t) && l@ == "Rest Endpoint"@ && t@ == m,
    }
}

/// `e` is the error `init` stops with when the faucet URL `m` cannot be
/// parsed.
pub open spec fn faucet_url_error(e: CliError, m: Seq<char>) -> bool {
    e matches CliError::UnableToParse(l, t) && l@ == "Faucet Endpoint"@ && t@ == m
}

/// The text of an optional string.
pub open spec fn opt_text(s: Option<String>) -> Option<Seq<char>> {
    match s {
        Some(t) => Some(t@),
        None => None,
    }
}

/// Where the private key of the new profile comes from.
pub enum KeySource {
    /// The key given on the command line.
    CommandLine,
    /// The profile's existing key, since nothing was typed.
    KeepExisting,
    /// A new key, since nothing was typed and the profile had none.
    Generate,
    /// The key typed at the prompt (trimmed).
    Typed(String),
}

/// What the REST API said when asked for the account.
pub enum AccountLookup {
    Found,
    /// The API answered that the account or its resource does not exist.
    NotFound,
    /// Any other failure, with its description.
    Failed(String),
}

/// What happens about funding the new account.
pub enum FundingPlan {
    /// The account exists already.
    AlreadyOnChain,
    /// The account is created and funded through the faucet at this URL.
    Fund(String),
    /// Mainnet has no faucet: the user must fund the account.
    MainnetNeedsTransfer,
    /// No faucet: the account only exists locally for now.
    LocalOnly,
}

/// A yes or no typed at a prompt: `yes` or `y`, `no` or `n`, in any letter
/// case and with whitespace around it; anything else is asked again.
pub open spec fn spec_yes_no(input: Seq<char>) -> Option<bool> {
    let a = lowercase_text(spec_trim(input));
    if a == "yes"@ || a == "y"@ {
        Some(true)
    } else if a == "no"@ || a == "n"@ {
        Some(false)
    } else {
        None
    }
}

/// Reads a yes or no typed at a prompt; `None` when it is neither.
pub fn yes_no(input: &str) -> (r: Option<bool>)
    ensures
        r == spec_yes_no(input@),
{
    let t = trim(input);
    let a = to_lowercase(t);
    if str_eq(a.as_str(), "yes") || str_eq(a.as_str(), "y") {
        Some(true)
    } else if str_eq(a.as_str(), "no") || str_eq(a.as_str(), "n") {
        Some(false)
    } else {
        None
    }
}

/// The question asked when the profile `name` exists already.
pub open spec fn overwrite_question_text(name: Seq<char>) -> Seq<char> {
    "Movement already initialized for profile "@ + name + ", do you want to overwrite the existing config?"@
}

/// How `init` starts on the profile it sets up.
pub enum InitStart {
    /// Go on configuring this profile.
    Configure(ProfileConfig),
    /// Ask this question at the overwrite prompt (again).
    Ask(String),
    /// Stop with this error; nothing is asked, fetched or saved after it.
    Stop(CliError),
}

impl InitTool {
    /// The first step of `init`: with no profile of that name in the config
    /// an empty one is configured; an existing one is only overwritten when
    /// the prompt is answered yes (or yes is assumed), and a no, typed or
    /// assumed, stops `init` as aborted before anything else happens.
    /// `answer` is the line typed at the overwrite prompt, once it was asked.
    pub fn start(&self, existing: Option<ProfileConfig>, answer: Option<&str>) -> (r: InitStart)
        ensures
            match existing {
                None => r matches InitStart::Configure(p) && p.network is None && p.private_key is None
                    && p.public_key is None && p.account is None && p.rest_url is None
                    && p.faucet_url is None,
                Some(c) => if self.prompt_options.assume_no {
                    r matches InitStart::Stop(e) && e is AbortedError
                } else if self.prompt_options.assume_yes {
                    r == InitStart::Configure(c)
                } else {
                    match answer {
                        None => r matches InitStart::Ask(q) && q@ == overwrite_question_text(
                            init_profile_name(self.profile_options),
                        ),
                        Some(a) => match spec_yes_no(a@) {
                            Some(true) => r == InitStart::Configure(c),
                            Some(false) => r matches InitStart::Stop(e) && e is AbortedError,
                            None => r matches InitStart::Ask(q) && q@ == overwrite_question_text(
                                init_profile_name(self.profile_options),
                            ),
                        },
                    }
                },
            },
    {
        match existing {
            None => InitStart::Configure(ProfileConfig::default()),
            Some(c) => {
                if self.prompt_options.assume_no {
                    return InitStart::Stop(CliError::AbortedError);
                }
                if self.prompt_options.assume_yes {
                    return InitStart::Configure(c);
                }
                let ask = InitTool::overwrite_question(self.profile_name());
                match answer {
                    None => InitStart::Ask(ask),
                    Some(a) => match yes_no(a) {
                        Some(true) => InitStart::Configure(c),
                        Some(false) => InitStart::Stop(CliError::AbortedError),
                        None => InitStart::Ask(ask),
                    },
                }
            },
        }
    }

    /// The name of the profile being set up.
    pub fn profile_name(&self) -> (r: &str)
        ensures
            r@ == init_profile_name(self.profile_options),
    {
        match self.profile_options.profile_name() {
            Some(n) => n,
            None => DEFAULT_PROFILE,
        }
    }

    /// The question asked when the profile exists already.
    pub fn overwrite_question(profile_name: &str) -> (r: String)
        ensures
            r@ == overwrite_question_text(profile_name@),
    {
        let a = concat_text("Movement already initialized for profile ", profile_name);
        concat_text(a.as_str(), ", do you want to overwrite the existing config?")
    }

    /// The network typed at the prompt.
    pub fn network_from_input(input: &str) -> (r: Result<Network, CliError>)
        ensures
            match r {
                Ok(n) => network_from_answer(input@) == Some(n),
                Err(e) => network_from_answer(input@) is None && e is CommandArgumentError,
            },
    {
        let t = trim(input);
        if t.unicode_len() == 0 {
            Ok(Network::Devnet)
        } else {
            let r = Network::from_str(t);
            match r {
                Ok(n) => Ok(n),
                Err(e) => Err(e),
            }
        }
    }

    /// Sets the endpoints of a network that has them; a custom network is
    /// left for `custom_network`.
    pub fn apply_network_endpoints(network: Network, profile: &mut ProfileConfig)
        ensures
            match network_endpoints(network) {
                Some((rest, faucet)) => opt_text(final(profile).rest_url) == Some(rest) && opt_text(
                    final(profile).faucet_url,
                ) == Some(faucet),
                None => final(profile).rest_url == old(profile).rest_url
                    && final(profile).faucet_url == old(profile).faucet_url,
            },
            final(profile).network == old(profile).network,
            final(profile).private_key == old(profile).private_key,
            final(profile).public_key == old(profile).public_key,
            final(profile).account == old(profile).account,
    {
        match network {
            Network::Mainnet | Network::Testnet | Network::Devnet => {
                profile.rest_url = Some(String::from_str(SEED_NODE_1_REST));
                profile.faucet_url = Some(String::from_str(SEED_NODE_1_REST));
            },
            Network::Local => {
                profile.rest_url = Some(String::from_str("http://localhost:8080"));
                profile.faucet_url = Some(String::from_str("http://localhost:8081"));
            },
            Network::Custom => {},
        }
    }

    /// The REST URL of a custom network; `input` is the answer at the
    /// prompt (only read when no URL was given on the command line).
    pub fn custom_rest_url(&self, current: &Option<String>, input: &str) -> (r: Result<
        String,
        CliError,
    >)
        ensures
            match (r, spec_custom_rest_url(opt_text(self.rest_url), opt_text(*current), input@)) {
                (Ok(u), Ok(v)) => u@ == v,
                (Err(e), Err(f)) => rest_url_error(e, f),
                _ => false,
            },
    {
        if let Some(u) = &self.rest_url {
            return match parse_url(u.as_str()) {
                Ok(v) => Ok(v),
                Err(m) => Err(CliError::UnableToParse("Rest Endpoint", m)),
            };
        }
        let a = trim(input);
        if a.unicode_len() == 0 {
            return match current {
                Some(c) => Ok(String::from_str(c.as_str())),
                None => Err(CliError::AbortedError),
            };
        }
        match parse_url(a) {
            Ok(u) => Ok(u),
            Err(m) => Err(CliError::UnableToParse("Rest Endpoint", m)),
        }
    }

    /// The faucet URL of a custom network; `input` is the answer at the
    /// prompt (only read when the faucet is neither skipped nor given).
    pub fn custom_faucet_url(&self, current: &Option<String>, input: &str) -> (r: Result<
        Option<String>,
        CliError,
    >)
        ensures
            match (
                r,
                spec_custom_faucet_url(
                    self.skip_faucet,
                    opt_text(self.faucet_url),
                    opt_text(*current),
                    input@,
                ),
            ) {
                (Ok(u), Ok(v)) => opt_text(u) == v,
                (Err(e), Err(m)) => faucet_url_error(e, m),
                _ => false,
            },
    {
        if self.skip_faucet {
            return Ok(None);
        }
        if let Some(u) = &self.faucet_url {
            return match parse_url(u.as_str()) {
                Ok(v) => Ok(Some(v)),
                Err(m) => Err(CliError::UnableToParse("Faucet Endpoint", m)),
            };
        }
        let a = trim(input);
        if a.unicode_len() == 0 {
            return match current {
                Some(c) => Ok(Some(String::from_str(c.as_str()))),
                None => Ok(None),
            };
        }
        let lower = to_lowercase(a);
        if str_eq(lower.as_str(), "skip") {
            return Ok(None);
        }
        match parse_url(a) {
            Ok(u) => Ok(Some(u)),
            Err(m) => Err(CliError::UnableToParse("Faucet Endpoint", m)),
        }
    }

    /// Sets up the endpoints of a custom network: the REST URL first, which
    /// stays set even when the faucet answer is refused afterwards.
    pub fn custom_network(&self, profile: &mut ProfileConfig, rest_input: &str, faucet_input: &str) -> (r:
        Result<(), CliError>)
        ensures
            match spec_custom_rest_url(
                opt_text(self.rest_url),
                opt_text(old(profile).rest_url),
                rest_input@,
            ) {
                Err(f) => (r matches Err(e) && rest_url_error(e, f)) && final(profile).rest_url
                    == old(profile).rest_url && final(profile).faucet_url == old(profile).faucet_url,
                Ok(rest) => opt_text(final(profile).rest_url) == Some(rest) && match spec_custom_faucet_url(
                    self.skip_faucet,
                    opt_text(self.faucet_url),
                    opt_text(old(profile).faucet_url),
                    faucet_input@,
                ) {
                    Err(m) => (r matches Err(e) && faucet_url_error(e, m)) && final(profile).faucet_url
                        == old(profile).faucet_url,
                    Ok(f) => r is Ok && opt_text(final(profile).faucet_url) == f,
                },
            },
            final(profile).network == old(profile).network,
            final(profile).private_key == old(profile).private_key,
            final(profile).public_key == old(profile).public_key,
            final(profile).account == old(profile).account,
    {
        let rest = self.custom_rest_url(&profile.rest_url, rest_input)?;
        profile.rest_url = Some(rest);
        let faucet = self.custom_faucet_url(&profile.faucet_url, faucet_input)?;
        profile.faucet_url = faucet;
        Ok(())
    }

    /// Records the profile's new identity: its private key, public key and
    /// account; its network and endpoints stay.
    pub fn set_identity(
        profile: &mut ProfileConfig,
        private_key: Vec<u8>,
        public_key: Vec<u8>,
        account: AccountAddress,
    )
        ensures
            final(profile).private_key == Some(private_key),
            final(profile).public_key == Some(public_key),
            final(profile).account == Some(account),
            final(profile).network == old(profile).network,
            final(profile).rest_url == old(profile).rest_url,
            final(profile).faucet_url == old(profile).faucet_url,
    {
        profile.private_key = Some(private_key);
        profile.public_key = Some(public_key);
        profile.account = Some(account);
    }

    /// Saves the profile set up under its name, replacing an earlier one of
    /// that name; the other profiles stay. Selecting the same profile
    /// afterwards finds the one saved.
    pub fn save_profile(&self, config: &mut CliConfig, profile: ProfileConfig)
        requires
            old(config).wf(),
        ensures
            final(config).wf(),
            final(config).profiles is Some,
            config_lookup(*final(config), init_profile_name(self.profile_options)) == Some(profile),
            selected_profile(self.profile_options, *final(config)) == Some(profile),
            forall|n: Seq<char>|
                n != init_profile_name(self.profile_options) ==> config_lookup(*final(config), n)
                    == config_lookup(*old(config), n),
    {
        let name = String::from_str(self.profile_name());
        config.insert_profile(name, profile);
    }

    /// Where the private key comes from: the command line, else the
    /// prompt's answer, where no answer keeps the profile's key or makes a
    /// new one.
    pub fn key_source(key_on_command_line: bool, input: &str, has_existing: bool) -> (r: KeySource)
        ensures
            key_on_command_line ==> r is CommandLine,
            !key_on_command_line && answer(input@).len() == 0 ==> (if has_existing {
                r is KeepExisting
            } else {
                r is Generate
            }),
            !key_on_command_line && answer(input@).len() > 0 ==> (r matches KeySource::Typed(t)
                && t@ == answer(input@)),
    {
        if key_on_command_line {
            return KeySource::CommandLine;
        }
        let a = trim(input);
        if a.unicode_len() == 0 {
            if has_existing {
                KeySource::KeepExisting
            } else {
                KeySource::Generate
            }
        } else {
            KeySource::Typed(String::from_str(a))
        }
    }

    /// Whether the account exists, from the REST API's answer; any failure
    /// other than "not found" stops `init`.
    pub fn account_exists(lookup: AccountLookup) -> (r: Result<bool, CliError>)
        ensures
            match lookup {
                AccountLookup::Found => r == Ok::<bool, CliError>(true),
                AccountLookup::NotFound => r == Ok::<bool, CliError>(false),
                AccountLookup::Failed(d) => r matches Err(e) && e matches CliError::UnexpectedError(
                    m,
                ) && m@ == "Failed to check if account exists: "@ + d@,
            },
    {
        match lookup {
            AccountLookup::Found => Ok(true),
            AccountLookup::NotFound => Ok(false),
            AccountLookup::Failed(d) => Err(
                CliError::UnexpectedError(concat_text("Failed to check if account exists: ", d.as_str())),
            ),
        }
    }

    /// What is done about funding: with a faucet (unless skipped), a new
    /// account is funded; without one, the user is told what is left to do.
    pub fn funding_plan(&self, profile_faucet_url: &Option<String>, account_exists: bool, network: Network) -> (r:
        FundingPlan)
        ensures
            match (if self.skip_faucet {
                None
            } else {
                opt_text(*profile_faucet_url)
            }) {
                Some(f) => if account_exists {
                    r is AlreadyOnChain
                } else {
                    r matches FundingPlan::Fund(u) && u@ == f
                },
                None => if account_exists {
                    r is AlreadyOnChain
                } else if network == Network::Mainnet {
                    r is MainnetNeedsTransfer
                } else {
                    r is LocalOnly
                },
            },
    {
        let faucet = if self.skip_faucet {
            None
        } else {
            match profile_faucet_url {
                Some(f) => Some(f),
                None => None,
            }
        };
        match faucet {
            Some(f) => if account_exists {
                FundingPlan::AlreadyOnChain
            } else {
                FundingPlan::Fund(String::from_str(f.as_str()))
            },
            None => if account_exists {
                FundingPlan::AlreadyOnChain
            } else if network == Network::Mainnet {
                FundingPlan::MainnetNeedsTransfer
            } else {
                FundingPlan::LocalOnly
            },
        }
    }
}

/// The message printed for a funding plan, about the account written
/// `address`.
pub open spec fn funding_message_text(plan: FundingPlan, address: Seq<char>) -> Seq<char> {
    match plan {
        FundingPlan::AlreadyOnChain => "Account "@ + address + " has been already found onchain"@,
        FundingPlan::Fund(_) => "Account "@ + address + " doesn't exist, creating it and funding it with "@
            + decimal_text(NUM_DEFAULT_OCTAS as nat) + " Octas"@,
        FundingPlan::MainnetNeedsTransfer => "Account "@ + address
            + " does not exist, you will need to create and fund the account by transferring funds from another account"@,
        FundingPlan::LocalOnly => "Account "@ + address
            + " has been initialized locally, but you must transfer coins to it to create the account onchain"@,
    }
}

/// The message printed for a funding plan.
pub fn funding_message(plan: &FundingPlan, address: &str) -> (r: String)
    ensures
        r@ == funding_message_text(*plan, address@),
{
    let head = concat_text("Account ", address);
    match plan {
        FundingPlan::AlreadyOnChain => concat_text(head.as_str(), " has been already found onchain"),
        FundingPlan::Fund(_) => {
            let a = concat_text(head.as_str(), " doesn't exist, creating it and funding it with ");
            let b = concat_text(a.as_str(), u64_to_decimal(NUM_DEFAULT_OCTAS).as_str());
            concat_text(b.as_str(), " Octas")
        },
        FundingPlan::MainnetNeedsTransfer => concat_text(
            head.as_str(),
            " does not exist, you will need to create and fund the account by transferring funds from another account",
        ),
        FundingPlan::LocalOnly => concat_text(
            head.as_str(),
            " has been initialized locally, but you must transfer coins to it to create the account onchain",
        ),
    }
}

/// The closing message of `init`.
pub fn done_message(address: &str, profile_name: &str) -> (r: String)
    ensures
        r@ == "\n---\nMovement CLI is now set up for account "@ + address@ + " as profile "@
            + profile_name@ + "!  Run `movement --help` for more information about commands"@,
{
    let a = concat_text("\n---\nMovement CLI is now set up for account ", address);
    let b = concat_text(a.as_str(), " as profile ");
    let c = concat_text(b.as_str(), profile_name);
    concat_text(c.as_str(), "!  Run `movement --help` for more information about commands")
}


/// The text of an optional current setting, `None` when unset.
pub open spec fn current_text(current: Option<String>) -> Seq<char> {
    match current {
        Some(c) => c@,
        None => "None"@,
    }
}

fn current_or_none(current: &Option<String>) -> (r: &str)
    ensures
        r@ == current_text(*current),
{
    match current {
        Some(c) => c.as_str(),
        None => "None",
    }
}

/// The prompt for the REST endpoint of a custom network.
pub fn rest_prompt(current: &Option<String>) -> (r: String)
    ensures
        r@ == "Enter your rest endpoint [Current: "@ + current_text(*current)
            + " | No input: Exit (or keep the existing if present)]"@,
{
    let a = concat_text("Enter your rest endpoint [Current: ", current_or_none(current));
    concat_text(a.as_str(), " | No input: Exit (or keep the existing if present)]")
}

/// The prompt for the faucet endpoint of a custom network.
pub fn faucet_prompt(current: &Option<String>) -> (r: String)
    ensures
        r@ == "Enter your faucet endpoint [Current: "@ + current_text(*current)
            + " | No input: Skip (or keep the existing one if present) | 'skip' to not use a faucet]"@,
{
    let a = concat_text("Enter your faucet endpoint [Current: ", current_or_none(current));
    concat_text(
        a.as_str(),
        " | No input: Skip (or keep the existing one if present) | 'skip' to not use a faucet]",
    )
}

/// The prompt for the private key; an existing key is not shown.
pub fn key_prompt(has_key: bool) -> (r: String)
    ensures
        r@ == "Enter your private key as a hex literal (0x...) [Current: "@ + (if has_key {
            "Redacted"@
        } else {
            "None"@
        }) + " | No input: Generate new key (or keep one if present)]"@,
{
    let a = concat_text(
        "Enter your private key as a hex literal (0x...) [Current: ",
        if has_key {
            "Redacted"
        } else {
            "None"
        },
    );
    concat_text(a.as_str(), " | No input: Generate new key (or keep one if present)]")
}

} // verus!
