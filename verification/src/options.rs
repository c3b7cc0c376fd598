//! Option types and small enumerations of the command line: key and
//! encoding types, included artifacts, list queries, networks, prompts,
//! profiles, key inputs and gas options.

use vstd::prelude::*;
use crate::errors::CliError;
use crate::text::{all_ascii, concat_text, lowercase_text, spec_trim, str_eq, to_lowercase, trim};

verus! {

/// A path on the local file system.
#[verifier::external_type_specification]
#[verifier::external_body]
pub struct ExPathBuf(std::path::PathBuf);

/// How many seconds a transaction lives, and the default REST timeout.
pub const DEFAULT_EXPIRATION_SECS: u64 = 30;

/// The profile used when none is named.
pub const DEFAULT_PROFILE: &'static str = "default";

/// Where to look for the CLI config.
#[derive(Clone, Copy, PartialEq, Eq, Structural, Debug)]
pub enum ConfigSearchMode {
    CurrentDir,
    CurrentDirAndParents,
}

/// Types of keys used by the blockchain.
#[derive(Clone, Copy, Debug, PartialEq, Eq, Structural)]
pub enum KeyType {
    /// Ed25519 key used for signing
    Ed25519,
    /// X25519 key used for network handshakes and identity
    X25519,
    /// A BLS12381 key for consensus
    Bls12381,
}

/// The name of a key type.
pub open spec fn key_type_name(k: KeyType) -> Seq<char> {
    match k {
        KeyType::Ed25519 => "ed25519"@,
        KeyType::X25519 => "x25519"@,
        KeyType::Bls12381 => "bls12381"@,
    }
}

/// The key type whose name is the lower-case form of `s`.
pub open spec fn spec_key_type_from_str(s: Seq<char>) -> Option<KeyType> {
    let l = lowercase_text(s);
    if l == "ed25519"@ {
        Some(KeyType::Ed25519)
    } else if l == "x25519"@ {
        Some(KeyType::X25519)
    } else if l == "bls12381"@ {
        Some(KeyType::Bls12381)
    } else {
        None
    }
}

impl KeyType {
    /// The key type's name.
    pub fn to_string(&self) -> (r: String)
        ensures
            r@ == key_type_name(*self),
    {
        String::from_str(
            match self {
                KeyType::Ed25519 => "ed25519",
                KeyType::X25519 => "x25519",
                KeyType::Bls12381 => "bls12381",
            },
        )
    }

    /// Reads a key type from its name, in any letter case.
    pub fn from_str(s: &str) -> (r: Result<KeyType, &'static str>)
        ensures
            match r {
                Ok(k) => spec_key_type_from_str(s@) == Some(k),
                Err(m) => spec_key_type_from_str(s@) is None && m@
                    == "Invalid key type: Must be one of [ed25519, x25519]"@,
            },
    {
        let lower = to_lowercase(s);
        let l = lower.as_str();
        if str_eq(l, "ed25519") {
            Ok(KeyType::Ed25519)
        } else if str_eq(l, "x25519") {
            Ok(KeyType::X25519)
        } else if str_eq(l, "bls12381") {
            Ok(KeyType::Bls12381)
        } else {
            Err("Invalid key type: Must be one of [ed25519, x25519]")
        }
    }
}

/// Reading a key type's name gives back the key type.
pub proof fn lemma_key_type_roundtrip(k: KeyType)
    ensures
        spec_key_type_from_str(key_type_name(k)) == Some(k),
{
    reveal_strlit("ed25519");
    reveal_strlit("x25519");
    reveal_strlit("bls12381");
    let n = key_type_name(k);
    assert(lowercase_text(n) =~= n);
    assert("ed25519"@.len() != "x25519"@.len());
    assert("ed25519"@.len() != "bls12381"@.len());
    assert("x25519"@.len() != "bls12381"@.len());
}

/// Types of encodings used by the blockchain.
#[derive(Clone, Copy, Debug, PartialEq, Eq, Structural)]
pub enum EncodingType {
    /// Binary Canonical Serialization
    BCS,
    /// Hex encoded e.g. 0xABCDE12345
    Hex,
    /// Base 64 encoded
    Base64,
}

/// The name of an encoding.
pub open spec fn encoding_name(e: EncodingType) -> Seq<char> {
    match e {
        EncodingType::BCS => "bcs"@,
        EncodingType::Hex => "hex"@,
        EncodingType::Base64 => "base64"@,
    }
}

/// The encoding whose name is the lower-case form of `s`.
pub open spec fn spec_encoding_from_str(s: Seq<char>) -> Option<EncodingType> {
    let l = lowercase_text(s);
    if l == "hex"@ {
        Some(EncodingType::Hex)
    } else if l == "bcs"@ {
        Some(EncodingType::BCS)
    } else if l == "base64"@ {
        Some(EncodingType::Base64)
    } else {
        None
    }
}

impl EncodingType {
    /// Hex, the encoding used when none is given.
    pub fn default() -> (r: EncodingType)
        ensures
            r == EncodingType::Hex,
    {
        EncodingType::Hex
    }

    /// The encoding's name.
    pub fn to_string(&self) -> (r: String)
        ensures
            r@ == encoding_name(*self),
    {
        String::from_str(
            match self {
                EncodingType::BCS => "bcs",
                EncodingType::Hex => "hex",
                EncodingType::Base64 => "base64",
            },
        )
    }

    /// Reads an encoding from its name, in any letter case.
    pub fn from_str(s: &str) -> (r: Result<EncodingType, &'static str>)
        ensures
            match r {
                Ok(e) => spec_encoding_from_str(s@) == Some(e),
                Err(m) => spec_encoding_from_str(s@) is None && m@ == "Invalid encoding type"@,
            },
    {
        let lower = to_lowercase(s);
        let l = lower.as_str();
        if str_eq(l, "hex") {
            Ok(EncodingType::Hex)
        } else if str_eq(l, "bcs") {
            Ok(EncodingType::BCS)
        } else if str_eq(l, "base64") {
            Ok(EncodingType::Base64)
        } else {
            Err("Invalid encoding type")
        }
    }
}

/// Reading an encoding's name gives back the encoding.
pub proof fn lemma_encoding_roundtrip(e: EncodingType)
    ensures
        spec_encoding_from_str(encoding_name(e)) == Some(e),
{
    reveal_strlit("hex");
    reveal_strlit("bcs");
    reveal_strlit("base64");
    let n = encoding_name(e);
    assert(lowercase_text(n) =~= n);
    assert("hex"@[0] != "bcs"@[0]);
    assert("hex"@.len() != "base64"@.len());
    assert("bcs"@.len() != "base64"@.len());
}

/// An insertable option for use with encodings.
pub struct EncodingOptions {
    /// Encoding of data as one of [base64, bcs, hex]
    pub encoding: EncodingType,
}

/// Which artifacts to include when building a package.
#[derive(Clone, Copy, Debug, PartialEq, Eq, Structural)]
pub enum IncludedArtifacts {
    NoArtifacts,
    Sparse,
    All,
}

/// The name of an artifact set.
pub open spec fn artifacts_name(a: IncludedArtifacts) -> Seq<char> {
    match a {
        IncludedArtifacts::NoArtifacts => "none"@,
        IncludedArtifacts::Sparse => "sparse"@,
        IncludedArtifacts::All => "all"@,
    }
}

/// The artifact set named exactly `s` (letter case matters).
pub open spec fn spec_artifacts_from_str(s: Seq<char>) -> Option<IncludedArtifacts> {
    if s == "none"@ {
        Some(IncludedArtifacts::NoArtifacts)
    } else if s == "sparse"@ {
        Some(IncludedArtifacts::Sparse)
    } else if s == "all"@ {
        Some(IncludedArtifacts::All)
    } else {
        None
    }
}

impl IncludedArtifacts {
    /// The artifact set's name.
    pub fn to_string(&self) -> (r: String)
        ensures
            r@ == artifacts_name(*self),
    {
        String::from_str(
            match self {
                IncludedArtifacts::NoArtifacts => "none",
                IncludedArtifacts::Sparse => "sparse",
                IncludedArtifacts::All => "all",
            },
        )
    }

    /// Reads an artifact set from its exact name.
    pub fn from_str(s: &str) -> (r: Result<IncludedArtifacts, &'static str>)
        ensures
            match r {
                Ok(a) => spec_artifacts_from_str(s@) == Some(a),
                Err(m) => spec_artifacts_from_str(s@) is None && m@ == "unknown variant"@,
            },
    {
        if str_eq(s, "none") {
            Ok(IncludedArtifacts::NoArtifacts)
        } else if str_eq(s, "sparse") {
            Ok(IncludedArtifacts::Sparse)
        } else if str_eq(s, "all") {
            Ok(IncludedArtifacts::All)
        } else {
            Err("unknown variant")
        }
    }
}

/// Reading an artifact set's name gives back the artifact set.
pub proof fn lemma_artifacts_roundtrip(a: IncludedArtifacts)
    ensures
        spec_artifacts_from_str(artifacts_name(a)) == Some(a),
{
    reveal_strlit("none");
    reveal_strlit("sparse");
    reveal_strlit("all");
    assert("none"@.len() != "sparse"@.len());
    assert("none"@.len() != "all"@.len());
    assert("sparse"@.len() != "all"@.len());
}

/// Artifacts to be generated when building a package.
pub struct IncludedArtifactsArgs {
    pub included_artifacts: IncludedArtifacts,
}

/// What to list about packages on chain.
#[derive(Clone, Copy, Debug, PartialEq, Eq, Structural)]
pub enum MoveListQuery {
    Packages,
}

impl MoveListQuery {
    /// The query's name.
    pub fn to_string(&self) -> (r: String)
        ensures
            r@ == "packages"@,
    {
        String::from_str("packages")
    }

    /// Reads a query from its name, in any letter case.
    pub fn from_str(s: &str) -> (r: Result<MoveListQuery, &'static str>)
        ensures
            match r {
                Ok(q) => lowercase_text(s@) == "packages"@,
                Err(m) => lowercase_text(s@) != "packages"@ && m@
                    == "Invalid query. Valid values are modules, packages"@,
            },
    {
        let lower = to_lowercase(s);
        if str_eq(lower.as_str(), "packages") {
            Ok(MoveListQuery::Packages)
        } else {
            Err("Invalid query. Valid values are modules, packages")
        }
    }
}

/// The networks the CLI knows how to set up.
#[derive(Clone, Copy, Debug, PartialEq, Eq, Structural)]
pub enum Network {
    Mainnet,
    Testnet,
    Devnet,
    Local,
    Custom,
}

/// The name of a network.
pub open spec fn network_name(n: Network) -> Seq<char> {
    match n {
        Network::Mainnet => "mainnet"@,
        Network::Testnet => "testnet"@,
        Network::Devnet => "devnet"@,
        Network::Local => "local"@,
        Network::Custom => "custom"@,
    }
}

/// The network named by the lower-cased, trimmed `s`.
pub open spec fn spec_network_from_str(s: Seq<char>) -> Option<Network> {
    let l = spec_trim(lowercase_text(s));
    if l == "mainnet"@ {
        Some(Network::Mainnet)
    } else if l == "testnet"@ {
        Some(Network::Testnet)
    } else if l == "devnet"@ {
        Some(Network::Devnet)
    } else if l == "local"@ {
        Some(Network::Local)
    } else if l == "custom"@ {
        Some(Network::Custom)
    } else {
        None
    }
}

impl Network {
    /// Devnet, the network used when none is chosen.
    pub fn default() -> (r: Network)
        ensures
            r == Network::Devnet,
    {
        Network::Devnet
    }

    /// The network's name.
    pub fn to_string(&self) -> (r: String)
        ensures
            r@ == network_name(*self),
    {
        String::from_str(
            match self {
                Network::Mainnet => "mainnet",
                Network::Testnet => "testnet",
                Network::Devnet => "devnet",
                Network::Local => "local",
                Network::Custom => "custom",
            },
        )
    }

    /// Reads a network from its name, in any letter case, ignoring
    /// surrounding whitespace.
    pub fn from_str(s: &str) -> (r: Result<Network, CliError>)
        ensures
            match r {
                Ok(n) => spec_network_from_str(s@) == Some(n),
                Err(e) => spec_network_from_str(s@) is None && (e matches CliError::CommandArgumentError(
                    m,
                ) && m@ == "Invalid network "@ + spec_trim(lowercase_text(s@))
                    + ".  Must be one of [devnet, testnet, mainnet, local, custom]"@),
            },
    {
        let lower = to_lowercase(s);
        let l = trim(lower.as_str());
        if str_eq(l, "mainnet") {
            Ok(Network::Mainnet)
        } else if str_eq(l, "testnet") {
            Ok(Network::Testnet)
        } else if str_eq(l, "devnet") {
            Ok(Network::Devnet)
        } else if str_eq(l, "local") {
            Ok(Network::Local)
        } else if str_eq(l, "custom") {
            Ok(Network::Custom)
        } else {
            let m1 = concat_text("Invalid network ", l);
            let m = concat_text(m1.as_str(), ".  Must be one of [devnet, testnet, mainnet, local, custom]");
            Err(CliError::CommandArgumentError(m))
        }
    }
}

/// Reading a network's name gives back the network.
pub proof fn lemma_network_roundtrip(n: Network)
    ensures
        spec_network_from_str(network_name(n)) == Some(n),
{
    reveal_strlit("mainnet");
    reveal_strlit("testnet");
    reveal_strlit("devnet");
    reveal_strlit("local");
    reveal_strlit("custom");
    let s = network_name(n);
    assert(lowercase_text(s) =~= s);
    crate::text::lemma_trim_no_space(s);
    assert("mainnet"@[0] != "testnet"@[0]);
    assert("mainnet"@.len() != "devnet"@.len());
    assert("mainnet"@.len() != "local"@.len());
    assert("mainnet"@.len() != "custom"@.len());
    assert("testnet"@.len() != "devnet"@.len());
    assert("testnet"@.len() != "local"@.len());
    assert("testnet"@.len() != "custom"@.len());
    assert("devnet"@.len() != "local"@.len());
    assert("devnet"@[0] != "custom"@[0]);
    assert("local"@.len() != "custom"@.len());
}

/// The name `Debug` writes for a network.
pub open spec fn network_debug_name(n: Network) -> Seq<char> {
    match n {
        Network::Mainnet => "Mainnet"@,
        Network::Testnet => "Testnet"@,
        Network::Devnet => "Devnet"@,
        Network::Local => "Local"@,
        Network::Custom => "Custom"@,
    }
}

/// Network names are read in any letter case and with any whitespace
/// around them: text reads as a network exactly when, lower-cased and
/// trimmed, it is that network's name.
pub proof fn lemma_network_any_case(n: Network, s: Seq<char>)
    ensures
        spec_network_from_str(s) == Some(n) <==> spec_trim(lowercase_text(s)) == network_name(n),
{
    lemma_network_roundtrip(n);
    lemma_network_roundtrip(Network::Mainnet);
    lemma_network_roundtrip(Network::Testnet);
    lemma_network_roundtrip(Network::Devnet);
    lemma_network_roundtrip(Network::Local);
    lemma_network_roundtrip(Network::Custom);
}

/// Text is refused as a network exactly when, lower-cased and trimmed, it
/// is no network's name.
pub proof fn lemma_network_unknown(s: Seq<char>)
    ensures
        spec_network_from_str(s) is None <==> forall|n: Network|
            spec_trim(lowercase_text(s)) != #[trigger] network_name(n),
{
    lemma_network_any_case(Network::Mainnet, s);
    lemma_network_any_case(Network::Testnet, s);
    lemma_network_any_case(Network::Devnet, s);
    lemma_network_any_case(Network::Local, s);
    lemma_network_any_case(Network::Custom, s);
    if spec_network_from_str(s) is None {
        assert forall|n: Network| spec_trim(lowercase_text(s)) != #[trigger] network_name(n) by {
            lemma_network_any_case(n, s);
        }
    }
}

/// The name `Debug` writes for a network reads back as that network.
pub proof fn lemma_network_debug_roundtrip(n: Network)
    ensures
        spec_network_from_str(network_debug_name(n)) == Some(n),
{
    reveal_strlit("Mainnet");
    reveal_strlit("Testnet");
    reveal_strlit("Devnet");
    reveal_strlit("Local");
    reveal_strlit("Custom");
    reveal_strlit("mainnet");
    reveal_strlit("testnet");
    reveal_strlit("devnet");
    reveal_strlit("local");
    reveal_strlit("custom");
    let d = network_debug_name(n);
    assert(all_ascii(d));
    assert(lowercase_text(d) =~= network_name(n));
    lemma_network_any_case(n, d);
    lemma_network_roundtrip(n);
    assert(lowercase_text(network_name(n)) =~= network_name(n));
}

/// An insertable option for use with prompts.
#[derive(Clone, Copy, Debug, PartialEq, Eq, Structural)]
pub struct PromptOptions {
    /// Assume yes for all yes/no prompts
    pub assume_yes: bool,
    /// Assume no for all yes/no prompts
    pub assume_no: bool,
}

impl PromptOptions {
    /// Answers yes to every prompt.
    pub fn yes() -> (r: PromptOptions)
        ensures
            r.assume_yes && !r.assume_no,
    {
        PromptOptions { assume_yes: true, assume_no: false }
    }

    /// Answers no to every prompt.
    pub fn no() -> (r: PromptOptions)
        ensures
            !r.assume_yes && r.assume_no,
    {
        PromptOptions { assume_yes: false, assume_no: true }
    }
}

/// The profile to use from the CLI config.
pub struct ProfileOptions {
    /// Profile to use from the CLI config; defaults to "default"
    pub profile: Option<String>,
}

impl ProfileOptions {
    /// The profile's name, without surrounding whitespace.
    pub fn profile_name(&self) -> (r: Option<&str>)
        ensures
            match (r, self.profile) {
                (Some(n), Some(p)) => n@ == spec_trim(p@),
                (None, None) => true,
                _ => false,
            },
    {
        match &self.profile {
            Some(inner) => Some(trim(inner.as_str())),
            None => None,
        }
    }
}

/// Where a public key comes from on the command line.
pub struct PublicKeyInputOptions {
    /// Ed25519 public key input file name
    pub public_key_file: Option<std::path::PathBuf>,
    /// Ed25519 public key encoded in a type as shown in `encoding`
    pub public_key: Option<String>,
}

/// Where a private key comes from on the command line.
pub struct PrivateKeyInputOptions {
    /// Signing Ed25519 private key file path
    pub private_key_file: Option<std::path::PathBuf>,
    /// Signing Ed25519 private key
    pub private_key: Option<String>,
}

impl PrivateKeyInputOptions {
    /// Takes the private key from the file `file`.
    pub fn from_file(file: std::path::PathBuf) -> (r: PrivateKeyInputOptions)
        ensures
            r.private_key is None,
            r.private_key_file == Some(file),
    {
        PrivateKeyInputOptions { private_key: None, private_key_file: Some(file) }
    }
}

/// An output file, and how to answer the prompt to overwrite it.
pub struct SaveFile {
    /// Output file path
    pub output_file: std::path::PathBuf,
    pub prompt_options: PromptOptions,
}

/// Gas price options for prioritising transactions.
#[derive(PartialEq, Eq, Structural, Debug)]
pub struct GasOptions {
    /// Gas multiplier per unit of gas
    pub gas_unit_price: Option<u64>,
    /// Maximum amount of gas units to be used to send this transaction
    pub max_gas: Option<u64>,
    /// Number of seconds to expire the transaction
    pub expiration_secs: u64,
}

impl GasOptions {
    /// No price or limit given, and the default expiration.
    pub fn default() -> (r: GasOptions)
        ensures
            r.gas_unit_price is None,
            r.max_gas is None,
            r.expiration_secs == DEFAULT_EXPIRATION_SECS,
    {
        GasOptions { gas_unit_price: None, max_gas: None, expiration_secs: DEFAULT_EXPIRATION_SECS }
    }
}

/// Options specific to using the REST endpoint.
pub struct RestOptions {
    /// URL to a fullnode on the network, as typed; read as a URL when used
    pub url: Option<String>,
    /// Connection timeout in seconds
    pub connection_timeout_secs: u64,
}

impl RestOptions {
    /// REST options with the given URL and timeout (default timeout when
    /// none is given).
    pub fn new(url: Option<String>, connection_timeout_secs: Option<u64>) -> (r: RestOptions)
        ensures
            r.url == url,
            r.connection_timeout_secs == match connection_timeout_secs {
                Some(t) => t,
                None => DEFAULT_EXPIRATION_SECS,
            },
    {
        RestOptions {
            url,
            connection_timeout_secs: match connection_timeout_secs {
                Some(t) => t,
                None => DEFAULT_EXPIRATION_SECS,
            },
        }
    }
}

/// Options for the faucet endpoint.
pub struct FaucetOptions {
    /// URL for the faucet endpoint, as typed; read as a URL when used
    pub faucet_url: Option<String>,
}

impl FaucetOptions {
    /// Faucet options with the given URL.
    pub fn new(faucet_url: Option<String>) -> (r: FaucetOptions)
        ensures
            r.faucet_url == faucet_url,
    {
        FaucetOptions { faucet_url }
    }
}

/// Options for the Aptos framework dependency of a new package.
pub struct FrameworkPackageArgs {
    /// Git revision or branch for the Aptos framework
    pub framework_git_rev: Option<String>,
    /// Local framework directory for the Aptos framework, as the text of
    /// its path
    pub framework_local_dir: Option<String>,
    /// Skip pulling the latest git dependencies
    pub skip_fetch_latest_git_deps: bool,
}

} // verus!
