use movement::init::{yes_no, InitStart};
use movement::address::{AccountAddress, ProfileBook};
use movement::arg::ArgWithType;
use movement::config::{CliConfig, ProfileConfig, ProfileSummary};
use movement::errors::CliError;
use movement::init::{
    done_message, faucet_prompt, funding_message, key_prompt, rest_prompt, AccountLookup, FundingPlan, InitTool, KeySource,
    NUM_DEFAULT_OCTAS, SEED_NODE_1_REST,
};
use movement::keys::{extract_private_key, extract_public_key, key_and_address, AddressSource, KeyInput, ProfileKey};
use movement::options::{
    EncodingOptions, EncodingType, FaucetOptions, FrameworkPackageArgs, GasOptions,
    IncludedArtifacts, KeyType, MoveListQuery, Network, PrivateKeyInputOptions, ProfileOptions,
    PromptOptions, PublicKeyInputOptions, RestOptions, DEFAULT_EXPIRATION_SECS,
};
use movement::package::{ArgWithTypeVec, MovePackageDir, RngArgs};

fn addr(last: u8) -> AccountAddress {
    let mut a = [0u8; 32];
    a[31] = last;
    AccountAddress(a)
}

fn profile_with(rest: Option<&str>, account: Option<AccountAddress>) -> ProfileConfig {
    let mut p = ProfileConfig::default();
    p.rest_url = rest.map(|s| s.to_string());
    p.account = account;
    p
}

fn init_tool(network: Option<Network>, rest: Option<&str>, faucet: Option<&str>, skip: bool) -> InitTool {
    InitTool {
        network,
        rest_url: rest.map(|s| s.to_string()),
        faucet_url: faucet.map(|s| s.to_string()),
        skip_faucet: skip,
        rng_args: RngArgs { random_seed: None },
        private_key_options: PrivateKeyInputOptions { private_key_file: None, private_key: None },
        profile_options: ProfileOptions { profile: Some(" dev ".to_string()) },
        prompt_options: PromptOptions::no(),
        encoding_options: EncodingOptions { encoding: EncodingType::default() },
    }
}

#[test]
fn enum_names_round_trip() {
    for n in [Network::Mainnet, Network::Testnet, Network::Devnet, Network::Local, Network::Custom] {
        assert_eq!(Network::from_str(&n.to_string()).unwrap(), n);
    }
    assert_eq!(Network::from_str(" MainNet ").unwrap(), Network::Mainnet);
    match Network::from_str("moon") {
        Err(CliError::CommandArgumentError(m)) => {
            assert_eq!(m, "Invalid network moon.  Must be one of [devnet, testnet, mainnet, local, custom]")
        },
        _ => panic!("expected an error"),
    }
    assert_eq!(Network::default(), Network::Devnet);
    for e in [EncodingType::Hex, EncodingType::BCS, EncodingType::Base64] {
        assert_eq!(EncodingType::from_str(&e.to_string()).unwrap(), e);
    }
    assert_eq!(EncodingType::from_str("HEX").unwrap(), EncodingType::Hex);
    assert_eq!(EncodingType::from_str("b64").unwrap_err(), "Invalid encoding type");
    for k in [KeyType::Ed25519, KeyType::X25519, KeyType::Bls12381] {
        assert_eq!(KeyType::from_str(&k.to_string()).unwrap(), k);
    }
    for a in [IncludedArtifacts::NoArtifacts, IncludedArtifacts::Sparse, IncludedArtifacts::All] {
        assert_eq!(IncludedArtifacts::from_str(&a.to_string()).unwrap(), a);
    }
    assert_eq!(IncludedArtifacts::NoArtifacts.to_string(), "none");
    assert!(IncludedArtifacts::from_str("All").is_err());
    assert_eq!(MoveListQuery::from_str("PACKAGES").unwrap(), MoveListQuery::Packages);
    assert_eq!(MoveListQuery::Packages.to_string(), "packages");
}

#[test]
fn option_defaults() {
    assert!(PromptOptions::yes().assume_yes);
    assert!(!PromptOptions::yes().assume_no);
    assert!(PromptOptions::no().assume_no);
    let g = GasOptions::default();
    assert_eq!(g.expiration_secs, DEFAULT_EXPIRATION_SECS);
    assert!(g.gas_unit_price.is_none() && g.max_gas.is_none());
    assert_eq!(RestOptions::new(None, None).connection_timeout_secs, 30);
    assert_eq!(RestOptions::new(None, Some(5)).connection_timeout_secs, 5);
    let p = ProfileOptions { profile: Some("  alice\t".to_string()) };
    assert_eq!(p.profile_name(), Some("alice"));
    assert_eq!(ProfileOptions { profile: None }.profile_name(), None);
    let k = PrivateKeyInputOptions::from_file(std::path::PathBuf::from("/tmp/key"));
    assert!(k.private_key.is_none());
    assert_eq!(k.private_key_file, Some(std::path::PathBuf::from("/tmp/key")));
    assert!(FaucetOptions::new(None).faucet_url.is_none());
    assert_eq!(CliError::AbortedError.to_str(), "AbortedError");
    assert_eq!(CliError::SimulationError("x".to_string()).to_str(), "SimulationError");
}

#[test]
fn config_profiles_read_back_what_was_written() {
    let mut c = CliConfig { profiles: None };
    c.insert_profile("default".to_string(), profile_with(Some("http://a"), Some(addr(1))));
    c.insert_profile("alice".to_string(), profile_with(None, Some(addr(2))));
    c.insert_profile("default".to_string(), profile_with(Some("http://b"), None));
    assert_eq!(c.profiles.as_ref().unwrap().len(), 2);
    let removed = c.remove_profile("alice").unwrap();
    assert_eq!(removed.account.unwrap().0, addr(2).0);
    assert!(c.remove_profile("alice").is_none());
    let d = c.remove_profile("default").unwrap();
    assert_eq!(d.rest_url.as_deref(), Some("http://b"));
    assert!(d.account.is_none());
    let empty = CliConfig::default();
    assert!(empty.profiles.unwrap().is_empty());
}

#[test]
fn profiles_are_selected_by_name() {
    let mut c = CliConfig::default();
    c.insert_profile("alice".to_string(), profile_with(None, Some(addr(2))));
    let opts = ProfileOptions { profile: Some(" alice ".to_string()) };
    assert_eq!(opts.account_address(Ok(c)).unwrap().0, addr(2).0);
    let mut c = CliConfig::default();
    c.insert_profile("alice".to_string(), profile_with(None, None));
    match opts.account_address(Ok(c)) {
        Err(CliError::ConfigNotFoundError(m)) => assert_eq!(m, " alice "),
        _ => panic!("expected an error"),
    }
    match (ProfileOptions { profile: Some("bob".to_string()) }).profile(Ok(CliConfig::default())) {
        Err(CliError::CommandArgumentError(m)) => assert_eq!(m, "Profile bob not found"),
        _ => panic!("expected an error"),
    }
    match (ProfileOptions { profile: None }).profile(Ok(CliConfig::default())) {
        Err(CliError::ConfigNotFoundError(m)) => assert_eq!(m, "default"),
        _ => panic!("expected an error"),
    }
    let loaded = CliConfig::default().load_profile(None).unwrap();
    assert!(loaded.is_none());
    let summary = ProfileSummary::from(&profile_with(Some("u"), None));
    assert!(!summary.has_private_key);
    assert_eq!(summary.rest_url.as_deref(), Some("u"));
}

#[test]
fn rest_and_faucet_urls() {
    let given = RestOptions::new(Some("http://x/".to_string()), None);
    assert_eq!(given.url(Err(CliError::AbortedError)).unwrap(), "http://x/");
    let none = RestOptions::new(None, None);
    assert_eq!(none.url(Ok(Some(profile_with(Some("http://localhost:8080"), None)))).unwrap(), "http://localhost:8080/");
    match none.url(Ok(Some(profile_with(Some("not a url"), None)))) {
        Err(CliError::UnableToParse(l, _)) => assert_eq!(l, "Rest URL"),
        _ => panic!("expected an error"),
    }
    match none.url(Ok(None)) {
        Err(CliError::CommandArgumentError(m)) => assert!(m.starts_with("No rest url given.")),
        _ => panic!("expected an error"),
    }
    let faucet = FaucetOptions::new(None);
    let mut p = ProfileConfig::default();
    p.faucet_url = Some("https://faucet.example.com".to_string());
    assert_eq!(faucet.faucet_url(Ok(Some(p))).unwrap(), "https://faucet.example.com/");
    match faucet.faucet_url(Ok(None)) {
        Err(CliError::CommandArgumentError(m)) => assert!(m.starts_with("No faucet given.")),
        _ => panic!("expected an error"),
    }
}

#[test]
fn init_network_choices() {
    assert_eq!(InitTool::network_from_input("  \n").unwrap(), Network::Devnet);
    assert_eq!(InitTool::network_from_input(" Local\n").unwrap(), Network::Local);
    assert!(InitTool::network_from_input("moon").is_err());
    let mut p = ProfileConfig::default();
    InitTool::apply_network_endpoints(Network::Local, &mut p);
    assert_eq!(p.rest_url.as_deref(), Some("http://localhost:8080"));
    assert_eq!(p.faucet_url.as_deref(), Some("http://localhost:8081"));
    InitTool::apply_network_endpoints(Network::Testnet, &mut p);
    assert_eq!(p.rest_url.as_deref(), Some(SEED_NODE_1_REST));
    InitTool::apply_network_endpoints(Network::Custom, &mut p);
    assert_eq!(p.faucet_url.as_deref(), Some(SEED_NODE_1_REST));
    let t = init_tool(None, None, None, false);
    assert_eq!(t.profile_name(), "dev");
    assert_eq!(
        InitTool::overwrite_question("dev"),
        "Movement already initialized for profile dev, do you want to overwrite the existing config?"
    );
}

#[test]
fn init_custom_network_answers() {
    let t = init_tool(None, None, None, false);
    assert!(matches!(t.custom_rest_url(&None, "  "), Err(CliError::AbortedError)));
    assert_eq!(t.custom_rest_url(&Some("http://old".to_string()), "").unwrap(), "http://old");
    assert_eq!(t.custom_rest_url(&None, " http://node:8080 ").unwrap(), "http://node:8080/");
    match t.custom_rest_url(&None, "::") {
        Err(CliError::UnableToParse(l, _)) => assert_eq!(l, "Rest Endpoint"),
        _ => panic!("expected an error"),
    }
    assert_eq!(t.custom_faucet_url(&Some("f".to_string()), "SKIP").unwrap(), None);
    assert_eq!(t.custom_faucet_url(&Some("f".to_string()), "").unwrap().as_deref(), Some("f"));
    assert_eq!(t.custom_faucet_url(&None, "").unwrap(), None);
    let skipping = init_tool(None, None, Some("http://f/"), true);
    assert_eq!(skipping.custom_faucet_url(&Some("f".to_string()), "x").unwrap(), None);
    let given = init_tool(None, Some("http://r/"), Some("http://f/"), false);
    let mut p = ProfileConfig::default();
    given.custom_network(&mut p, "", "").unwrap();
    assert_eq!(p.rest_url.as_deref(), Some("http://r/"));
    assert_eq!(p.faucet_url.as_deref(), Some("http://f/"));
    let mut p = ProfileConfig::default();
    assert!(t.custom_network(&mut p, "http://r", "::").is_err());
    assert_eq!(p.rest_url.as_deref(), Some("http://r/"));
    assert!(p.faucet_url.is_none());
}

#[test]
fn init_keys_and_funding() {
    assert!(matches!(InitTool::key_source(true, "x", true), KeySource::CommandLine));
    assert!(matches!(InitTool::key_source(false, " ", true), KeySource::KeepExisting));
    assert!(matches!(InitTool::key_source(false, "", false), KeySource::Generate));
    match InitTool::key_source(false, " 0xabc \n", false) {
        KeySource::Typed(t) => assert_eq!(t, "0xabc"),
        _ => panic!("expected typed key"),
    }
    assert_eq!(InitTool::account_exists(AccountLookup::Found).unwrap(), true);
    assert_eq!(InitTool::account_exists(AccountLookup::NotFound).unwrap(), false);
    match InitTool::account_exists(AccountLookup::Failed("timeout".to_string())) {
        Err(CliError::UnexpectedError(m)) => assert_eq!(m, "Failed to check if account exists: timeout"),
        _ => panic!("expected an error"),
    }
    let t = init_tool(None, None, None, false);
    let faucet = Some("http://f".to_string());
    assert!(matches!(t.funding_plan(&faucet, true, Network::Devnet), FundingPlan::AlreadyOnChain));
    match t.funding_plan(&faucet, false, Network::Devnet) {
        FundingPlan::Fund(u) => assert_eq!(u, "http://f"),
        _ => panic!("expected funding"),
    }
    assert!(matches!(t.funding_plan(&None, false, Network::Mainnet), FundingPlan::MainnetNeedsTransfer));
    assert!(matches!(t.funding_plan(&None, false, Network::Local), FundingPlan::LocalOnly));
    let skipping = init_tool(None, None, None, true);
    assert!(matches!(skipping.funding_plan(&faucet, false, Network::Devnet), FundingPlan::LocalOnly));
    assert_eq!(
        funding_message(&FundingPlan::Fund("u".to_string()), "0x1"),
        format!("Account 0x1 doesn't exist, creating it and funding it with {} Octas", NUM_DEFAULT_OCTAS)
    );
    assert_eq!(funding_message(&FundingPlan::AlreadyOnChain, "0x1"), "Account 0x1 has been already found onchain");
    assert_eq!(
        done_message("0x1", "default"),
        "\n---\nMovement CLI is now set up for account 0x1 as profile default!  Run `movement --help` for more information about commands"
    );
}

#[test]
fn seeds_for_key_generation() {
    let r = RngArgs::from_seed([1u8; 32]);
    assert_eq!(r.random_seed.as_deref(), Some("01".repeat(32).as_str()));
    assert_eq!(r.key_seed().unwrap(), Some([1u8; 32]));
    let s = RngArgs::from_string_seed("ab");
    let mut expected = [0u8; 32];
    expected[0] = b'a';
    expected[1] = b'b';
    assert_eq!(s.key_seed().unwrap(), Some(expected));
    let prefixed = RngArgs { random_seed: Some(format!("0x{}", "ff".repeat(32))) };
    assert_eq!(prefixed.key_seed().unwrap(), Some([0xffu8; 32]));
    let short = RngArgs { random_seed: Some("abcd".to_string()) };
    assert!(matches!(short.key_seed(), Err(CliError::UnexpectedError(_))));
    assert_eq!(RngArgs { random_seed: None }.key_seed().unwrap(), None);
}

#[test]
fn package_options() {
    let flags = IncludedArtifacts::Sparse.build_options(true, vec![], Some(6));
    assert!(flags.with_srcs && !flags.with_abis && !flags.with_source_maps && flags.with_error_map);
    let all = IncludedArtifacts::All.build_options(false, vec![], None);
    assert!(all.with_abis && all.with_source_maps && !all.skip_fetch_latest_git_deps);
    let none = IncludedArtifacts::NoArtifacts.build_options(false, vec![], None);
    assert!(!none.with_srcs && none.with_error_map);
    let mut dir = MovePackageDir::new(std::path::PathBuf::from("pkg"));
    assert!(dir.skip_fetch_latest_git_deps);
    let book = ProfileBook { profiles: None, missing: "c".to_string() };
    dir.add_named_address("alice".to_string(), "0x1", &book);
    dir.add_named_address("bob".to_string(), "0x2", &book);
    dir.add_named_address("alice".to_string(), "0x3", &book);
    let named = dir.named_addresses();
    assert_eq!(named.len(), 2);
    assert_eq!(named[0].0, "alice");
    assert_eq!(named[0].1 .0, addr(3).0);
    let fw = FrameworkPackageArgs { framework_git_rev: None, framework_local_dir: None, skip_fetch_latest_git_deps: true };
    let dep = fw.framework_dependency();
    assert_eq!(dep.rev.as_deref(), Some("main"));
    assert_eq!(dep.git.as_deref(), Some("https://github.com/aptos-labs/aptos-core.git"));
    let local = FrameworkPackageArgs {
        framework_git_rev: Some("v1".to_string()),
        framework_local_dir: Some("/fw".to_string()),
        skip_fetch_latest_git_deps: true,
    };
    assert_eq!(local.framework_dependency().local.as_deref(), Some("/fw"));
    let m = fw.manifest("hello", vec![("me".to_string(), None)]);
    assert_eq!(m.version, "1.0.0");
    assert_eq!(m.dependencies[0].0, "AptosFramework");
    let args = ArgWithTypeVec { args: vec![ArgWithType::u64(1), ArgWithType::raw(vec![9])] };
    assert_eq!(args.into_bytes(), vec![vec![1u8, 0, 0, 0, 0, 0, 0, 0], vec![9u8]]);
}

#[test]
fn key_encodings() {
    assert_eq!(EncodingType::Hex.encode_key(&[0xab, 0x01]).unwrap(), b"AB01".to_vec());
    assert_eq!(EncodingType::Base64.encode_key(&[0, 1, 2]).unwrap(), b"AAEC".to_vec());
    assert_eq!(EncodingType::BCS.encode_key(&[5, 6]).unwrap(), vec![2u8, 5, 6]);
    assert_eq!(EncodingType::Hex.decode_key("--private-key", b" 0xab01\n".to_vec()).unwrap(), vec![0xabu8, 1]);
    assert_eq!(EncodingType::Base64.decode_key("k", b"AAEC\n".to_vec()).unwrap(), vec![0u8, 1, 2]);
    assert_eq!(EncodingType::BCS.decode_key("k", vec![2, 5, 6]).unwrap(), vec![5u8, 6]);
    match EncodingType::Hex.decode_key("--private-key", b"zz".to_vec()) {
        Err(CliError::UnableToParse(l, _)) => assert_eq!(l, "--private-key"),
        _ => panic!("expected an error"),
    }
    assert!(matches!(EncodingType::Hex.decode_key("k", vec![0xff, 0xfe]), Err(CliError::UnexpectedError(_))));
    assert!(matches!(EncodingType::BCS.decode_key("k", vec![3, 1]), Err(CliError::BCS("k", _))));
}

#[test]
fn signing_key_sources() {
    let r = key_and_address::<u8>(Ok(Some(1)), None, Err(CliError::AbortedError)).unwrap();
    assert!(matches!(r, (1, AddressSource::Derive)));
    let r = key_and_address::<u8>(Ok(Some(1)), Some(addr(4)), Ok(None)).unwrap();
    assert!(matches!(r, (1, AddressSource::Known(a)) if a.0 == addr(4).0));
    let p = ProfileKey { private_key: Some(2u8), account: Some(addr(5)) };
    let r = key_and_address(Ok(None), None, Ok(Some(p))).unwrap();
    assert!(matches!(r, (2, AddressSource::Known(a)) if a.0 == addr(5).0));
    let p = ProfileKey { private_key: Some(2u8), account: None };
    assert!(matches!(key_and_address(Ok(None), None, Ok(Some(p))).unwrap(), (2, AddressSource::Derive)));
    match key_and_address::<u8>(Ok(None), None, Ok(None)) {
        Err(CliError::CommandArgumentError(m)) => assert_eq!(m, "One of ['--private-key', '--private-key-file'] must be used"),
        _ => panic!("expected an error"),
    }
    assert_eq!(extract_private_key::<u8>(Ok(None), Ok(Some(Some(3)))).unwrap(), 3);
    assert!(extract_private_key::<u8>(Ok(None), Ok(Some(None))).is_err());
    assert_eq!(extract_public_key::<u8>(Some(Ok(4)), Err(CliError::AbortedError)).unwrap(), 4);
    match extract_public_key::<u8>(None, Ok(None)) {
        Err(CliError::CommandArgumentError(m)) => {
            assert_eq!(m, "One of ['--public-key', '--public-key-file', '--profile'] must be used")
        },
        _ => panic!("expected an error"),
    }
    let input = PrivateKeyInputOptions { private_key_file: None, private_key: Some("0xab".to_string()) };
    match input.into_key_input() {
        KeyInput::Text(b) => assert_eq!(b, b"0xab".to_vec()),
        _ => panic!("expected text"),
    }
    let input = PublicKeyInputOptions { public_key_file: Some(std::path::PathBuf::from("k.pub")), public_key: Some("x".to_string()) };
    assert!(matches!(input.into_key_input(), KeyInput::File(_)));
}

#[test]
fn keys_written_read_back() {
    let key: Vec<u8> = (0u8..32).map(|i| i.wrapping_mul(37)).collect();
    for e in [EncodingType::Hex, EncodingType::BCS, EncodingType::Base64] {
        let written = e.encode_key(&key).unwrap();
        assert_eq!(e.decode_key("--private-key", written).unwrap(), key);
    }
}

#[test]
fn init_prompts() {
    assert_eq!(
        rest_prompt(&None),
        "Enter your rest endpoint [Current: None | No input: Exit (or keep the existing if present)]"
    );
    assert_eq!(
        faucet_prompt(&Some("http://f/".to_string())),
        "Enter your faucet endpoint [Current: http://f/ | No input: Skip (or keep the existing one if present) | 'skip' to not use a faucet]"
    );
    assert_eq!(
        key_prompt(true),
        "Enter your private key as a hex literal (0x...) [Current: Redacted | No input: Generate new key (or keep one if present)]"
    );
}

#[test]
fn network_debug_names_read_back() {
    for n in [Network::Mainnet, Network::Testnet, Network::Devnet, Network::Local, Network::Custom] {
        assert_eq!(Network::from_str(&format!("{:?}", n)).unwrap(), n);
    }
    assert_eq!(Network::from_str("\tLOCAL\n").unwrap(), Network::Local);
}

#[test]
fn custom_network_error_kinds() {
    let t = init_tool(None, None, None, false);
    let mut p = ProfileConfig::default();
    assert!(matches!(t.custom_network(&mut p, " ", ""), Err(CliError::AbortedError)));
    assert!(p.rest_url.is_none());
    match t.custom_network(&mut p, "::", "") {
        Err(CliError::UnableToParse(l, _)) => assert_eq!(l, "Rest Endpoint"),
        _ => panic!("expected an error"),
    }
    assert!(p.rest_url.is_none() && p.faucet_url.is_none());
    match t.custom_network(&mut p, "http://r", "::") {
        Err(CliError::UnableToParse(l, _)) => assert_eq!(l, "Faucet Endpoint"),
        _ => panic!("expected an error"),
    }
    let given = init_tool(None, Some("http://x:8080"), Some("http://f:1"), false);
    let mut p = ProfileConfig::default();
    given.custom_network(&mut p, "", "").unwrap();
    assert_eq!(p.rest_url.as_deref(), Some("http://x:8080/"));
    assert_eq!(p.faucet_url.as_deref(), Some("http://f:1/"));
}

#[test]
fn command_line_urls_are_read_as_urls() {
    let given = RestOptions::new(Some("http://x:8080".to_string()), None);
    assert_eq!(given.url(Ok(None)).unwrap(), "http://x:8080/");
    match RestOptions::new(Some("::".to_string()), None).url(Ok(None)) {
        Err(CliError::UnableToParse(l, _)) => assert_eq!(l, "--url"),
        _ => panic!("expected an error"),
    }
    let faucet = FaucetOptions::new(Some("https://f.example.com".to_string()));
    assert_eq!(faucet.faucet_url(Ok(None)).unwrap(), "https://f.example.com/");
    match FaucetOptions::new(Some("nope".to_string())).faucet_url(Ok(None)) {
        Err(CliError::UnableToParse(l, _)) => assert_eq!(l, "--faucet-url"),
        _ => panic!("expected an error"),
    }
}

#[test]
fn init_saves_the_profile() {
    let t = init_tool(None, None, None, false);
    let mut p = ProfileConfig::default();
    InitTool::apply_network_endpoints(Network::Local, &mut p);
    InitTool::set_identity(&mut p, vec![1, 2], vec![3, 4], addr(9));
    let mut config = CliConfig::default();
    config.insert_profile("other".to_string(), ProfileConfig::default());
    t.save_profile(&mut config, p);
    let loaded = t.profile_options.profile(Ok(config)).unwrap();
    assert_eq!(loaded.private_key, Some(vec![1u8, 2]));
    assert_eq!(loaded.public_key, Some(vec![3u8, 4]));
    assert_eq!(loaded.account.unwrap().0, addr(9).0);
    assert_eq!(loaded.rest_url.as_deref(), Some("http://localhost:8080"));
}

#[test]
fn framework_dependency_in_manifest() {
    let local = FrameworkPackageArgs {
        framework_git_rev: None,
        framework_local_dir: Some("../framework".to_string()),
        skip_fetch_latest_git_deps: false,
    };
    let m = local.manifest("pkg", vec![]);
    let d = &m.dependencies[0].1;
    assert_eq!(d.local.as_deref(), Some("../framework"));
    assert!(d.git.is_none() && d.rev.is_none() && d.subdir.is_none());
    let git = FrameworkPackageArgs {
        framework_git_rev: Some("v1.2".to_string()),
        framework_local_dir: None,
        skip_fetch_latest_git_deps: false,
    };
    let m = git.manifest("pkg", vec![]);
    let d = &m.dependencies[0].1;
    assert_eq!(d.rev.as_deref(), Some("v1.2"));
    assert_eq!(d.subdir.as_deref(), Some("aptos-move/framework/aptos-framework"));
}

#[test]
fn encoded_keys_read_back_with_whitespace() {
    let key = [7u8, 200, 0, 31, 64];
    for e in [EncodingType::Hex, EncodingType::Base64] {
        let mut data = b" \t".to_vec();
        data.extend(e.encode_key(&key).unwrap());
        data.extend(b"\r\n".to_vec());
        assert_eq!(e.decode_key("k", data).unwrap(), key.to_vec());
    }
    let bcs = EncodingType::BCS.encode_key(&key).unwrap();
    assert_eq!(EncodingType::BCS.decode_key("k", bcs).unwrap(), key.to_vec());
}

#[test]
fn seeds_from_from_seed_read_back() {
    let seed = [0x5au8; 32];
    assert_eq!(RngArgs::from_seed(seed).key_seed().unwrap(), Some(seed));
    assert_eq!(RngArgs { random_seed: None }.key_seed().unwrap(), None);
    assert!(matches!(
        RngArgs { random_seed: Some("0x12".to_string()) }.key_seed(),
        Err(CliError::UnexpectedError(_))
    ));
}

#[test]
fn init_overwrite_prompt() {
    assert_eq!(yes_no(" YES \n"), Some(true));
    assert_eq!(yes_no("n"), Some(false));
    assert_eq!(yes_no("maybe"), None);
    let t = init_tool(None, None, None, false);
    assert!(matches!(t.start(None, None), InitStart::Configure(p) if p.rest_url.is_none()));
    let existing = profile_with(Some("http://old"), None);
    assert!(matches!(t.start(Some(existing), None), InitStart::Stop(CliError::AbortedError)));
    let mut asking = init_tool(None, None, None, false);
    asking.prompt_options = PromptOptions { assume_yes: false, assume_no: false };
    match asking.start(Some(profile_with(None, None)), None) {
        InitStart::Ask(q) => assert_eq!(q, "Movement already initialized for profile dev, do you want to overwrite the existing config?"),
        _ => panic!("expected a question"),
    }
    assert!(matches!(asking.start(Some(profile_with(None, None)), Some("what")), InitStart::Ask(_)));
    assert!(matches!(asking.start(Some(profile_with(None, None)), Some("No")), InitStart::Stop(CliError::AbortedError)));
    match asking.start(Some(profile_with(Some("http://old"), None)), Some("y")) {
        InitStart::Configure(p) => assert_eq!(p.rest_url.as_deref(), Some("http://old")),
        _ => panic!("expected to configure"),
    }
    let mut yes = init_tool(None, None, None, false);
    yes.prompt_options = PromptOptions::yes();
    assert!(matches!(yes.start(Some(profile_with(None, None)), None), InitStart::Configure(_)));
}

#[test]
fn base64_keys_are_padded() {
    assert_eq!(EncodingType::Base64.encode_key(&[0xff]).unwrap(), b"/w==".to_vec());
    assert_eq!(EncodingType::Base64.encode_key(&[0xff, 0xee]).unwrap(), b"/+4=".to_vec());
    assert_eq!(EncodingType::Base64.encode_key(&[]).unwrap(), Vec::<u8>::new());
    assert_eq!(EncodingType::Base64.encode_key(&[1, 2, 3, 4]).unwrap(), b"AQIDBA==".to_vec());
}
