//! Move packages and key seeds: the named addresses of a package, the
//! build flags each artifact set asks for, the framework dependency of a
//! new package's manifest, the arguments of an entry function, and the
//! seed a key generator starts from.

use vstd::prelude::*;
use vstd::string::StringSliceAdditionalSpecFns;
use crate::address::{AccountAddress, ProfileBook, load_account_arg, spec_load_account_arg};
use crate::arg::ArgWithType;
use crate::errors::CliError;
use crate::hex_codec::{all_hex, hex_decode_to_array32, hex_encode, spec_hex_decode, spec_hex_encode};
use crate::named::{lookup, named_insert, names_unique};
use crate::options::{FrameworkPackageArgs, IncludedArtifacts};
use crate::text::starts_with;

verus! {

/// The seed a key generator is made from.
pub struct RngArgs {
    /// The seed used for key generation, as 64 hexadecimal digits
    /// (an optional `0x` first).
    pub random_seed: Option<String>,
}

/// The 32-byte seed made from a short text: its bytes, then zeros.
pub open spec fn padded_seed(b: Seq<u8>) -> Seq<u8> {
    Seq::new(32, |i: int| if i < b.len() { b[i] } else { 0u8 })
}

/// The seed text without a leading `0x`.
pub open spec fn seed_digits(s: Seq<char>) -> Seq<char> {
    if s.len() >= 2 && s[0] == '0' && s[1] == 'x' {
        s.subrange(2, s.len() as int)
    } else {
        s
    }
}

/// The seed a key generator starts from, for the seed text `seed`: none
/// given means the operating system seeds it (`Some(None)`); a given one is
/// an optional `0x` and 64 hexadecimal digits, whose bytes are the seed;
/// any other text is refused (`None`).
pub open spec fn spec_key_seed(seed: Option<Seq<char>>) -> Option<Option<Seq<u8>>> {
    match seed {
        None => Some(None),
        Some(s) => {
            let d = seed_digits(s);
            if d.len() == 64 && all_hex(d) {
                Some(spec_hex_decode(d))
            } else {
                None
            }
        },
    }
}

/// The seed text of optional arguments.
pub open spec fn seed_text(args: RngArgs) -> Option<Seq<char>> {
    match args.random_seed {
        Some(s) => Some(s@),
        None => None,
    }
}

/// Calls `hex::FromHexError`'s `to_string`; nothing is claimed of the text.
#[verifier::external_body]
fn hex_error_text(e: &hex::FromHexError) -> (r: String) {
    e.to_string()
}

impl RngArgs {
    /// The arguments for the seed `seed`.
    pub fn from_seed(seed: [u8; 32]) -> (r: RngArgs)
        ensures
            r.random_seed matches Some(s) && s@ == spec_hex_encode(seed@),
    {
        RngArgs { random_seed: Some(hex_encode(&seed)) }
    }

    /// The arguments for the seed made of the bytes of `s`, padded with
    /// zeros to 32 bytes.
    pub fn from_string_seed(s: &str) -> (r: RngArgs)
        requires
            s.spec_bytes().len() < 32,
        ensures
            r.random_seed matches Some(t) && t@ == spec_hex_encode(padded_seed(s.spec_bytes())),
    {
        let bytes = s.as_bytes();
        let mut seed = [0u8; 32];
        let mut i: usize = 0;
        while i < bytes.len()
            invariant
                bytes@ == s.spec_bytes(),
                bytes@.len() < 32,
                i <= bytes@.len(),
                forall|j: int| 0 <= j < i ==> seed[j] == bytes@[j],
                forall|j: int| i <= j < 32 ==> seed[j] == 0,
            decreases bytes@.len() - i,
        {
            seed[i] = bytes[i];
            i = i + 1;
        }
        proof {
            assert(seed@ =~= padded_seed(bytes@));
        }
        RngArgs { random_seed: Some(hex_encode(&seed)) }
    }

    /// The seed the key generator starts from: the given one (an optional
    /// `0x`, then 64 hexadecimal digits), or `None` for a generator seeded
    /// by the operating system.
    pub fn key_seed(&self) -> (r: Result<Option<[u8; 32]>, CliError>)
        ensures
            match spec_key_seed(seed_text(*self)) {
                Some(None) => r == Ok::<Option<[u8; 32]>, CliError>(None),
                Some(Some(b)) => r matches Ok(Some(x)) && x@ == b,
                None => r matches Err(e) && e is UnexpectedError,
            },
    {
        match &self.random_seed {
            None => Ok(None),
            Some(seed) => {
                let s = seed.as_str();
                proof {
                    reveal_strlit("0x");
                }
                let has_prefix = starts_with(s, "0x");
                proof {
                    if has_prefix {
                        assert(s@.subrange(0, 2)[0] == '0');
                        assert(s@.subrange(0, 2)[1] == 'x');
                    } else if s@.len() >= 2 && s@[0] == '0' && s@[1] == 'x' {
                        assert(s@.subrange(0, 2) =~= "0x"@);
                    }
                }
                let digits = if has_prefix {
                    s.substring_char(2, s.unicode_len())
                } else {
                    s
                };
                assert(digits@ == seed_digits(s@));
                let mut out = [0u8; 32];
                match hex_decode_to_array32(digits, &mut out) {
                    Ok(()) => Ok(Some(out)),
                    Err(e) => Err(CliError::UnexpectedError(hex_error_text(&e))),
                }
            },
        }
    }
}

/// The seed text written for a 32-byte seed is read back as that seed by
/// `key_seed`: 64 hexadecimal digits, without a `0x` to strip, standing for
/// the seed's bytes; so the arguments `from_seed` makes start the key
/// generator from that seed.
pub proof fn lemma_seed_roundtrip(seed: [u8; 32])
    ensures
        seed_digits(spec_hex_encode(seed@)).len() == 64,
        all_hex(seed_digits(spec_hex_encode(seed@))),
        spec_hex_decode(seed_digits(spec_hex_encode(seed@))) == Some(seed@),
        spec_key_seed(Some(spec_hex_encode(seed@))) == Some(Some(seed@)),
{
    let t = spec_hex_encode(seed@);
    crate::hex_codec::lemma_hex_roundtrip(seed@);
    assert(crate::hex_codec::is_hex_char(t[1]));
    assert(seed_digits(t) == t);
}

/// The build flags that an artifact set asks for, with the package's named
/// addresses, the git choice and the bytecode version.
pub struct BuildFlags {
    pub with_srcs: bool,
    pub with_abis: bool,
    pub with_source_maps: bool,
    pub with_error_map: bool,
    pub named_addresses: Vec<(String, AccountAddress)>,
    pub skip_fetch_latest_git_deps: bool,
    pub bytecode_version: Option<u32>,
}

impl IncludedArtifacts {
    /// The build flags for this artifact set: sources for `sparse` and
    /// `all`, ABIs and source maps for `all` only, and the error map always.
    pub fn build_options(
        self,
        skip_fetch_latest_git_deps: bool,
        named_addresses: Vec<(String, AccountAddress)>,
        bytecode_version: Option<u32>,
    ) -> (r: BuildFlags)
        ensures
            r.with_srcs == (self != IncludedArtifacts::NoArtifacts),
            r.with_abis == (self == IncludedArtifacts::All),
            r.with_source_maps == (self == IncludedArtifacts::All),
            r.with_error_map,
            r.named_addresses == named_addresses,
            r.skip_fetch_latest_git_deps == skip_fetch_latest_git_deps,
            r.bytecode_version == bytecode_version,
    {
        match self {
            IncludedArtifacts::NoArtifacts => BuildFlags {
                with_srcs: false,
                with_abis: false,
                with_source_maps: false,
                with_error_map: true,
                named_addresses,
                skip_fetch_latest_git_deps,
                bytecode_version,
            },
            IncludedArtifacts::Sparse => BuildFlags {
                with_srcs: true,
                with_abis: false,
                with_source_maps: false,
                with_error_map: true,
                named_addresses,
                skip_fetch_latest_git_deps,
                bytecode_version,
            },
            IncludedArtifacts::All => BuildFlags {
                with_srcs: true,
                with_abis: true,
                with_source_maps: true,
                with_error_map: true,
                named_addresses,
                skip_fetch_latest_git_deps,
                bytecode_version,
            },
        }
    }
}

/// Options for compiling a Move package directory.
pub struct MovePackageDir {
    /// Path to a move package (the folder with a Move.toml file)
    pub package_dir: Option<std::path::PathBuf>,
    /// Path to save the compiled move package
    pub output_dir: Option<std::path::PathBuf>,
    /// Named addresses for the move binary, by name
    pub named_addresses: Vec<(String, AccountAddress)>,
    /// Skip pulling the latest git dependencies
    pub skip_fetch_latest_git_deps: bool,
    /// The version of the bytecode the compiler is to emit
    pub bytecode_version: Option<u32>,
}

impl MovePackageDir {
    /// The options for the package at `package_dir`: no named addresses,
    /// no output directory, and no fetching of git dependencies.
    pub fn new(package_dir: std::path::PathBuf) -> (r: MovePackageDir)
        ensures
            r.package_dir == Some(package_dir),
            r.output_dir is None,
            r.named_addresses@.len() == 0,
            r.skip_fetch_latest_git_deps,
            r.bytecode_version is None,
    {
        MovePackageDir {
            package_dir: Some(package_dir),
            output_dir: None,
            named_addresses: Vec::new(),
            skip_fetch_latest_git_deps: true,
            bytecode_version: None,
        }
    }

    /// The named addresses, each resolved to its account address.
    pub fn named_addresses(&self) -> (r: Vec<(String, AccountAddress)>)
        ensures
            r@.len() == self.named_addresses@.len(),
            forall|i: int|
                0 <= i < r@.len() ==> (#[trigger] r@[i]).0@ == self.named_addresses@[i].0@
                    && r@[i].1 == self.named_addresses@[i].1,
    {
        let mut out: Vec<(String, AccountAddress)> = Vec::new();
        let mut i: usize = 0;
        while i < self.named_addresses.len()
            invariant
                i <= self.named_addresses@.len(),
                out@.len() == i,
                forall|j: int|
                    0 <= j < i ==> (#[trigger] out@[j]).0@ == self.named_addresses@[j].0@
                        && out@[j].1 == self.named_addresses@[j].1,
            decreases self.named_addresses@.len() - i,
        {
            let name = String::from_str(self.named_addresses[i].0.as_str());
            out.push((name, self.named_addresses[i].1));
            i = i + 1;
        }
        out
    }

    /// Names the account that `value` resolves to `key`, replacing an
    /// earlier address of that name. `value` must resolve.
    pub fn add_named_address(&mut self, key: String, value: &str, book: &ProfileBook)
        requires
            names_unique(old(self).named_addresses@),
            spec_load_account_arg(value@, *book) is Ok,
        ensures
            names_unique(final(self).named_addresses@),
            lookup(final(self).named_addresses@, key@) matches Some(a) && a.0@
                == spec_load_account_arg(value@, *book)->Ok_0,
            forall|n: Seq<char>|
                n != key@ ==> #[trigger] lookup(final(self).named_addresses@, n) == lookup(
                    old(self).named_addresses@,
                    n,
                ),
            final(self).package_dir == old(self).package_dir,
            final(self).output_dir == old(self).output_dir,
            final(self).skip_fetch_latest_git_deps == old(self).skip_fetch_latest_git_deps,
            final(self).bytecode_version == old(self).bytecode_version,
    {
        match load_account_arg(value, book) {
            Ok(a) => named_insert(&mut self.named_addresses, key, a),
            Err(_) => {},
        }
    }
}

/// A dependency of a package's manifest.
pub struct Dependency {
    pub local: Option<String>,
    pub git: Option<String>,
    pub rev: Option<String>,
    pub subdir: Option<String>,
}

/// The name of the framework dependency.
pub const APTOS_FRAMEWORK: &'static str = "AptosFramework";

/// Where the framework's sources are fetched from.
pub const APTOS_GIT_PATH: &'static str = "https://github.com/aptos-labs/aptos-core.git";

/// The framework's directory in that repository.
pub const SUBDIR_PATH: &'static str = "aptos-move/framework/aptos-framework";

/// The branch used when no revision is given.
pub const DEFAULT_BRANCH: &'static str = "main";

/// The manifest of a new package: its name, version `1.0.0`, its named
/// addresses and its framework dependency.
pub struct MovePackageManifest {
    pub name: String,
    pub version: String,
    pub addresses: Vec<(String, Option<AccountAddress>)>,
    pub dependencies: Vec<(String, Dependency)>,
}

/// The texts of a dependency: local path, git repository, revision and
/// subdirectory.
pub open spec fn dependency_view(d: Dependency) -> (
    Option<Seq<char>>,
    Option<Seq<char>>,
    Option<Seq<char>>,
    Option<Seq<char>>,
) {
    (opt_chars(d.local), opt_chars(d.git), opt_chars(d.rev), opt_chars(d.subdir))
}

/// The text of an optional string.
pub open spec fn opt_chars(s: Option<String>) -> Option<Seq<char>> {
    match s {
        Some(t) => Some(t@),
        None => None,
    }
}

/// The framework dependency of a new package: the local directory's path
/// when one is given, else the framework's git repository and directory at
/// the given revision, `main` by default.
pub open spec fn spec_framework_dependency(args: FrameworkPackageArgs) -> (
    Option<Seq<char>>,
    Option<Seq<char>>,
    Option<Seq<char>>,
    Option<Seq<char>>,
) {
    match args.framework_local_dir {
        Some(p) => (Some(p@), None, None, None),
        None => (
            None,
            Some(APTOS_GIT_PATH@),
            Some(
                match args.framework_git_rev {
                    Some(x) => x@,
                    None => DEFAULT_BRANCH@,
                },
            ),
            Some(SUBDIR_PATH@),
        ),
    }
}

impl FrameworkPackageArgs {
    /// The framework dependency: the local directory when one is given,
    /// else the framework's git repository at the given revision (`main`
    /// by default).
    pub fn framework_dependency(&self) -> (r: Dependency)
        ensures
            dependency_view(r) == spec_framework_dependency(*self),
    {
        match &self.framework_local_dir {
            Some(p) => Dependency {
                local: Some(String::from_str(p.as_str())),
                git: None,
                rev: None,
                subdir: None,
            },
            None => {
                let rev = match &self.framework_git_rev {
                    Some(x) => String::from_str(x.as_str()),
                    None => String::from_str(DEFAULT_BRANCH),
                };
                Dependency {
                    local: None,
                    git: Some(String::from_str(APTOS_GIT_PATH)),
                    rev: Some(rev),
                    subdir: Some(String::from_str(SUBDIR_PATH)),
                }
            },
        }
    }

    /// The manifest of a new package named `name`.
    pub fn manifest(&self, name: &str, addresses: Vec<(String, Option<AccountAddress>)>) -> (r:
        MovePackageManifest)
        ensures
            r.name@ == name@,
            r.version@ == "1.0.0"@,
            r.addresses == addresses,
            r.dependencies@.len() == 1,
            r.dependencies@[0].0@ == APTOS_FRAMEWORK@,
            dependency_view(r.dependencies@[0].1) == spec_framework_dependency(*self),
    {
        let dep = self.framework_dependency();
        let mut dependencies: Vec<(String, Dependency)> = Vec::new();
        dependencies.push((String::from_str(APTOS_FRAMEWORK), dep));
        MovePackageManifest {
            name: String::from_str(name),
            version: String::from_str("1.0.0"),
            addresses,
            dependencies,
        }
    }
}

/// Typed arguments of an entry function or script.
pub struct ArgWithTypeVec {
    pub args: Vec<ArgWithType>,
}

impl ArgWithTypeVec {
    /// The arguments' encoded bytes, in order.
    pub fn into_bytes(self) -> (r: Vec<Vec<u8>>)
        ensures
            r@.len() == self.args@.len(),
            forall|i: int| 0 <= i < r@.len() ==> (#[trigger] r@[i])@ == self.args@[i].arg@,
    {
        let ghost orig = self.args@;
        let mut args = self.args;
        let mut out: Vec<Vec<u8>> = Vec::new();
        let mut i: usize = 0;
        while i < args.len()
            invariant
                args@.len() == orig.len(),
                i <= args@.len(),
                out@.len() == i,
                forall|j: int| 0 <= j < i ==> (#[trigger] out@[j])@ == orig[j].arg@,
                forall|j: int| i <= j < args@.len() ==> (#[trigger] args@[j]) == orig[j],
            decreases args@.len() - i,
        {
            let bytes = args[i].arg.clone();
            out.push(bytes);
            i = i + 1;
        }
        out
    }
}

} // verus!
