//! 32-byte account addresses: parsing from hexadecimal text, and resolving
//! an account argument that may instead name a profile of the CLI config.

use vstd::prelude::*;
use crate::errors::CliError;
use crate::hex_codec::{spec_hex_decode, hex_decode};
use crate::text::concat_text;

verus! {

/// An account address: 32 bytes.
#[derive(Clone, Copy, Debug)]
pub struct AccountAddress(pub [u8; 32]);

/// The error of a failed address parse.
#[derive(Clone, Copy, Debug)]
pub struct AccountAddressParseError;

/// `n` ASCII zeros.
pub open spec fn zeros(n: nat) -> Seq<char> {
    Seq::new(n, |i: int| '0')
}

/// The address bytes that exactly 64 hexadecimal digits `s` stand for.
pub open spec fn spec_address_from_hex(s: Seq<char>) -> Option<Seq<u8>> {
    match spec_hex_decode(s) {
        Some(b) => if b.len() == 32 {
            Some(b)
        } else {
            None
        },
        None => None,
    }
}

/// The address bytes of a `0x` literal: `0x` followed by at most 64
/// hexadecimal digits, left-padded with zeros to 64.
pub open spec fn spec_address_from_hex_literal(s: Seq<char>) -> Option<Seq<u8>> {
    if s.len() >= 2 && s[0] == '0' && s[1] == 'x' {
        let h = s.subrange(2, s.len() as int);
        if h.len() < 64 {
            spec_address_from_hex(zeros((64 - h.len()) as nat) + h)
        } else {
            spec_address_from_hex(h)
        }
    } else {
        None
    }
}

/// The address that `AccountAddress::from_str` reads from `s`: a `0x`
/// literal, or else exactly 64 hexadecimal digits.
pub open spec fn spec_address_from_str(s: Seq<char>) -> Option<Seq<u8>> {
    match spec_address_from_hex_literal(s) {
        Some(b) => Some(b),
        None => spec_address_from_hex(s),
    }
}

/// Whether `s` begins with `0x`.
pub fn starts_with_0x(s: &str) -> (r: bool)
    ensures
        r == (s@.len() >= 2 && s@[0] == '0' && s@[1] == 'x'),
{
    let n = s.unicode_len();
    n >= 2 && s.get_char(0) == '0' && s.get_char(1) == 'x'
}

impl AccountAddress {
    /// Reads exactly 64 hexadecimal digits.
    pub fn from_hex(s: &str) -> (r: Result<AccountAddress, AccountAddressParseError>)
        ensures
            r is Ok <==> spec_address_from_hex(s@) is Some,
            r matches Ok(a) ==> spec_address_from_hex(s@) == Some(a.0@),
    {
        match hex_decode(s) {
            Ok(v) => {
                if v.len() != 32 {
                    return Err(AccountAddressParseError);
                }
                let mut a = [0u8; 32];
                let mut i: usize = 0;
                while i < 32
                    invariant
                        v@.len() == 32,
                        i <= 32,
                        forall|j: int| 0 <= j < i ==> a@[j] == v@[j],
                    decreases 32 - i,
                {
                    a[i] = v[i];
                    i = i + 1;
                }
                assert(a@ =~= v@);
                Ok(AccountAddress(a))
            },
            Err(_) => Err(AccountAddressParseError),
        }
    }

    /// Reads a `0x` literal of at most 64 hexadecimal digits.
    pub fn from_hex_literal(literal: &str) -> (r: Result<
        AccountAddress,
        AccountAddressParseError,
    >)
        ensures
            r is Ok <==> spec_address_from_hex_literal(literal@) is Some,
            r matches Ok(a) ==> spec_address_from_hex_literal(literal@) == Some(a.0@),
    {
        if !starts_with_0x(literal) {
            return Err(AccountAddressParseError);
        }
        let n = literal.unicode_len();
        let hex_len = n - 2;
        let rest = literal.substring_char(2, n);
        assert(rest@ == literal@.subrange(2, literal@.len() as int));
        if hex_len < 64 {
            let mut pad = String::new();
            let mut i: usize = 0;
            while i < 64 - hex_len
                invariant
                    hex_len < 64,
                    i <= 64 - hex_len,
                    pad@ == zeros(i as nat),
                decreases 64 - hex_len - i,
            {
                proof {
                    reveal_strlit("0");
                }
                pad.append("0");
                i = i + 1;
                assert(pad@ =~= zeros(i as nat));
            }
            let padded = concat_text(pad.as_str(), rest);
            AccountAddress::from_hex(padded.as_str())
        } else {
            AccountAddress::from_hex(rest)
        }
    }

    /// Reads a `0x` literal, or else exactly 64 hexadecimal digits.
    pub fn from_str(s: &str) -> (r: Result<AccountAddress, AccountAddressParseError>)
        ensures
            r is Ok <==> spec_address_from_str(s@) is Some,
            r matches Ok(a) ==> spec_address_from_str(s@) == Some(a.0@),
    {
        match AccountAddress::from_hex_literal(s) {
            Ok(a) => Ok(a),
            Err(_) => AccountAddress::from_hex(s),
        }
    }
}

/// What an account lookup needs of one profile of the CLI config: its
/// name, its account, and the address derived from its private key.
pub struct ProfileAccount {
    pub name: String,
    pub account: Option<AccountAddress>,
    pub key_address: Option<AccountAddress>,
}

/// The profiles of the CLI config, as loaded; `None` when no config was
/// found, with `missing` naming the config file that was looked for.
pub struct ProfileBook {
    pub profiles: Option<Vec<ProfileAccount>>,
    pub missing: String,
}

/// `i` is the first index of a profile named `name` in `ps`.
pub open spec fn is_first_named(ps: Seq<ProfileAccount>, name: Seq<char>, i: int) -> bool {
    &&& 0 <= i < ps.len()
    &&& ps[i].name@ == name
    &&& forall|j: int| 0 <= j < i ==> (#[trigger] ps[j]).name@ != name
}

/// The index of the first profile named `name` in `ps`, if there is one.
pub open spec fn profile_index(ps: Seq<ProfileAccount>, name: Seq<char>) -> Option<int> {
    if exists|i: int| is_first_named(ps, name, i) {
        Some(choose|i: int| is_first_named(ps, name, i))
    } else {
        None
    }
}

/// There is at most one first index of a name.
pub proof fn lemma_first_named_unique(ps: Seq<ProfileAccount>, name: Seq<char>, i: int, k: int)
    requires
        is_first_named(ps, name, i),
        is_first_named(ps, name, k),
    ensures
        i == k,
{
    if i < k {
        assert(ps[i].name@ == name);
    } else if k < i {
        assert(ps[k].name@ == name);
    }
}

/// When no profile carries `name`, the lookup finds none.
pub proof fn lemma_no_profile(ps: Seq<ProfileAccount>, name: Seq<char>)
    requires
        forall|j: int| 0 <= j < ps.len() ==> (#[trigger] ps[j]).name@ != name,
    ensures
        profile_index(ps, name) is None,
{
    if exists|i: int| is_first_named(ps, name, i) {
        let i = choose|i: int| is_first_named(ps, name, i);
        assert(ps[i].name@ == name);
    }
}

/// Why an account argument could not be resolved.
pub enum AccountArgFault {
    /// A `0x` literal that is not a valid address.
    BadLiteral,
    /// No config to look a profile up in.
    ConfigMissing,
    /// The config holds no profile of that name.
    ProfileMissing,
    /// The profile holds neither an account nor a private key.
    NoAccount,
}

/// The address an account argument resolves to, in the order the CLI
/// tries: a `0x` literal; 64 hexadecimal digits; a profile's account; the
/// address of a profile's private key.
pub open spec fn spec_load_account_arg(s: Seq<char>, book: ProfileBook) -> Result<
    Seq<u8>,
    AccountArgFault,
> {
    if s.len() >= 2 && s[0] == '0' && s[1] == 'x' {
        match spec_address_from_hex_literal(s) {
            Some(b) => Ok(b),
            None => Err(AccountArgFault::BadLiteral),
        }
    } else if spec_address_from_str(s) is Some {
        Ok(spec_address_from_str(s)->0)
    } else {
        match book.profiles {
            None => Err(AccountArgFault::ConfigMissing),
            Some(ps) => match profile_index(ps@, s) {
                None => Err(AccountArgFault::ProfileMissing),
                Some(i) => match (ps@[i].account, ps@[i].key_address) {
                    (Some(a), _) => Ok(a.0@),
                    (None, Some(k)) => Ok(k.0@),
                    (None, None) => Err(AccountArgFault::NoAccount),
                },
            },
        }
    }
}

/// `e` is the error the CLI reports for `fault` on argument `s`.
pub open spec fn account_arg_error(e: CliError, fault: AccountArgFault, s: Seq<char>, book: ProfileBook) -> bool {
    match fault {
        AccountArgFault::BadLiteral => e matches CliError::CommandArgumentError(m) && m@
            == "Failed to parse AccountAddress Unable to parse AccountAddress (must be hex string of length 32)"@,
        AccountArgFault::ConfigMissing => e matches CliError::ConfigNotFoundError(m) && m@
            == book.missing@,
        AccountArgFault::ProfileMissing => e matches CliError::CommandArgumentError(m) && m@
            == "Profile "@ + s + " not found"@,
        AccountArgFault::NoAccount => e matches CliError::CommandArgumentError(m) && m@
            == "'--account' or '--profile' after using movement init must be provided"@,
    }
}

/// Loads an account argument, which may be an address or the name of a
/// profile whose account (or private key) gives the address.
#[verifier::loop_isolation(false)]
pub fn load_account_arg(s: &str, book: &ProfileBook) -> (r: Result<AccountAddress, CliError>)
    ensures
        match (r, spec_load_account_arg(s@, *book)) {
            (Ok(a), Ok(b)) => a.0@ == b,
            (Err(e), Err(f)) => account_arg_error(e, f, s@, *book),
            _ => false,
        },
{
    if starts_with_0x(s) {
        return match AccountAddress::from_hex_literal(s) {
            Ok(a) => Ok(a),
            Err(_) => Err(
                CliError::CommandArgumentError(
                    String::from_str(
                        "Failed to parse AccountAddress Unable to parse AccountAddress (must be hex string of length 32)",
                    ),
                ),
            ),
        };
    }
    if let Ok(a) = AccountAddress::from_str(s) {
        return Ok(a);
    }
    match &book.profiles {
        None => Err(CliError::ConfigNotFoundError(book.missing.clone())),
        Some(ps) => {
            let mut i: usize = 0;
            while i < ps.len()
                invariant
                    i <= ps@.len(),
                    forall|j: int| 0 <= j < i ==> (#[trigger] ps@[j]).name@ != s@,
                decreases ps.len() - i,
            {
                if crate::text::str_eq(ps[i].name.as_str(), s) {
                    proof {
                        assert(is_first_named(ps@, s@, i as int));
                        let k = choose|k: int| is_first_named(ps@, s@, k);
                        lemma_first_named_unique(ps@, s@, i as int, k);
                    }
                    if let Some(a) = ps[i].account {
                        return Ok(a);
                    }
                    if let Some(k) = ps[i].key_address {
                        return Ok(k);
                    }
                    proof {
                        reveal_strlit("'--account' or '--profile' after using movement init must be provided");
                    }
                    return Err(
                        CliError::CommandArgumentError(
                            String::from_str(
                                "'--account' or '--profile' after using movement init must be provided",
                            ),
                        ),
                    );
                }
                i = i + 1;
            }
            proof {
                lemma_no_profile(ps@, s@);
            }
            let m1 = concat_text("Profile ", s);
            let m = concat_text(m1.as_str(), " not found");
            Err(CliError::CommandArgumentError(m))
        },
    }
}

/// An account argument that resolves gives 32 bytes.
pub proof fn lemma_account_arg_len(s: Seq<char>, book: ProfileBook)
    ensures
        spec_load_account_arg(s, book) matches Ok(b) ==> b.len() == 32,
{
    if spec_load_account_arg(s, book) is Ok {
        if !(s.len() >= 2 && s[0] == '0' && s[1] == 'x') && spec_address_from_str(s) is None {
            let ps = book.profiles->0;
            let i = profile_index(ps@, s)->0;
            assert(ps@[i].account matches Some(a) ==> a.0@.len() == 32);
            assert(ps@[i].key_address matches Some(a) ==> a.0@.len() == 32);
        }
    }
}


/// What a Move manifest's account argument resolves to: `_` for none;
/// otherwise an address, in the order the CLI tries: a `0x` literal, 64
/// hexadecimal digits, the address of a profile's private key.
pub open spec fn spec_load_manifest_account_arg(s: Seq<char>, book: ProfileBook) -> Result<
    Option<Seq<u8>>,
    AccountArgFault,
> {
    if s == "_"@ {
        Ok(None)
    } else if s.len() >= 2 && s[0] == '0' && s[1] == 'x' {
        match spec_address_from_hex_literal(s) {
            Some(b) => Ok(Some(b)),
            None => Err(AccountArgFault::BadLiteral),
        }
    } else if spec_address_from_str(s) is Some {
        Ok(Some(spec_address_from_str(s)->0))
    } else {
        match book.profiles {
            None => Err(AccountArgFault::ConfigMissing),
            Some(ps) => match profile_index(ps@, s) {
                None => Err(AccountArgFault::ProfileMissing),
                Some(i) => match ps@[i].key_address {
                    Some(k) => Ok(Some(k.0@)),
                    None => Err(AccountArgFault::NoAccount),
                },
            },
        }
    }
}

/// `e` is the error the CLI reports for a manifest account argument `s`.
pub open spec fn manifest_arg_error(e: CliError, fault: AccountArgFault, s: Seq<char>, book: ProfileBook) -> bool {
    match fault {
        AccountArgFault::NoAccount => e matches CliError::CommandArgumentError(m) && m@
            == "Invalid Move manifest account address"@,
        _ => account_arg_error(e, fault, s, book),
    }
}

/// Loads a Move manifest's account argument: `_` for none, or an address,
/// which a profile's private key may give.
#[verifier::loop_isolation(false)]
pub fn load_manifest_account_arg(s: &str, book: &ProfileBook) -> (r: Result<
    Option<AccountAddress>,
    CliError,
>)
    ensures
        match (r, spec_load_manifest_account_arg(s@, *book)) {
            (Ok(Some(a)), Ok(Some(b))) => a.0@ == b,
            (Ok(None), Ok(None)) => true,
            (Err(e), Err(f)) => manifest_arg_error(e, f, s@, *book),
            _ => false,
        },
{
    if crate::text::str_eq(s, "_") {
        return Ok(None);
    }
    if starts_with_0x(s) {
        return match AccountAddress::from_hex_literal(s) {
            Ok(a) => Ok(Some(a)),
            Err(_) => Err(
                CliError::CommandArgumentError(
                    String::from_str(
                        "Failed to parse AccountAddress Unable to parse AccountAddress (must be hex string of length 32)",
                    ),
                ),
            ),
        };
    }
    if let Ok(a) = AccountAddress::from_str(s) {
        return Ok(Some(a));
    }
    match &book.profiles {
        None => Err(CliError::ConfigNotFoundError(book.missing.clone())),
        Some(ps) => {
            let mut i: usize = 0;
            while i < ps.len()
                invariant
                    i <= ps@.len(),
                    forall|j: int| 0 <= j < i ==> (#[trigger] ps@[j]).name@ != s@,
                decreases ps.len() - i,
            {
                if crate::text::str_eq(ps[i].name.as_str(), s) {
                    proof {
                        assert(is_first_named(ps@, s@, i as int));
                        let k = choose|k: int| is_first_named(ps@, s@, k);
                        lemma_first_named_unique(ps@, s@, i as int, k);
                    }
                    if let Some(k) = ps[i].key_address {
                        return Ok(Some(k));
                    }
                    proof {
                        reveal_strlit("Invalid Move manifest account address");
                    }
                    return Err(
                        CliError::CommandArgumentError(
                            String::from_str("Invalid Move manifest account address"),
                        ),
                    );
                }
                i = i + 1;
            }
            proof {
                lemma_no_profile(ps@, s@);
            }
            let m1 = concat_text("Profile ", s);
            let m = concat_text(m1.as_str(), " not found");
            Err(CliError::CommandArgumentError(m))
        },
    }
}

} // verus!
