//! The decisions of the `move` commands around building, testing,
//! publishing, downloading and cleaning packages: size limits, upgrade
//! policies, test outcomes, script arguments and what is printed or asked.
//! The compiler, the test runner, the package registry and the file system
//! are the caller's.

use vstd::prelude::*;
use crate::address::AccountAddress;
use crate::arg::{ArgWithType, TransactionArgument, try_into_succeeds, txn_arg_decodes, try_into_error};
use crate::decimal::{decimal_text, u64_to_decimal};
use crate::errors::CliError;
use crate::text::concat_text;

verus! {

/// The largest package, in bytes, that may be published.
pub const MAX_PUBLISH_PACKAGE_SIZE: usize = 60_000;

/// The message refusing a package of `size` bytes.
pub open spec fn package_too_large_text(size: nat) -> Seq<char> {
    "The package is larger than "@ + decimal_text(MAX_PUBLISH_PACKAGE_SIZE as nat) + " bytes ("@
        + decimal_text(size)
        + " bytes)! To lower the size you may want to include less artifacts via `--included-artifacts`. You can also override this check with `--override-size-check"@
}

/// Checks the size of a package to publish: larger than the limit is
/// refused unless the check is overridden.
pub fn check_package_size(size: usize, override_size_check: bool) -> (r: Result<(), CliError>)
    requires
        size <= u64::MAX,
    ensures
        r is Ok <==> (override_size_check || size <= MAX_PUBLISH_PACKAGE_SIZE),
        r matches Err(e) ==> e matches CliError::UnexpectedError(m) && m@ == package_too_large_text(
            size as nat,
        ),
{
    if !override_size_check && size > MAX_PUBLISH_PACKAGE_SIZE {
        let a = concat_text(
            "The package is larger than ",
            u64_to_decimal(MAX_PUBLISH_PACKAGE_SIZE as u64).as_str(),
        );
        let b = concat_text(a.as_str(), " bytes (");
        let c = concat_text(b.as_str(), u64_to_decimal(size as u64).as_str());
        let m = concat_text(
            c.as_str(),
            " bytes)! To lower the size you may want to include less artifacts via `--included-artifacts`. You can also override this check with `--override-size-check",
        );
        return Err(CliError::UnexpectedError(m));
    }
    Ok(())
}

/// The line printed with a package's size.
pub fn package_size_line(size: u64) -> (r: String)
    ensures
        r@ == "package size "@ + decimal_text(size as nat) + " bytes"@,
{
    let a = concat_text("package size ", u64_to_decimal(size).as_str());
    concat_text(a.as_str(), " bytes")
}

/// The account a resource account is derived from: the selected profile's
/// account (`profile_account` is what loading the profile gave, its
/// account if it has one).
pub fn resource_account_origin(profile_account: Result<Option<Option<AccountAddress>>, CliError>) -> (r:
    Result<AccountAddress, CliError>)
    ensures
        match profile_account {
            Err(e) => r == Err::<AccountAddress, CliError>(e),
            Ok(Some(Some(a))) => r == Ok::<AccountAddress, CliError>(a),
            _ => r matches Err(e) && e matches CliError::CommandArgumentError(m) && m@
                == "Please provide an account using --profile or run movement init"@,
        },
{
    match profile_account {
        Err(e) => Err(e),
        Ok(Some(Some(a))) => Ok(a),
        _ => Err(
            CliError::CommandArgumentError(
                String::from_str("Please provide an account using --profile or run movement init"),
            ),
        ),
    }
}

/// The question asked before publishing under a resource account written
/// `address`.
pub fn resource_publish_question(address: &str) -> (r: String)
    ensures
        r@ == "Do you want to publish this package under the resource account's address "@
            + address@ + "?"@,
{
    let a = concat_text(
        "Do you want to publish this package under the resource account's address ",
        address,
    );
    concat_text(a.as_str(), "?")
}

/// The upgrade policy under which a package may change arbitrarily.
pub const UPGRADE_POLICY_ARBITRARY: u8 = 0;

/// Checks that a package of upgrade policy `policy` may be depended on: an
/// arbitrary policy is refused.
pub fn check_dependable(policy: u8) -> (r: Result<(), CliError>)
    ensures
        r is Ok <==> policy != UPGRADE_POLICY_ARBITRARY,
        r matches Err(e) ==> e matches CliError::CommandArgumentError(m) && m@
            == "A package with upgrade policy `arbitrary` cannot be downloaded since it is not safe to depend on such packages."@,
{
    if policy == UPGRADE_POLICY_ARBITRARY {
        return Err(
            CliError::CommandArgumentError(
                String::from_str(
                    "A package with upgrade policy `arbitrary` cannot be downloaded since it is not safe to depend on such packages.",
                ),
            ),
        );
    }
    Ok(())
}

/// The line printed once a package is saved.
pub fn saved_package_line(module_count: u64, path: &str) -> (r: String)
    ensures
        r@ == "Saved package with "@ + decimal_text(module_count as nat) + " module(s) to `"@
            + path@ + "`"@,
{
    let a = concat_text("Saved package with ", u64_to_decimal(module_count).as_str());
    let b = concat_text(a.as_str(), " module(s) to `");
    let c = concat_text(b.as_str(), path);
    concat_text(c.as_str(), "`")
}

/// What the extended checks of the Move model decide: with warnings
/// reported, errors among them stop the tests.
pub fn extended_checks_outcome(warning_count: u64, has_errors: bool) -> (r: Result<(), CliError>)
    ensures
        r is Ok <==> !(warning_count > 0 && has_errors),
        r matches Err(e) ==> e matches CliError::MoveCompilationError(m) && m@
            == "extended checks failed"@,
{
    if warning_count > 0 && has_errors {
        return Err(CliError::MoveCompilationError(String::from_str("extended checks failed")));
    }
    Ok(())
}

/// What the unit tests' result is reported as.
pub fn test_outcome(passed: bool) -> (r: Result<&'static str, CliError>)
    ensures
        passed ==> (r matches Ok(s) && s@ == "Success"@),
        !passed ==> (r matches Err(e) && e is MoveTestError),
{
    if passed {
        Ok("Success")
    } else {
        Err(CliError::MoveTestError)
    }
}

/// The transaction arguments of a script: each argument converted in
/// order; the first that does not convert stops the conversion.
#[verifier::loop_isolation(false)]
pub fn script_args(args: Vec<ArgWithType>) -> (r: Result<Vec<TransactionArgument>, CliError>)
    ensures
        r is Ok <==> forall|i: int|
            0 <= i < args@.len() ==> try_into_succeeds(
                #[trigger] args@[i]._ty,
                args@[i]._vector_depth as nat,
                args@[i].arg@,
            ),
        r matches Ok(v) ==> v@.len() == args@.len() && forall|i: int|
            0 <= i < v@.len() ==> txn_arg_decodes(
                #[trigger] v@[i],
                args@[i]._ty,
                args@[i]._vector_depth as nat,
                args@[i].arg@,
            ),
        r matches Err(e) ==> exists|k: int|
            0 <= k < args@.len() && !try_into_succeeds(
                #[trigger] args@[k]._ty,
                args@[k]._vector_depth as nat,
                args@[k].arg@,
            ) && try_into_error(e, args@[k]._ty, args@[k]._vector_depth as nat) && forall|j: int|
                0 <= j < k ==> try_into_succeeds(
                    #[trigger] args@[j]._ty,
                    args@[j]._vector_depth as nat,
                    args@[j].arg@,
                ),
{
    let ghost orig = args@;
    let n = args.len();
    let mut rest = args;
    let mut out: Vec<TransactionArgument> = Vec::new();
    let mut i: usize = 0;
    while rest.len() > 0
        invariant
            n == orig.len(),
            i + rest@.len() == orig.len(),
            rest@ == orig.subrange(i as int, orig.len() as int),
            out@.len() == i,
            forall|j: int|
                0 <= j < i ==> try_into_succeeds(
                    #[trigger] orig[j]._ty,
                    orig[j]._vector_depth as nat,
                    orig[j].arg@,
                ),
            forall|j: int|
                0 <= j < i ==> txn_arg_decodes(
                    #[trigger] out@[j],
                    orig[j]._ty,
                    orig[j]._vector_depth as nat,
                    orig[j].arg@,
                ),
        decreases rest@.len(),
    {
        let a = rest.remove(0);
        proof {
            assert(a == orig[i as int]);
        }
        match a.try_into() {
            Ok(v) => {
                out.push(v);
                proof {
                    assert(rest@ =~= orig.subrange(i + 1, orig.len() as int));
                }
                i = i + 1;
            },
            Err(e) => {
                proof {
                    let k = i as int;
                    assert(!try_into_succeeds(orig[k]._ty, orig[k]._vector_depth as nat, orig[k].arg@));
                    assert(!(forall|x: int|
                        0 <= x < orig.len() ==> try_into_succeeds(
                            #[trigger] orig[x]._ty,
                            orig[x]._vector_depth as nat,
                            orig[x].arg@,
                        )));
                }
                return Err(e);
            },
        }
    }
    Ok(out)
}

/// `items` joined with `sep` between them.
pub open spec fn joined(items: Seq<Seq<char>>, sep: Seq<char>) -> Seq<char>
    decreases items.len(),
{
    if items.len() == 0 {
        Seq::empty()
    } else if items.len() == 1 {
        items[0]
    } else {
        joined(items.drop_last(), sep) + sep + items.last()
    }
}

/// The texts of `v`.
pub open spec fn texts(v: Seq<String>) -> Seq<Seq<char>> {
    v.map_values(|s: String| s@)
}

/// Joins `items` with `sep` between them.
pub fn join_texts(items: &Vec<String>, sep: &str) -> (r: String)
    ensures
        r@ == joined(texts(items@), sep@),
{
    let mut out = String::new();
    let mut i: usize = 0;
    while i < items.len()
        invariant
            i <= items@.len(),
            out@ == joined(texts(items@.take(i as int)), sep@),
        decreases items@.len() - i,
    {
        proof {
            assert(texts(items@.take(i + 1)).drop_last() =~= texts(items@.take(i as int)));
            assert(texts(items@.take(i + 1)).last() == items@[i as int]@);
        }
        if i == 0 {
            out = String::from_str(items[i].as_str());
        } else {
            let with_sep = concat_text(out.as_str(), sep);
            out = concat_text(with_sep.as_str(), items[i].as_str());
        }
        i = i + 1;
    }
    proof {
        assert(items@.take(items@.len() as int) =~= items@);
    }
    out
}

/// What is printed about a package on chain: its name, upgrade policy and
/// number, source digest and modules.
pub fn package_listing(
    name: &str,
    upgrade_policy: &str,
    upgrade_number: u64,
    source_digest: &str,
    modules: &Vec<String>,
) -> (r: Vec<String>)
    ensures
        r@.len() == 5,
        r@[0]@ == "package "@ + name@,
        r@[1]@ == "  upgrade_policy: "@ + upgrade_policy@,
        r@[2]@ == "  upgrade_number: "@ + decimal_text(upgrade_number as nat),
        r@[3]@ == "  source_digest: "@ + source_digest@,
        r@[4]@ == "  modules: "@ + joined(texts(modules@), ", "@),
{
    let mut out: Vec<String> = Vec::new();
    out.push(concat_text("package ", name));
    out.push(concat_text("  upgrade_policy: ", upgrade_policy));
    out.push(concat_text("  upgrade_number: ", u64_to_decimal(upgrade_number).as_str()));
    out.push(concat_text("  source_digest: ", source_digest));
    out.push(concat_text("  modules: ", join_texts(modules, ", ").as_str()));
    out
}

/// The question asked before deleting the package download cache at the
/// directory written `dir`.
pub fn clean_cache_question(dir: &str) -> (r: String)
    ensures
        r@ == "Do you also want to delete the local package download cache at `"@ + dir@ + "`?"@,
{
    let a = concat_text("Do you also want to delete the local package download cache at `", dir);
    concat_text(a.as_str(), "`?")
}

} // verus!
