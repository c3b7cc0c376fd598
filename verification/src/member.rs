//! Module-member identifiers written `<address>::<module>::<member>`.

use vstd::prelude::*;
use crate::address::{AccountAddress, ProfileBook, load_account_arg, spec_load_account_arg, account_arg_error};
use crate::errors::CliError;
use crate::text::concat_text;

verus! {

/// `c` may appear in a Move identifier.
pub open spec fn is_identifier_char(c: char) -> bool {
    c == '_' || ('a' <= c && c <= 'z') || ('A' <= c && c <= 'Z') || ('0' <= c && c <= '9')
}

/// `c` is an ASCII letter.
pub open spec fn is_ascii_letter(c: char) -> bool {
    ('a' <= c && c <= 'z') || ('A' <= c && c <= 'Z')
}

/// `s` is a valid Move identifier: `<SELF>`, or a letter followed by
/// identifier characters, or `_` followed by at least one identifier
/// character.
pub open spec fn spec_is_valid_identifier(s: Seq<char>) -> bool {
    ||| s == "<SELF>"@
    ||| (s.len() > 0 && (is_ascii_letter(s[0]) || (s[0] == '_' && s.len() > 1)) && forall|i: int|
        1 <= i < s.len() ==> is_identifier_char(#[trigger] s[i]))
}

/// Calls `move_core_types::identifier::Identifier::is_valid`. Claimed: the
/// rule of `spec_is_valid_identifier`. (The crate tests bytes; a non-ASCII
/// character is made of bytes that are not identifier characters, so the
/// character-level rule gives the same answer.)
#[verifier::external_body]
pub(crate) fn identifier_is_valid(s: &str) -> (r: bool)
    ensures
        r == spec_is_valid_identifier(s@),
{
    move_core_types::identifier::Identifier::is_valid(s)
}

/// A module: the account it is published under, and its name.
pub struct ModuleId {
    pub address: AccountAddress,
    pub name: String,
}

/// Identifier of a module member (function or struct).
pub struct MemberId {
    pub module_id: ModuleId,
    pub member_id: String,
}

/// `s` has `::` at index `i`.
pub open spec fn sep_at(s: Seq<char>, i: int) -> bool {
    0 <= i && i + 1 < s.len() && s[i] == ':' && s[i + 1] == ':'
}

/// The index of the first `::` in `s`, if there is one.
pub open spec fn first_sep(s: Seq<char>) -> Option<int> {
    if exists|i: int| sep_at(s, i) && forall|j: int| 0 <= j < i ==> !sep_at(s, j) {
        Some(choose|i: int| sep_at(s, i) && forall|j: int| 0 <= j < i ==> !sep_at(s, j))
    } else {
        None
    }
}

/// `s` split at each `::`, left to right, as `str::split` does.
pub open spec fn split_sep(s: Seq<char>) -> Seq<Seq<char>>
    decreases s.len(),
{
    match first_sep(s) {
        None => seq![s],
        Some(i) => if 0 <= i && i + 2 <= s.len() {
            seq![s.subrange(0, i)] + split_sep(s.subrange(i + 2, s.len() as int))
        } else {
            seq![s]
        },
    }
}

/// `s` split at each `::`, without a last empty piece, as
/// `str::split_terminator` does.
pub open spec fn split_terminator_sep(s: Seq<char>) -> Seq<Seq<char>> {
    let p = split_sep(s);
    if p.len() > 0 && p.last().len() == 0 {
        p.drop_last()
    } else {
        p
    }
}

/// Why a member id could not be read.
pub enum MemberIdFault {
    /// Not three `::`-separated parts.
    NotThreeParts,
    /// The address part does not resolve to an account.
    Address(crate::address::AccountArgFault),
    /// The module name is not an identifier.
    ModuleName,
    /// The member name is not an identifier.
    MemberName,
}

/// The member id that `s` stands for: address, module and member name.
pub open spec fn spec_parse_member_id(s: Seq<char>, book: ProfileBook) -> Result<
    (Seq<u8>, Seq<char>, Seq<char>),
    MemberIdFault,
> {
    let ids = split_terminator_sep(s);
    if ids.len() != 3 {
        Err(MemberIdFault::NotThreeParts)
    } else {
        match spec_load_account_arg(ids[0], book) {
            Err(f) => Err(MemberIdFault::Address(f)),
            Ok(a) => if !spec_is_valid_identifier(ids[1]) {
                Err(MemberIdFault::ModuleName)
            } else if !spec_is_valid_identifier(ids[2]) {
                Err(MemberIdFault::MemberName)
            } else {
                Ok((a, ids[1], ids[2]))
            },
        }
    }
}

/// The message of a refused identifier.
pub open spec fn invalid_identifier_message(name: Seq<char>) -> Seq<char> {
    "Invalid identifier '"@ + name + "'"@
}

/// The message of a refused identifier.
fn invalid_identifier(name: &str) -> (r: String)
    ensures
        r@ == invalid_identifier_message(name@),
{
    let head = concat_text("Invalid identifier '", name);
    concat_text(head.as_str(), "'")
}

/// `e` is the error the CLI reports for `fault` on the text `s`.
pub open spec fn member_id_error(e: CliError, s: Seq<char>, book: ProfileBook, fault: MemberIdFault) -> bool {
    match fault {
        MemberIdFault::NotThreeParts => e matches CliError::CommandArgumentError(m) && m@
            == "FunctionId is not well formed.  Must be of the form <address>::<module>::<function>"@,
        MemberIdFault::Address(f) => account_arg_error(e, f, split_terminator_sep(s)[0], book),
        MemberIdFault::ModuleName => e matches CliError::UnableToParse(l, m) && l@ == "Module Name"@
            && m@ == invalid_identifier_message(split_terminator_sep(s)[1]),
        MemberIdFault::MemberName => e matches CliError::UnableToParse(l, m) && l@ == "Member Name"@
            && m@ == invalid_identifier_message(split_terminator_sep(s)[2]),
    }
}

/// Finds the first `::` in `cs` at or after `from`.
fn find_sep(cs: &Vec<char>, from: usize) -> (r: Option<usize>)
    requires
        from <= cs@.len(),
    ensures
        match r {
            Some(i) => from <= i && sep_at(cs@, i as int) && forall|j: int|
                from <= j < i ==> !sep_at(cs@, j),
            None => forall|j: int| from <= j ==> !sep_at(cs@, j),
        },
{
    let n = cs.len();
    let mut i = from;
    while i < n && i + 1 < n
        invariant
            n == cs@.len(),
            from <= i <= n,
            forall|j: int| from <= j < i ==> !sep_at(cs@, j),
        decreases n - i,
    {
        if cs[i] == ':' && cs[i + 1] == ':' {
            return Some(i);
        }
        i = i + 1;
    }
    None
}

/// Where the first `::` of a suffix of `s` stands, from what is known of
/// `s` itself.
proof fn lemma_first_sep_shift(s: Seq<char>, from: int, i: Option<int>)
    requires
        0 <= from <= s.len(),
        match i {
            Some(k) => from <= k && sep_at(s, k) && forall|j: int| from <= j < k ==> !sep_at(s, j),
            None => forall|j: int| from <= j ==> !sep_at(s, j),
        },
    ensures
        first_sep(s.subrange(from, s.len() as int)) == match i {
            Some(k) => Some(k - from),
            None => None::<int>,
        },
{
    let t = s.subrange(from, s.len() as int);
    assert forall|j: int| 0 <= j implies #[trigger] sep_at(t, j) == sep_at(s, j + from) by {
        if j + 1 < t.len() {
            assert(t[j] == s[j + from]);
            assert(t[j + 1] == s[j + 1 + from]);
        }
    }
    match i {
        Some(k) => {
            let w = k - from;
            assert(sep_at(t, w));
            assert forall|j: int| 0 <= j < w implies !sep_at(t, j) by {
                assert(sep_at(t, j) == sep_at(s, j + from));
            }
            let c = choose|c: int| sep_at(t, c) && forall|j: int| 0 <= j < c ==> !sep_at(t, j);
            assert(sep_at(t, c));
            if c < w {
                assert(sep_at(t, c) == sep_at(s, c + from));
            } else if c > w {
                assert(!sep_at(t, w));
            }
        },
        None => {
            if exists|c: int| sep_at(t, c) && forall|j: int| 0 <= j < c ==> !sep_at(t, j) {
                let c = choose|c: int| sep_at(t, c) && forall|j: int| 0 <= j < c ==> !sep_at(t, j);
                assert(sep_at(t, c) == sep_at(s, c + from));
            }
        },
    }
}

/// The pieces of `s` between `::` separators, as character ranges.
fn split_ranges(cs: &Vec<char>) -> (r: Vec<(usize, usize)>)
    ensures
        r@.len() == split_sep(cs@).len(),
        forall|k: int|
            0 <= k < r@.len() ==> (#[trigger] r@[k]).0 <= r@[k].1 <= cs@.len() && cs@.subrange(
                r@[k].0 as int,
                r@[k].1 as int,
            ) == split_sep(cs@)[k],
{
    let n = cs.len();
    let mut out: Vec<(usize, usize)> = Vec::new();
    let mut start: usize = 0;
    let ghost mut pieces: Seq<Seq<char>> = Seq::empty();
    assert(cs@.subrange(0, n as int) =~= cs@);
    loop
        invariant_except_break
            n == cs@.len(),
            start <= n,
            split_sep(cs@) == pieces + split_sep(cs@.subrange(start as int, n as int)),
            out@.len() == pieces.len(),
            forall|k: int|
                0 <= k < out@.len() ==> (#[trigger] out@[k]).0 <= out@[k].1 <= n
                    && cs@.subrange(out@[k].0 as int, out@[k].1 as int) == pieces[k],
        ensures
            n == cs@.len(),
            split_sep(cs@) == pieces,
            out@.len() == pieces.len(),
            forall|k: int|
                0 <= k < out@.len() ==> (#[trigger] out@[k]).0 <= out@[k].1 <= n
                    && cs@.subrange(out@[k].0 as int, out@[k].1 as int) == pieces[k],
        decreases n - start,
    {
        let found = find_sep(cs, start);
        let ghost rest = cs@.subrange(start as int, n as int);
        proof {
            lemma_first_sep_shift(cs@, start as int, match found {
                Some(i) => Some(i as int),
                None => None,
            });
        }
        match found {
            Some(i) => {
                proof {
                    assert(rest.subrange(0, i - start) =~= cs@.subrange(start as int, i as int));
                    assert(rest.subrange(i - start + 2, rest.len() as int) =~= cs@.subrange(
                        i + 2,
                        n as int,
                    ));
                    assert(split_sep(rest) == seq![cs@.subrange(start as int, i as int)]
                        + split_sep(cs@.subrange(i + 2, n as int)));
                    pieces = pieces.push(cs@.subrange(start as int, i as int));
                    assert(split_sep(cs@) =~= pieces + split_sep(cs@.subrange(i + 2, n as int)));
                }
                out.push((start, i));
                start = i + 2;
            },
            None => {
                proof {
                    assert(split_sep(rest) == seq![rest]);
                    pieces = pieces.push(rest);
                    assert(split_sep(cs@) =~= pieces);
                }
                out.push((start, n));
                break;
            },
        }
    }
    out
}

/// Reads `<address>::<module>::<member>`; the address may also name a
/// profile of the CLI config.
pub fn parse_member_id(function_id: &str, book: &ProfileBook) -> (r: Result<MemberId, CliError>)
    ensures
        match (r, spec_parse_member_id(function_id@, *book)) {
            (Ok(m), Ok((a, module, member))) => m.module_id.address.0@ == a && m.module_id.name@
                == module && m.member_id@ == member,
            (Err(e), Err(f)) => member_id_error(e, function_id@, *book, f),
            _ => false,
        },
{
    let cs = crate::text::chars_of(function_id);
    let ranges = split_ranges(&cs);
    let mut count = ranges.len();
    if count > 0 && ranges[count - 1].0 == ranges[count - 1].1 {
        count = count - 1;
    }
    proof {
        let p = split_sep(cs@);
        if p.len() > 0 {
            assert(p.last() == cs@.subrange(ranges@[p.len() - 1].0 as int, ranges@[p.len() - 1].1 as int));
        }
    }
    if count != 3 {
        return Err(
            CliError::CommandArgumentError(
                String::from_str(
                    "FunctionId is not well formed.  Must be of the form <address>::<module>::<function>",
                ),
            ),
        );
    }
    let ghost ids = split_terminator_sep(function_id@);
    assert(ids[0] == split_sep(cs@)[0]);
    assert(ids[1] == split_sep(cs@)[1]);
    assert(ids[2] == split_sep(cs@)[2]);
    let a_text = function_id.substring_char(ranges[0].0, ranges[0].1);
    let m_text = function_id.substring_char(ranges[1].0, ranges[1].1);
    let f_text = function_id.substring_char(ranges[2].0, ranges[2].1);
    let address = load_account_arg(a_text, book)?;
    if !identifier_is_valid(m_text) {
        return Err(CliError::UnableToParse("Module Name", invalid_identifier(m_text)));
    }
    if !identifier_is_valid(f_text) {
        return Err(CliError::UnableToParse("Member Name", invalid_identifier(f_text)));
    }
    Ok(
        MemberId {
            module_id: ModuleId { address, name: String::from_str(m_text) },
            member_id: String::from_str(f_text),
        },
    )
}

} // verus!
