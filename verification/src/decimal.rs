//! Parsing unsigned decimal integers the way `str::parse` does for the
//! unsigned integer types: an optional `+`, then one or more ASCII digits,
//! with a value no larger than the type's maximum.

use vstd::prelude::*;
use crate::text::chars_of;

verus! {

/// `c` is an ASCII decimal digit.
pub open spec fn is_digit(c: char) -> bool {
    '0' <= c && c <= '9'
}

/// The value of the decimal digit `c`.
pub open spec fn digit_value(c: char) -> nat {
    ((c as u32) - ('0' as u32)) as nat
}

/// Every character of `s` is a decimal digit.
pub open spec fn all_digits(s: Seq<char>) -> bool {
    forall|i: int| 0 <= i < s.len() ==> is_digit(#[trigger] s[i])
}

/// The number the decimal digits `s` stand for, most significant first.
pub open spec fn decimal_value(s: Seq<char>) -> nat
    decreases s.len(),
{
    if s.len() == 0 {
        0
    } else {
        decimal_value(s.drop_last()) * 10 + digit_value(s.last())
    }
}

/// The digits of `s`, after an optional leading `+`.
pub open spec fn unsigned_digits(s: Seq<char>) -> Seq<char> {
    if s.len() > 0 && s[0] == '+' {
        s.drop_first()
    } else {
        s
    }
}

/// The value of `s` read as an unsigned decimal integer no larger than
/// `max`, or `None` when `s` is not one.
pub open spec fn spec_parse_unsigned(s: Seq<char>, max: nat) -> Option<nat> {
    let d = unsigned_digits(s);
    if d.len() > 0 && all_digits(d) && decimal_value(d) <= max {
        Some(decimal_value(d))
    } else {
        None
    }
}

/// Appending digits never makes the value smaller.
pub proof fn lemma_decimal_prefix_le(s: Seq<char>, k: int)
    requires
        0 <= k <= s.len(),
        all_digits(s),
    ensures
        decimal_value(s.subrange(0, k)) <= decimal_value(s),
    decreases s.len() - k,
{
    if k < s.len() {
        let t = s.subrange(0, k + 1);
        assert(t.drop_last() =~= s.subrange(0, k));
        lemma_decimal_prefix_le(s, k + 1);
    } else {
        assert(s.subrange(0, k) =~= s);
    }
}

/// The digits `d` up to index `k` are digits whose value is no larger than
/// `max`.
pub open spec fn prefix_fits(d: Seq<char>, k: int, max: nat) -> bool {
    all_digits(d.subrange(0, k + 1)) && decimal_value(d.subrange(0, k + 1)) <= max
}

/// `k` is the first index at which reading the digits `d` fails: a
/// character that is not a digit, or a value larger than `max`.
pub open spec fn first_failure(d: Seq<char>, k: int, max: nat) -> bool {
    &&& 0 <= k < d.len()
    &&& !prefix_fits(d, k, max)
    &&& forall|j: int| 0 <= j < k ==> #[trigger] prefix_fits(d, j, max)
}

/// The message `str::parse` gives when `s` is not an unsigned integer no
/// larger than `max`: for empty text, for a character that is not a digit
/// (the first failure when reading left to right), or for a value too
/// large.
pub open spec fn parse_error_message(s: Seq<char>, max: nat) -> Seq<char> {
    let d = unsigned_digits(s);
    if s.len() == 0 {
        "cannot parse integer from empty string"@
    } else if d.len() == 0 {
        "invalid digit found in string"@
    } else {
        let k = choose|k: int| first_failure(d, k, max);
        if !is_digit(d[k]) {
            "invalid digit found in string"@
        } else {
            "number too large to fit in target type"@
        }
    }
}

/// Parses `s` as an unsigned decimal integer no larger than `max`. The
/// error carries the message `str::parse` gives for the same failure.
pub fn parse_unsigned(s: &str, max: u128) -> (r: Result<u128, String>)
    ensures
        r is Ok <==> spec_parse_unsigned(s@, max as nat) is Some,
        r matches Ok(v) ==> spec_parse_unsigned(s@, max as nat) == Some(v as nat),
        r matches Err(m) ==> m@ == parse_error_message(s@, max as nat),
{
    let cs = chars_of(s);
    let n = cs.len();
    if n == 0 {
        return Err(String::from_str("cannot parse integer from empty string"));
    }
    let start: usize = if cs[0] == '+' {
        1
    } else {
        0
    };
    if start == 1 && n == 1 {
        return Err(String::from_str("invalid digit found in string"));
    }
    let ghost d = unsigned_digits(s@);
    assert(d =~= cs@.subrange(start as int, n as int));
    let mut result: u128 = 0;
    let mut i: usize = start;
    while i < n
        invariant
            cs@ == s@,
            n == cs@.len(),
            start <= i <= n,
            start < n,
            d == cs@.subrange(start as int, n as int),
            d == unsigned_digits(s@),
            all_digits(cs@.subrange(start as int, i as int)),
            result as nat == decimal_value(cs@.subrange(start as int, i as int)),
            result <= max,
            forall|j: int| 0 <= j < i - start ==> #[trigger] prefix_fits(d, j, max as nat),
        decreases n - i,
    {
        let c = cs[i];
        let ghost pre = cs@.subrange(start as int, i as int);
        let ghost ext = cs@.subrange(start as int, i + 1);
        assert(ext.drop_last() =~= pre);
        assert(ext.last() == c);
        if !('0' <= c && c <= '9') {
            assert(d[(i - start) as int] == c);
            assert(!is_digit(d[(i - start) as int]));
            proof {
                let k = (i - start) as int;
                assert(d.subrange(0, k + 1)[k] == c);
                assert(!prefix_fits(d, k, max as nat));
                lemma_first_failure_unique(d, k, max as nat);
                reveal_strlit("invalid digit found in string");
            }
            return Err(String::from_str("invalid digit found in string"));
        }
        let x: u128 = ((c as u32) - ('0' as u32)) as u128;
        if result > max / 10 {
            assert(result * 10 > max) by (nonlinear_arith)
                requires
                    result > max / 10,
            ;
            proof {
                if all_digits(d) {
                    assert(ext =~= d.subrange(0, (i + 1 - start) as int));
                    lemma_decimal_prefix_le(d, (i + 1 - start) as int);
                }
                let k = (i - start) as int;
                assert(ext =~= d.subrange(0, k + 1));
                assert(decimal_value(ext) == decimal_value(pre) * 10 + digit_value(c));
                assert(!prefix_fits(d, k, max as nat));
                assert(d[k] == c);
                lemma_first_failure_unique(d, k, max as nat);
                reveal_strlit("number too large to fit in target type");
            }
            return Err(String::from_str("number too large to fit in target type"));
        }
        assert(result * 10 <= max) by (nonlinear_arith)
            requires
                result <= max / 10,
        ;
        if x > max - result * 10 {
            proof {
                if all_digits(d) {
                    assert(ext =~= d.subrange(0, (i + 1 - start) as int));
                    lemma_decimal_prefix_le(d, (i + 1 - start) as int);
                }
                let k = (i - start) as int;
                assert(ext =~= d.subrange(0, k + 1));
                assert(!prefix_fits(d, k, max as nat));
                assert(d[k] == c);
                lemma_first_failure_unique(d, k, max as nat);
                reveal_strlit("number too large to fit in target type");
            }
            return Err(String::from_str("number too large to fit in target type"));
        }
        result = result * 10 + x;
        i = i + 1;
        proof {
            let k = (i - 1 - start) as int;
            assert(ext =~= d.subrange(0, k + 1));
            assert(prefix_fits(d, k, max as nat)) by {
                assert forall|j: int| 0 <= j < ext.len() implies is_digit(#[trigger] ext[j]) by {
                    if j < pre.len() {
                        assert(ext[j] == pre[j]);
                    }
                }
            }
        }
        assert(all_digits(cs@.subrange(start as int, i as int))) by {
            assert forall|j: int| 0 <= j < ext.len() implies is_digit(#[trigger] ext[j]) by {
                if j < pre.len() {
                    assert(ext[j] == pre[j]);
                }
            }
        }
    }
    assert(cs@.subrange(start as int, n as int) =~= d);
    Ok(result)
}

/// Where reading fails first is one index only.
pub proof fn lemma_first_failure_unique(d: Seq<char>, k: int, max: nat)
    requires
        first_failure(d, k, max),
    ensures
        (choose|x: int| first_failure(d, x, max)) == k,
{
    let x = choose|x: int| first_failure(d, x, max);
    if x < k {
        assert(prefix_fits(d, x, max));
    } else if k < x {
        assert(prefix_fits(d, k, max));
    }
}

/// Parses `s` as a `bool`: `"true"` or `"false"`, nothing else.
pub fn parse_bool(s: &str) -> (r: Result<bool, String>)
    ensures
        r is Ok <==> (s@ == "true"@ || s@ == "false"@),
        r matches Ok(b) ==> (b <==> s@ == "true"@),
        r matches Err(m) ==> m@ == "provided string was not `true` or `false`"@,
{
    if crate::text::str_eq(s, "true") {
        Ok(true)
    } else if crate::text::str_eq(s, "false") {
        Ok(false)
    } else {
        proof {
            reveal_strlit("provided string was not `true` or `false`");
        }
        Err(String::from_str("provided string was not `true` or `false`"))
    }
}


/// The digit character for `d`, which is below ten.
pub open spec fn digit_char(d: nat) -> char {
    ((('0' as u32) + d) as u32) as char
}

/// The decimal text of `v`, most significant digit first, without leading
/// zeros (as `u64`'s `Display` writes it).
pub open spec fn decimal_text(v: nat) -> Seq<char>
    decreases v,
{
    if v < 10 {
        seq![digit_char(v)]
    } else {
        decimal_text(v / 10).push(digit_char(v % 10))
    }
}

fn digit_str(d: u64) -> (r: &'static str)
    requires
        d < 10,
    ensures
        r@ == seq![digit_char(d as nat)],
{
    proof {
        reveal_strlit("0");
        reveal_strlit("1");
        reveal_strlit("2");
        reveal_strlit("3");
        reveal_strlit("4");
        reveal_strlit("5");
        reveal_strlit("6");
        reveal_strlit("7");
        reveal_strlit("8");
        reveal_strlit("9");
    }
    if d == 0 {
        "0"
    } else if d == 1 {
        "1"
    } else if d == 2 {
        "2"
    } else if d == 3 {
        "3"
    } else if d == 4 {
        "4"
    } else if d == 5 {
        "5"
    } else if d == 6 {
        "6"
    } else if d == 7 {
        "7"
    } else if d == 8 {
        "8"
    } else {
        "9"
    }
}

/// Writes `v` in decimal.
pub fn u64_to_decimal(v: u64) -> (r: String)
    ensures
        r@ == decimal_text(v as nat),
    decreases v,
{
    if v < 10 {
        String::from_str(digit_str(v))
    } else {
        let mut head = u64_to_decimal(v / 10);
        head.append(digit_str(v % 10));
        head
    }
}

proof fn lemma_digit_char(d: nat)
    requires
        d < 10,
    ensures
        is_digit(digit_char(d)),
        digit_value(digit_char(d)) == d,
{
    let x: u32 = (('0' as u32) + d) as u32;
    assert(48 <= x <= 57);
    assert((x as char) as u32 == x);
}

/// Decimal text is digits only, never empty, and reads back as the number
/// it was written from.
pub proof fn lemma_decimal_text_value(v: nat)
    ensures
        decimal_text(v).len() > 0,
        all_digits(decimal_text(v)),
        decimal_value(decimal_text(v)) == v,
    decreases v,
{
    if v < 10 {
        lemma_digit_char(v);
        let t = decimal_text(v);
        assert(t.drop_last() =~= Seq::<char>::empty());
        assert(decimal_value(t.drop_last()) == 0);
        assert(t.last() == digit_char(v));
    } else {
        lemma_digit_char(v % 10);
        lemma_decimal_text_value(v / 10);
        let t = decimal_text(v);
        assert(t.drop_last() =~= decimal_text(v / 10));
        assert(t.last() == digit_char(v % 10));
        assert(decimal_value(t) == decimal_value(t.drop_last()) * 10 + digit_value(t.last()));
        assert((v / 10) * 10 + v % 10 == v);
        assert forall|i: int| 0 <= i < t.len() implies is_digit(#[trigger] t[i]) by {
            if i < t.len() - 1 {
                assert(t[i] == decimal_text(v / 10)[i]);
            }
        }
    }
}

/// A number written in decimal and read back as an unsigned integer of a
/// type that holds it gives the number again.
pub proof fn lemma_format_parse_roundtrip(v: nat, max: nat)
    requires
        v <= max,
    ensures
        spec_parse_unsigned(decimal_text(v), max) == Some(v),
{
    lemma_decimal_text_value(v);
    let t = decimal_text(v);
    assert(is_digit(t[0]));
}

} // verus!
