//! Character-level string helpers with specifications: equality, prefix
//! tests, Unicode whitespace trimming, lower-casing, and concatenation.

use vstd::prelude::*;

verus! {

/// `c` has the Unicode `White_Space` property.
pub open spec fn is_unicode_whitespace(c: char) -> bool {
    ||| ('\u{9}' <= c && c <= '\u{d}')
    ||| c == ' '
    ||| c == '\u{85}'
    ||| c == '\u{a0}'
    ||| c == '\u{1680}'
    ||| ('\u{2000}' <= c && c <= '\u{200a}')
    ||| c == '\u{2028}'
    ||| c == '\u{2029}'
    ||| c == '\u{202f}'
    ||| c == '\u{205f}'
    ||| c == '\u{3000}'
}

/// Exec version of [`is_unicode_whitespace`].
pub fn char_is_whitespace(c: char) -> (r: bool)
    ensures
        r == is_unicode_whitespace(c),
{
    ('\u{9}' <= c && c <= '\u{d}') || c == ' ' || c == '\u{85}' || c == '\u{a0}' || c
        == '\u{1680}' || ('\u{2000}' <= c && c <= '\u{200a}') || c == '\u{2028}' || c
        == '\u{2029}' || c == '\u{202f}' || c == '\u{205f}' || c == '\u{3000}'
}

/// Number of leading whitespace characters of `s`.
pub open spec fn leading_ws(s: Seq<char>) -> nat
    decreases s.len(),
{
    if s.len() > 0 && is_unicode_whitespace(s[0]) {
        1 + leading_ws(s.drop_first())
    } else {
        0
    }
}

/// Number of trailing whitespace characters of `s`.
pub open spec fn trailing_ws(s: Seq<char>) -> nat
    decreases s.len(),
{
    if s.len() > 0 && is_unicode_whitespace(s.last()) {
        1 + trailing_ws(s.drop_last())
    } else {
        0
    }
}

/// `s` without its leading and trailing Unicode whitespace.
pub open spec fn spec_trim(s: Seq<char>) -> Seq<char> {
    let a = leading_ws(s);
    if a == s.len() {
        Seq::empty()
    } else {
        s.subrange(a as int, s.len() - trailing_ws(s))
    }
}

proof fn lemma_leading_ws(s: Seq<char>, i: nat)
    requires
        i <= s.len(),
        forall|j: int| 0 <= j < i ==> is_unicode_whitespace(#[trigger] s[j]),
    ensures
        leading_ws(s) >= i,
        leading_ws(s) <= s.len(),
        i < s.len() && !is_unicode_whitespace(s[i as int]) ==> leading_ws(s) == i,
        leading_ws(s) < s.len() ==> !is_unicode_whitespace(s[leading_ws(s) as int]),
        forall|j: int| 0 <= j < leading_ws(s) ==> is_unicode_whitespace(#[trigger] s[j]),
    decreases i,
{
    if i > 0 {
        let t = s.drop_first();
        assert forall|j: int| 0 <= j < i - 1 implies is_unicode_whitespace(#[trigger] t[j]) by {
            assert(t[j] == s[j + 1]);
        }
        lemma_leading_ws(t, (i - 1) as nat);
        assert forall|j: int| 0 <= j < leading_ws(s) implies is_unicode_whitespace(
            #[trigger] s[j],
        ) by {
            if j > 0 {
                assert(s[j] == t[j - 1]);
            }
        }
        if leading_ws(s) < s.len() {
            assert(s[leading_ws(s) as int] == t[leading_ws(t) as int]);
        }
    } else {
        lemma_leading_ws_bounds(s);
    }
}

proof fn lemma_leading_ws_bounds(s: Seq<char>)
    ensures
        leading_ws(s) <= s.len(),
        leading_ws(s) < s.len() ==> !is_unicode_whitespace(s[leading_ws(s) as int]),
        forall|j: int| 0 <= j < leading_ws(s) ==> is_unicode_whitespace(#[trigger] s[j]),
        s.len() > 0 && !is_unicode_whitespace(s[0]) ==> leading_ws(s) == 0,
    decreases s.len(),
{
    if s.len() > 0 && is_unicode_whitespace(s[0]) {
        let t = s.drop_first();
        lemma_leading_ws_bounds(t);
        assert forall|j: int| 0 <= j < leading_ws(s) implies is_unicode_whitespace(
            #[trigger] s[j],
        ) by {
            if j > 0 {
                assert(s[j] == t[j - 1]);
            }
        }
        if leading_ws(s) < s.len() {
            assert(s[leading_ws(s) as int] == t[leading_ws(t) as int]);
        }
    }
}

proof fn lemma_trailing_ws_bounds(s: Seq<char>)
    ensures
        trailing_ws(s) <= s.len(),
        trailing_ws(s) < s.len() ==> !is_unicode_whitespace(s[s.len() - 1 - trailing_ws(s)]),
        forall|j: int|
            s.len() - trailing_ws(s) <= j < s.len() ==> is_unicode_whitespace(#[trigger] s[j]),
    decreases s.len(),
{
    if s.len() > 0 && is_unicode_whitespace(s.last()) {
        let t = s.drop_last();
        lemma_trailing_ws_bounds(t);
        assert forall|j: int| s.len() - trailing_ws(s) <= j < s.len() implies is_unicode_whitespace(
            #[trigger] s[j],
        ) by {
            if j < s.len() - 1 {
                assert(s[j] == t[j]);
            }
        }
        if trailing_ws(s) < s.len() {
            assert(s[s.len() - 1 - trailing_ws(s)] == t[t.len() - 1 - trailing_ws(t)]);
        }
    }
}

/// The characters of `s`, one by one.
pub fn chars_of(s: &str) -> (v: Vec<char>)
    ensures
        v@ == s@,
{
    let n = s.unicode_len();
    let mut v: Vec<char> = Vec::new();
    let mut i: usize = 0;
    while i < n
        invariant
            n == s@.len(),
            i <= n,
            v@ == s@.subrange(0, i as int),
        decreases n - i,
    {
        v.push(s.get_char(i));
        i = i + 1;
        assert(v@ =~= s@.subrange(0, i as int));
    }
    assert(v@ =~= s@);
    v
}

/// Whether two strings hold the same characters.
pub fn str_eq(a: &str, b: &str) -> (r: bool)
    ensures
        r == (a@ == b@),
{
    let x = chars_of(a);
    let y = chars_of(b);
    if x.len() != y.len() {
        return false;
    }
    let mut i: usize = 0;
    while i < x.len()
        invariant
            x@ == a@,
            y@ == b@,
            x.len() == y.len(),
            i <= x.len(),
            forall|j: int| 0 <= j < i ==> x@[j] == y@[j],
        decreases x.len() - i,
    {
        if x[i] != y[i] {
            return false;
        }
        i = i + 1;
    }
    assert(a@ =~= b@);
    true
}

/// Whether `s` begins with the characters of `prefix`.
pub fn starts_with(s: &str, prefix: &str) -> (r: bool)
    ensures
        r == (prefix@.len() <= s@.len() && s@.subrange(0, prefix@.len() as int) == prefix@),
{
    let x = chars_of(s);
    let p = chars_of(prefix);
    if p.len() > x.len() {
        return false;
    }
    let mut i: usize = 0;
    while i < p.len()
        invariant
            x@ == s@,
            p@ == prefix@,
            p.len() <= x.len(),
            i <= p.len(),
            forall|j: int| 0 <= j < i ==> x@[j] == p@[j],
        decreases p.len() - i,
    {
        if x[i] != p[i] {
            assert(s@.subrange(0, prefix@.len() as int)[i as int] != prefix@[i as int]);
            return false;
        }
        i = i + 1;
    }
    assert(s@.subrange(0, prefix@.len() as int) =~= prefix@);
    true
}

/// `s` without leading and trailing Unicode whitespace.
pub fn trim(s: &str) -> (r: &str)
    ensures
        r@ == spec_trim(s@),
{
    let x = chars_of(s);
    let n = x.len();
    let mut a: usize = 0;
    while a < n && char_is_whitespace(x[a])
        invariant
            x@ == s@,
            n == x.len(),
            a <= n,
            forall|j: int| 0 <= j < a ==> is_unicode_whitespace(#[trigger] x@[j]),
        decreases n - a,
    {
        a = a + 1;
    }
    proof {
        lemma_leading_ws(s@, a as nat);
    }
    if a == n {
        let r = s.substring_char(0, 0);
        assert(r@ =~= spec_trim(s@));
        return r;
    }
    let mut b: usize = n;
    while b > a && char_is_whitespace(x[b - 1])
        invariant
            x@ == s@,
            n == x.len(),
            a < n,
            !is_unicode_whitespace(x@[a as int]),
            a <= b <= n,
            forall|j: int| b <= j < n ==> is_unicode_whitespace(#[trigger] x@[j]),
        decreases b,
    {
        b = b - 1;
    }
    proof {
        lemma_trailing_ws_exact(s@, (n - b) as nat);
    }
    s.substring_char(a, b)
}

proof fn lemma_trailing_ws_exact(s: Seq<char>, k: nat)
    requires
        k < s.len(),
        forall|j: int| s.len() - k <= j < s.len() ==> is_unicode_whitespace(#[trigger] s[j]),
        !is_unicode_whitespace(s[s.len() - 1 - k]),
    ensures
        trailing_ws(s) == k,
    decreases k,
{
    if k > 0 {
        let t = s.drop_last();
        assert forall|j: int| t.len() - (k - 1) <= j < t.len() implies is_unicode_whitespace(
            #[trigger] t[j],
        ) by {
            assert(t[j] == s[j]);
        }
        assert(t[t.len() - 1 - (k - 1)] == s[s.len() - 1 - k]);
        lemma_trailing_ws_exact(t, (k - 1) as nat);
        assert(is_unicode_whitespace(s.last()));
    } else {
        assert(s.last() == s[s.len() - 1 - k]);
    }
}

/// ASCII lower-casing of one character; other characters are unchanged.
pub open spec fn ascii_lower_char(c: char) -> char {
    if 'A' <= c && c <= 'Z' {
        ((c as u32) + 32) as char
    } else {
        c
    }
}

/// Whether every character of `s` is ASCII.
pub open spec fn all_ascii(s: Seq<char>) -> bool {
    forall|i: int| 0 <= i < s.len() ==> (#[trigger] s[i] as u32) < 128
}

/// The Unicode lower-case form of `s`, as `str::to_lowercase` computes it.
pub uninterp spec fn spec_lowercase(s: Seq<char>) -> Seq<char>;

/// The lower-case form of `s`: character by character for ASCII text,
/// the Unicode lower-case form otherwise.
pub open spec fn lowercase_text(s: Seq<char>) -> Seq<char> {
    if all_ascii(s) {
        s.map_values(|c: char| ascii_lower_char(c))
    } else {
        spec_lowercase(s)
    }
}

/// Calls `str::to_lowercase`. Claimed: the result is the (named) Unicode
/// lower-case form of the input, and on ASCII input it is the input with
/// `A`-`Z` mapped to `a`-`z`, character by character.
#[verifier::external_body]
pub(crate) fn to_lowercase(s: &str) -> (r: String)
    ensures
        r@ == spec_lowercase(s@),
        r@ == lowercase_text(s@),
{
    s.to_lowercase()
}

/// A new string holding the characters of `a` followed by those of `b`.
pub fn concat_text(a: &str, b: &str) -> (r: String)
    ensures
        r@ == a@ + b@,
{
    let mut r = String::from_str(a);
    r.append(b);
    r
}

/// Text that neither begins nor ends with whitespace is its own trim.
pub proof fn lemma_trim_no_space(s: Seq<char>)
    requires
        s.len() > 0,
        !is_unicode_whitespace(s[0]),
        !is_unicode_whitespace(s.last()),
    ensures
        spec_trim(s) == s,
{
    lemma_leading_ws_bounds(s);
    assert(trailing_ws(s) == 0);
    assert(s.subrange(0, s.len() as int) =~= s);
}

proof fn lemma_leading_ws_prefix(a: Seq<char>, u: Seq<char>)
    requires
        forall|i: int| 0 <= i < a.len() ==> is_unicode_whitespace(#[trigger] a[i]),
        u.len() > 0,
        !is_unicode_whitespace(u[0]),
    ensures
        leading_ws(a + u) == a.len(),
    decreases a.len(),
{
    if a.len() == 0 {
        assert(a + u =~= u);
    } else {
        assert((a + u)[0] == a[0]);
        assert((a + u).drop_first() =~= a.drop_first() + u);
        lemma_leading_ws_prefix(a.drop_first(), u);
    }
}

proof fn lemma_trailing_ws_suffix(u: Seq<char>, b: Seq<char>)
    requires
        forall|i: int| 0 <= i < b.len() ==> is_unicode_whitespace(#[trigger] b[i]),
        u.len() > 0,
        !is_unicode_whitespace(u.last()),
    ensures
        trailing_ws(u + b) == b.len(),
    decreases b.len(),
{
    if b.len() == 0 {
        assert(u + b =~= u);
    } else {
        assert((u + b).last() == b.last());
        assert((u + b).drop_last() =~= u + b.drop_last());
        lemma_trailing_ws_suffix(u, b.drop_last());
    }
}

/// Whitespace around text that neither begins nor ends with whitespace
/// (or is empty) is what trimming takes away.
pub proof fn lemma_trim_padded(a: Seq<char>, t: Seq<char>, b: Seq<char>)
    requires
        forall|i: int| 0 <= i < a.len() ==> is_unicode_whitespace(#[trigger] a[i]),
        forall|i: int| 0 <= i < b.len() ==> is_unicode_whitespace(#[trigger] b[i]),
        t.len() > 0 ==> !is_unicode_whitespace(t[0]) && !is_unicode_whitespace(t.last()),
    ensures
        spec_trim(a + t + b) == t,
{
    let s = a + t + b;
    if t.len() == 0 {
        assert forall|j: int| 0 <= j < s.len() implies is_unicode_whitespace(#[trigger] s[j]) by {
            if j < a.len() {
                assert(s[j] == a[j]);
            } else {
                assert(s[j] == b[j - a.len()]);
            }
        }
        lemma_leading_ws(s, s.len());
        assert(t =~= Seq::<char>::empty());
    } else {
        assert(a + (t + b) =~= s);
        assert((t + b)[0] == t[0]);
        lemma_leading_ws_prefix(a, t + b);
        assert((a + t).last() == t.last());
        lemma_trailing_ws_suffix(a + t, b);
        assert(s.subrange(a.len() as int, s.len() - b.len()) =~= t);
    }
}

} // verus!
