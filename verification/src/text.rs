//! Character-level string helpers used by the key and path builders.

use vstd::prelude::*;

verus! {

/// Appends one character to a `String` (std's `String::push`).
/// Claimed: the string afterwards is the old one followed by `c`, as std documents.
#[verifier::external_body]
pub(crate) fn push_char(s: &mut String, c: char)
    ensures
        final(s)@ == old(s)@.push(c),
{
    s.push(c)
}

/// The characters of `s`, in order.
pub fn chars_of(s: &str) -> (r: Vec<char>)
    ensures
        r@ == s@,
{
    let mut r: Vec<char> = Vec::new();
    for c in it: s.chars()
        invariant
            r@ == it.seq().take(it.index() as int),
            it.seq() == s@,
    {
        r.push(c);
    }
    r
}

} // verus!

verus! {

/// What std's Unicode tables say of a non-ASCII character: whether it has
/// the `Alphabetic` property.
pub uninterp spec fn unicode_alphabetic(c: char) -> bool;

/// Whether `c` has the Unicode `Alphabetic` property: among ASCII
/// characters exactly the letters `A`-`Z` and `a`-`z` have it.
pub open spec fn is_alphabetic(c: char) -> bool {
    if (c as int) < 128 {
        ('a' <= c && c <= 'z') || ('A' <= c && c <= 'Z')
    } else {
        unicode_alphabetic(c)
    }
}

/// The value of `c` as a digit: `0`-`9` are 0 to 9, the letters `a`-`z` and
/// `A`-`Z` are 10 to 35; any other character is no digit (36).
pub open spec fn digit_value(c: char) -> int {
    if '0' <= c && c <= '9' {
        c as int - '0' as int
    } else if 'a' <= c && c <= 'z' {
        c as int - 'a' as int + 10
    } else if 'A' <= c && c <= 'Z' {
        c as int - 'A' as int + 10
    } else {
        36
    }
}

/// std's `char::is_alphabetic`. Claimed: the result is whether `c` has the
/// Unicode `Alphabetic` property (Unicode Character Database,
/// DerivedCoreProperties.txt), as std documents; std answers the ASCII range
/// itself, where the property holds of the letters `A`-`Z` and `a`-`z` only,
/// and looks other characters up in its Unicode tables. What those tables
/// say of a given non-ASCII character is left to the name
/// `unicode_alphabetic`.
#[verifier::external_body]
fn char_is_alphabetic(c: char) -> (r: bool)
    ensures
        (c as int) < 128 ==> (r <==> (('a' <= c && c <= 'z') || ('A' <= c && c <= 'Z'))),
        (c as int) >= 128 ==> r == unicode_alphabetic(c),
{
    c.is_alphabetic()
}

/// std's `char::is_digit`. Claimed, as std documents it (with
/// `char::to_digit`): the result is whether `c` is a digit of value below
/// `radix`, the digits being `0`-`9`, `a`-`z` and `A`-`Z`. std panics on a
/// radix above 36, which `requires` leaves out.
#[verifier::external_body]
fn char_is_digit(c: char, radix: u32) -> (r: bool)
    requires
        2 <= radix <= 36,
    ensures
        r == (digit_value(c) < radix),
{
    c.is_digit(radix)
}

/// Whether `s` holds the character `c`.
pub fn str_contains_char(s: &str, c: char) -> (r: bool)
    ensures
        r == s@.contains(c),
{
    let n = s.unicode_len();
    let mut i: usize = 0;
    while i < n
        invariant
            n == s@.len(),
            i <= n,
            forall|j: int| 0 <= j < i ==> s@[j] != c,
        decreases n - i,
    {
        if s.get_char(i) == c {
            return true;
        }
        i = i + 1;
    }
    false
}

/// The punctuation that may stay in a drive path: `, ()-[]{};?`.
pub open spec fn simple_punct() -> Seq<char> {
    seq![',', ' ', '(', ')', '-', '[', ']', '{', '}', ';', '?']
}

/// A character that may stay in a drive path: a letter, a decimal digit or
/// one of `simple_punct()`.
pub open spec fn simple_char(c: char) -> bool {
    is_alphabetic(c) || ('0' <= c && c <= '9') || simple_punct().contains(c)
}

/// The characters of `s` that may stay in a drive path, in order.
pub open spec fn keep_simple(s: Seq<char>) -> Seq<char>
    decreases s.len(),
{
    if s.len() == 0 {
        seq![]
    } else if simple_char(s.last()) {
        keep_simple(s.drop_last()).push(s.last())
    } else {
        keep_simple(s.drop_last())
    }
}

/// Whether `c` may stay in a drive path, given whether it is alphabetic:
/// alphabetic, a decimal digit, or one of `, ()-[]{};?`.
pub fn simple_given_alphabetic(c: char, alphabetic: bool) -> (r: bool)
    ensures
        r == (alphabetic || ('0' <= c && c <= '9') || simple_punct().contains(c)),
{
    let punct = ", ()-[]{};?";
    proof {
        reveal_strlit(", ()-[]{};?");
        assert(punct@ =~= simple_punct());
    }
    let digit = char_is_digit(c, 10);
    assert(digit == ('0' <= c && c <= '9'));
    alphabetic || digit || str_contains_char(punct, c)
}

/// Whether `c` may stay in a drive path: alphabetic, a decimal digit, or one
/// of `, ()-[]{};?`.
pub fn only_utf8_simple(c: char) -> (r: bool)
    ensures
        r == simple_char(c),
{
    let alphabetic = char_is_alphabetic(c);
    simple_given_alphabetic(c, alphabetic)
}

/// `s` without the characters that may not stay in a drive path.
pub fn retain_simple(s: &str) -> (r: String)
    ensures
        r@ == keep_simple(s@),
{
    let chars = chars_of(s);
    let mut r = String::new();
    let mut i: usize = 0;
    while i < chars.len()
        invariant
            chars@ == s@,
            i <= chars.len(),
            r@ == keep_simple(s@.take(i as int)),
        decreases chars.len() - i,
    {
        let c = chars[i];
        assert(s@.take(i + 1).drop_last() =~= s@.take(i as int));
        if only_utf8_simple(c) {
            push_char(&mut r, c);
        }
        i = i + 1;
    }
    assert(s@.take(chars.len() as int) =~= s@);
    r
}

/// Every character kept by `keep_simple` may stay in a drive path, and it
/// keeps no more characters than it was given.
pub proof fn lemma_keep_simple_chars(s: Seq<char>)
    ensures
        forall|i: int| 0 <= i < keep_simple(s).len() ==> simple_char(#[trigger] keep_simple(s)[i]),
        keep_simple(s).len() <= s.len(),
    decreases s.len(),
{
    if s.len() > 0 {
        lemma_keep_simple_chars(s.drop_last());
        let k = keep_simple(s);
        let p = keep_simple(s.drop_last());
        assert forall|i: int| 0 <= i < k.len() implies simple_char(#[trigger] k[i]) by {
            if i < p.len() {
                assert(k[i] == p[i]);
            }
        }
    }
}

/// `s` with every occurrence of `p` removed, matching from the left without
/// overlap, as `str::replace(p, "")` does.
pub open spec fn remove_all(s: Seq<char>, p: Seq<char>) -> Seq<char>
    decreases s.len(),
{
    if p.len() == 0 || s.len() < p.len() {
        s
    } else if s.subrange(0, p.len() as int) == p {
        remove_all(s.subrange(p.len() as int, s.len() as int), p)
    } else {
        seq![s[0]] + remove_all(s.subrange(1, s.len() as int), p)
    }
}

fn matches_at(s: &Vec<char>, i: usize, p: &Vec<char>) -> (r: bool)
    requires
        i + p.len() <= s.len(),
    ensures
        r == (s@.subrange(i as int, i + p.len()) == p@),
{
    let mut j: usize = 0;
    while j < p.len()
        invariant
            i + p.len() <= s.len(),
            j <= p.len(),
            forall|k: int| 0 <= k < j ==> s@[i + k] == p@[k],
        decreases p.len() - j,
    {
        if s[i + j] != p[j] {
            assert(s@.subrange(i as int, i + p.len())[j as int] != p@[j as int]);
            return false;
        }
        j = j + 1;
    }
    assert(s@.subrange(i as int, i + p.len()) =~= p@);
    true
}

/// `s` with every occurrence of `pat` removed, as `s.replace(pat, "")`.
pub fn remove_all_exec(s: &str, pat: &str) -> (r: String)
    ensures
        r@ == remove_all(s@, pat@),
{
    let sv = chars_of(s);
    let pv = chars_of(pat);
    let n = sv.len();
    let m = pv.len();
    let mut r = String::new();
    let mut i: usize = 0;
    assert(s@.subrange(0, n as int) =~= s@);
    assert(r@ + s@ =~= s@);
    while i < n
        invariant
            sv@ == s@,
            pv@ == pat@,
            n == sv.len(),
            m == pv.len(),
            i <= n,
            r@ + remove_all(s@.subrange(i as int, n as int), pat@) == remove_all(s@, pat@),
        decreases n - i,
    {
        let ghost rest = s@.subrange(i as int, n as int);
        if m > 0 && m <= n - i && matches_at(&sv, i, &pv) {
            assert(rest.subrange(0, m as int) =~= s@.subrange(i as int, i + m));
            assert(rest.subrange(m as int, rest.len() as int) =~= s@.subrange(i + m, n as int));
            i = i + m;
        } else {
            if m > 0 && m <= n - i {
                assert(rest.subrange(0, m as int) =~= s@.subrange(i as int, i + m));
                assert(rest.subrange(1, rest.len() as int) =~= s@.subrange(i + 1, n as int));
                let ghost before = r@;
                push_char(&mut r, sv[i]);
                assert(r@ + remove_all(s@.subrange(i + 1, n as int), pat@) =~= before + (seq![rest[0]] + remove_all(rest.subrange(1, rest.len() as int), pat@)));
                i = i + 1;
            } else {
                let ghost before = r@;
                push_char(&mut r, sv[i]);
                assert(remove_all(rest, pat@) == rest);
                let ghost next = s@.subrange(i + 1, n as int);
                assert(next.len() < pat@.len() || pat@.len() == 0);
                assert(remove_all(next, pat@) == next);
                assert(r@ + next =~= before + rest);
                i = i + 1;
            }
        }
    }
    assert(s@.subrange(n as int, n as int) =~= Seq::<char>::empty());
    assert(r@ + remove_all(Seq::<char>::empty(), pat@) =~= r@);
    r
}

/// Whether `p` occurs nowhere in `s`.
pub open spec fn occurs_nowhere(s: Seq<char>, p: Seq<char>) -> bool {
    forall|i: int| 0 <= i && i + p.len() <= s.len() ==> #[trigger] s.subrange(i, i + p.len()) != p
}

/// A leading occurrence of the pattern is removed.
pub proof fn lemma_remove_all_leading(p: Seq<char>, r: Seq<char>)
    requires
        p.len() > 0,
    ensures
        remove_all(p + r, p) == remove_all(r, p),
{
    let s = p + r;
    assert(s.subrange(0, p.len() as int) =~= p);
    assert(s.subrange(p.len() as int, s.len() as int) =~= r);
}

/// Where the pattern occurs nowhere, nothing is removed.
pub proof fn lemma_remove_all_absent(s: Seq<char>, p: Seq<char>)
    requires
        p.len() > 0,
        occurs_nowhere(s, p),
    ensures
        remove_all(s, p) == s,
    decreases s.len(),
{
    if s.len() >= p.len() {
        assert(s.subrange(0, 0 + p.len() as int) != p);
        let t = s.subrange(1, s.len() as int);
        assert forall|i: int| 0 <= i && i + p.len() <= t.len() implies #[trigger] t.subrange(i, i + p.len()) != p by {
            assert(t.subrange(i, i + p.len()) =~= s.subrange(i + 1, i + 1 + p.len()));
        }
        lemma_remove_all_absent(t, p);
        assert(seq![s[0]] + t =~= s);
    }
}

/// `keep_simple` keeps exactly the characters that may stay in a drive
/// path, in their order: it is the filter of `s` by `simple_char`.
pub proof fn lemma_keep_simple_is_filter(s: Seq<char>)
    ensures
        keep_simple(s) == s.filter(|c: char| simple_char(c)),
    decreases s.len(),
{
    reveal_with_fuel(Seq::filter, 1);
    if s.len() > 0 {
        lemma_keep_simple_is_filter(s.drop_last());
    }
}

/// Which characters may stay in a drive path: among ASCII characters the
/// letters, the decimal digits and `,`, space, `(`, `)`, `-`, `[`, `]`, `{`,
/// `}`, `;`, `?`; beyond ASCII exactly the alphabetic ones.
pub proof fn lemma_simple_char_cases(c: char)
    ensures
        (c as int) < 128 ==> (simple_char(c) <==> (('a' <= c && c <= 'z') || ('A' <= c && c <= 'Z') || ('0' <= c && c <= '9')
            || c == ',' || c == ' ' || c == '(' || c == ')' || c == '-' || c == '[' || c == ']' || c == '{' || c == '}'
            || c == ';' || c == '?')),
        (c as int) >= 128 ==> (simple_char(c) <==> unicode_alphabetic(c)),
{
    let p = simple_punct();
    if p.contains(c) {
        let i = choose|i: int| 0 <= i < p.len() && p[i] == c;
        assert(p[i] == c);
    }
    if c == ',' { assert(p[0] == c); }
    if c == ' ' { assert(p[1] == c); }
    if c == '(' { assert(p[2] == c); }
    if c == ')' { assert(p[3] == c); }
    if c == '-' { assert(p[4] == c); }
    if c == '[' { assert(p[5] == c); }
    if c == ']' { assert(p[6] == c); }
    if c == '{' { assert(p[7] == c); }
    if c == '}' { assert(p[8] == c); }
    if c == ';' { assert(p[9] == c); }
    if c == '?' { assert(p[10] == c); }
}

/// Removal runs from the left: an occurrence of `p` that is the first one
/// in `x + p` is removed, the text before it stays, and removal goes on
/// after it.
pub proof fn lemma_remove_all_split(x: Seq<char>, p: Seq<char>, y: Seq<char>)
    requires
        p.len() > 0,
        forall|i: int| 0 <= i < x.len() ==> #[trigger] (x + p).subrange(i, i + p.len()) != p,
    ensures
        remove_all(x + p + y, p) == x + remove_all(y, p),
    decreases x.len(),
{
    let s = x + p + y;
    if x.len() == 0 {
        assert(s =~= p + y);
        lemma_remove_all_leading(p, y);
        assert(x + remove_all(y, p) =~= remove_all(y, p));
    } else {
        assert(s.subrange(0, p.len() as int) =~= (x + p).subrange(0, 0 + p.len() as int));
        let x1 = x.subrange(1, x.len() as int);
        assert forall|i: int| 0 <= i < x1.len() implies #[trigger] (x1 + p).subrange(i, i + p.len()) != p by {
            assert((x1 + p).subrange(i, i + p.len()) =~= (x + p).subrange(i + 1, i + 1 + p.len()));
        }
        lemma_remove_all_split(x1, p, y);
        assert(s.subrange(1, s.len() as int) =~= x1 + p + y);
        assert(seq![x[0]] + (x1 + remove_all(y, p)) =~= x + remove_all(y, p));
    }
}

} // verus!
