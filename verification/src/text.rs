//! Character-level helpers shared by the rest of the library.

use vstd::prelude::*;

verus! {

/// Appends one character to a string (std `String::push`).
#[verifier::external_body]
pub fn string_push(s: &mut String, c: char)
    ensures
        final(s)@ == old(s)@.push(c),
{
    s.push(c);
}

/// The characters of `s`, in order.
pub fn chars_of(s: &str) -> (r: Vec<char>)
    ensures
        r@ == s@,
{
    let mut out: Vec<char> = Vec::new();
    for c in it: s.chars()
        invariant
            out@ == it.seq().take(it.index() as int),
    {
        out.push(c);
    }
    out
}

/// The string made of the characters of `v`, in order.
pub fn string_of(v: &[char]) -> (r: String)
    ensures
        r@ == v@,
{
    let mut out = String::new();
    let mut i: usize = 0;
    while i < v.len()
        invariant
            i <= v.len(),
            out@ == v@.take(i as int),
        decreases v.len() - i,
    {
        string_push(&mut out, v[i]);
        i = i + 1;
        assert(v@.take(i as int) == v@.take((i - 1) as int).push(v@[i - 1]));
    }
    assert(v@.take(v.len() as int) == v@);
    out
}

} // verus!

verus! {

/// The first position at which `pat` occurs in `s` (`Some(0)` for an empty
/// pattern), as `str::find` reports it.
pub open spec fn find_seq<A>(s: Seq<A>, pat: Seq<A>) -> Option<int>
    decreases s.len(),
{
    if pat.len() == 0 {
        Some(0)
    } else if s.len() < pat.len() {
        None
    } else if s.take(pat.len() as int) == pat {
        Some(0)
    } else {
        match find_seq(s.drop_first(), pat) {
            Some(i) => Some(i + 1),
            None => None,
        }
    }
}

/// The first position of `c` in `s`.
pub open spec fn find_elem<A>(s: Seq<A>, c: A) -> Option<int>
    decreases s.len(),
{
    if s.len() == 0 {
        None
    } else if s[0] == c {
        Some(0)
    } else {
        match find_elem(s.drop_first(), c) {
            Some(i) => Some(i + 1),
            None => None,
        }
    }
}

pub open spec fn starts_with<A>(s: Seq<A>, p: Seq<A>) -> bool {
    s.len() >= p.len() && s.take(p.len() as int) == p
}

pub open spec fn ends_with<A>(s: Seq<A>, p: Seq<A>) -> bool {
    s.len() >= p.len() && s.skip(s.len() - p.len()) == p
}

/// `pat` occurs somewhere in `s`.
pub open spec fn contains_seq<A>(s: Seq<A>, pat: Seq<A>) -> bool {
    find_seq(s, pat) is Some
}

pub proof fn lemma_find_seq_found<A>(s: Seq<A>, pat: Seq<A>)
    ensures
        find_seq(s, pat) matches Some(i) ==> {
            &&& 0 <= i && i + pat.len() <= s.len()
            &&& s.subrange(i, i + pat.len()) == pat
        },
    decreases s.len(),
{
    if pat.len() == 0 {
        assert(s.subrange(0, 0) =~= pat);
    } else if s.len() >= pat.len() && s.take(pat.len() as int) != pat {
        lemma_find_seq_found(s.drop_first(), pat);
        if let Some(i) = find_seq(s.drop_first(), pat) {
            assert(s.subrange(i + 1, i + 1 + pat.len()) =~= s.drop_first().subrange(i, i + pat.len()));
        }
    }
}

/// `find_seq` over a suffix, shifted back to positions of the whole.
pub proof fn lemma_find_seq_step<A>(s: Seq<A>, pat: Seq<A>, i: int)
    requires
        0 <= i < s.len(),
        s.len() - i >= pat.len(),
        s.skip(i).take(pat.len() as int) != pat,
    ensures
        s.skip(i).drop_first() == s.skip(i + 1),
        find_seq(s.skip(i), pat) == match find_seq(s.skip(i + 1), pat) {
            Some(k) => Some(k + 1),
            None => None::<int>,
        },
{
    if pat.len() == 0 {
        assert(s.skip(i).take(0) =~= pat);
    }
    assert(s.skip(i).drop_first() =~= s.skip(i + 1));
}

/// Elementwise equality of two character slices.
pub fn chars_eq(a: &[char], b: &[char]) -> (r: bool)
    ensures
        r == (a@ == b@),
{
    if a.len() != b.len() {
        return false;
    }
    let mut i: usize = 0;
    while i < a.len()
        invariant
            a.len() == b.len(),
            i <= a.len(),
            forall|k: int| 0 <= k < i ==> a@[k] == b@[k],
        decreases a.len() - i,
    {
        if a[i] != b[i] {
            return false;
        }
        i = i + 1;
    }
    assert(a@ == b@);
    true
}

/// Whether `pat` occurs in `s` starting at position `at`.
pub fn matches_at(s: &[char], pat: &[char], at: usize) -> (r: bool)
    requires
        at <= s.len(),
    ensures
        r == (s.len() - at >= pat.len() && s@.skip(at as int).take(pat.len() as int) == pat@),
{
    if s.len() - at < pat.len() {
        return false;
    }
    let mut k: usize = 0;
    while k < pat.len()
        invariant
            at <= s.len(),
            s.len() - at >= pat.len(),
            k <= pat.len(),
            forall|j: int| 0 <= j < k ==> s@[at + j] == pat@[j],
        decreases pat.len() - k,
    {
        if s[at + k] != pat[k] {
            assert(s@.skip(at as int).take(pat.len() as int)[k as int] != pat@[k as int]);
            return false;
        }
        k = k + 1;
    }
    assert(s@.skip(at as int).take(pat.len() as int) == pat@);
    true
}

/// First position at or after `from` at which `pat` occurs.
pub fn find_from(s: &[char], pat: &[char], from: usize) -> (r: Option<usize>)
    requires
        from <= s.len(),
    ensures
        match r {
            Some(i) => find_seq(s@.skip(from as int), pat@) == Some(i - from),
            None => find_seq(s@.skip(from as int), pat@) is None,
        },
{
    let mut i: usize = from;
    while i <= s.len()
        invariant
            from <= i,
            i <= s.len() + 1,
            i <= s.len() ==> find_seq(s@.skip(from as int), pat@) == match find_seq(
                s@.skip(i as int),
                pat@,
            ) {
                Some(k) => Some(k + (i - from)),
                None => None::<int>,
            },
            i > s.len() ==> find_seq(s@.skip(from as int), pat@) is None,
        decreases s.len() + 1 - i,
    {
        if s.len() - i < pat.len() {
            return None;
        }
        if matches_at(s, pat, i) {
            return Some(i);
        }
        if i == s.len() {
            assert(pat.len() == 0);
            assert(s@.skip(i as int).take(0) == pat@);
        }
        proof {
            lemma_find_seq_step(s@, pat@, i as int);
        }
        i = i + 1;
    }
    None
}

/// Whether the characters of `s` begin with `p`.
pub fn chars_start_with(s: &[char], p: &[char]) -> (r: bool)
    ensures
        r == starts_with(s@, p@),
{
    let r = matches_at(s, p, 0);
    assert(s@.skip(0) == s@);
    r
}

/// Whether the characters of `s` end with `p`.
pub fn chars_end_with(s: &[char], p: &[char]) -> (r: bool)
    ensures
        r == ends_with(s@, p@),
{
    if s.len() < p.len() {
        return false;
    }
    let r = matches_at(s, p, s.len() - p.len());
    assert(s@.skip(s.len() - p.len()).take(p.len() as int) == s@.skip(s.len() - p.len()));
    r
}

/// The characters of `s` from `from` (inclusive) to `to` (exclusive).
pub fn chars_range(s: &[char], from: usize, to: usize) -> (r: Vec<char>)
    requires
        from <= to <= s.len(),
    ensures
        r@ == s@.subrange(from as int, to as int),
{
    let mut out: Vec<char> = Vec::new();
    let mut i: usize = from;
    while i < to
        invariant
            from <= i <= to <= s.len(),
            out@ == s@.subrange(from as int, i as int),
        decreases to - i,
    {
        out.push(s[i]);
        i = i + 1;
        assert(out@ == s@.subrange(from as int, i as int));
    }
    out
}

} // verus!

verus! {

/// Whether two strings hold the same characters.
pub fn str_eq(a: &str, b: &str) -> (r: bool)
    ensures
        r == (a@ == b@),
{
    let ca = chars_of(a);
    let cb = chars_of(b);
    chars_eq(ca.as_slice(), cb.as_slice())
}

/// The first index at which `p` holds.
pub open spec fn first_index<A>(s: Seq<A>, p: spec_fn(A) -> bool) -> Option<int>
    decreases s.len(),
{
    if s.len() == 0 {
        None
    } else if p(s[0]) {
        Some(0)
    } else {
        match first_index(s.drop_first(), p) {
            Some(i) => Some(i + 1),
            None => None,
        }
    }
}

/// `first_index` is the least index at which the predicate holds.
pub proof fn lemma_first_index<A>(s: Seq<A>, p: spec_fn(A) -> bool)
    ensures
        first_index(s, p) matches Some(i) ==> {
            &&& 0 <= i < s.len()
            &&& p(s[i])
            &&& forall|j: int| 0 <= j < i ==> !p(#[trigger] s[j])
        },
        first_index(s, p) is None ==> forall|j: int| 0 <= j < s.len() ==> !p(#[trigger] s[j]),
    decreases s.len(),
{
    if s.len() > 0 && !p(s[0]) {
        lemma_first_index(s.drop_first(), p);
        assert forall|j: int| 1 <= j < s.len() implies s[j] == s.drop_first()[j - 1] by {}
        if let Some(i) = first_index(s, p) {
            assert forall|j: int| 0 <= j < i implies !p(#[trigger] s[j]) by {
                if j > 0 {
                    assert(s[j] == s.drop_first()[j - 1]);
                }
            }
        } else {
            assert forall|j: int| 0 <= j < s.len() implies !p(#[trigger] s[j]) by {
                if j > 0 {
                    assert(s[j] == s.drop_first()[j - 1]);
                }
            }
        }
    }
}

/// The least index at which the predicate holds is `first_index`.
pub proof fn lemma_first_index_is<A>(s: Seq<A>, p: spec_fn(A) -> bool, i: int)
    requires
        0 <= i < s.len(),
        p(s[i]),
        forall|j: int| 0 <= j < i ==> !p(#[trigger] s[j]),
    ensures
        first_index(s, p) == Some(i),
{
    lemma_first_index(s, p);
    if let Some(k) = first_index(s, p) {
        if k < i {
            assert(!p(s[k]));
        }
        if k > i {
            assert(!p(s[i]));
        }
    }
}

/// No index satisfies the predicate, so `first_index` finds none.
pub proof fn lemma_first_index_none<A>(s: Seq<A>, p: spec_fn(A) -> bool)
    requires
        forall|j: int| 0 <= j < s.len() ==> !p(#[trigger] s[j]),
    ensures
        first_index(s, p) is None,
{
    lemma_first_index(s, p);
    if let Some(k) = first_index(s, p) {
        assert(!p(s[k]));
    }
}

} // verus!

verus! {

/// Replacing one element changes the multiset by that element alone.
pub proof fn lemma_update_to_multiset<A>(s: Seq<A>, i: int, x: A)
    requires
        0 <= i < s.len(),
    ensures
        s.update(i, x).to_multiset() =~= s.to_multiset().remove(s[i]).insert(x),
{
    broadcast use vstd::seq_lib::group_to_multiset_ensures, vstd::multiset::group_multiset_axioms;

    let t = s.update(i, x);
    assert(t.remove(i) =~= s.remove(i));
    assert(t.contains(x)) by {
        assert(t[i] == x);
    }
    assert(t.to_multiset().count(x) > 0);
    assert(t.to_multiset().remove(x) =~= s.to_multiset().remove(s[i]));
    assert(t.to_multiset() =~= t.to_multiset().remove(x).insert(x));
}

/// Swapping two elements keeps the multiset of elements.
pub proof fn lemma_swap_to_multiset<A>(s: Seq<A>, i: int, j: int)
    requires
        0 <= i < s.len(),
        0 <= j < s.len(),
    ensures
        s.update(i, s[j]).update(j, s[i]).to_multiset() =~= s.to_multiset(),
{
    broadcast use vstd::seq_lib::group_to_multiset_ensures, vstd::multiset::group_multiset_axioms;

    if i == j {
        assert(s.update(i, s[j]).update(j, s[i]) =~= s);
    } else {
        let s1 = s.update(i, s[j]);
        lemma_update_to_multiset(s, i, s[j]);
        lemma_update_to_multiset(s1, j, s[i]);
        assert(s1[j] == s[j]);
        assert(s.contains(s[i]));
        assert(s.to_multiset().count(s[i]) > 0);
        assert(s.to_multiset().remove(s[i]).insert(s[j]).remove(s[j]).insert(s[i]) =~= s.to_multiset());
    }
}

} // verus!

verus! {

/// The characters of `a` followed by those of `b`.
pub fn concat_str(a: &str, b: &str) -> (r: String)
    ensures
        r@ == a@ + b@,
{
    let mut v = chars_of(a);
    let w = chars_of(b);
    let mut i: usize = 0;
    let ghost base = v@;
    while i < w.len()
        invariant
            i <= w.len(),
            base == a@,
            w@ == b@,
            v@ == base + w@.take(i as int),
        decreases w.len() - i,
    {
        v.push(w[i]);
        i = i + 1;
        assert(v@ == base + w@.take(i as int));
    }
    assert(w@.take(w.len() as int) == w@);
    string_of(v.as_slice())
}

/// A copy of the string `s`.
pub fn owned(s: &str) -> (r: String)
    ensures
        r@ == s@,
{
    let v = chars_of(s);
    string_of(v.as_slice())
}

} // verus!

verus! {

/// Unicode `White_Space`, the set that `char::is_whitespace` accepts.
pub open spec fn is_ws(c: char) -> bool {
    ||| ('\u{9}' <= c && c <= '\u{d}')
    ||| c == ' '
    ||| c == '\u{85}'
    ||| c == '\u{a0}'
    ||| c == '\u{1680}'
    ||| ('\u{2000}' <= c && c <= '\u{200a}')
    ||| c == '\u{2028}'
    ||| c == '\u{2029}'
    ||| c == '\u{202f}'
    ||| c == '\u{205f}'
    ||| c == '\u{3000}'
}

/// `char::is_whitespace`.
pub fn char_is_ws(c: char) -> (r: bool)
    ensures
        r == is_ws(c),
{
    ('\u{9}' <= c && c <= '\u{d}') || c == ' ' || c == '\u{85}' || c == '\u{a0}' || c
        == '\u{1680}' || ('\u{2000}' <= c && c <= '\u{200a}') || c == '\u{2028}' || c
        == '\u{2029}' || c == '\u{202f}' || c == '\u{205f}' || c == '\u{3000}'
}

/// Every character is whitespace (`s.trim().is_empty()`).
pub open spec fn is_blank(s: Seq<char>) -> bool {
    forall|i: int| 0 <= i < s.len() ==> is_ws(#[trigger] s[i])
}

/// Number of whitespace characters at the start of `s`.
pub open spec fn lead_ws(s: Seq<char>) -> nat
    decreases s.len(),
{
    if s.len() == 0 || !is_ws(s[0]) {
        0
    } else {
        1 + lead_ws(s.drop_first())
    }
}

/// Number of whitespace characters at the end of `s`.
pub open spec fn trail_ws(s: Seq<char>) -> nat
    decreases s.len(),
{
    if s.len() == 0 || !is_ws(s.last()) {
        0
    } else {
        1 + trail_ws(s.drop_last())
    }
}

/// `str::trim_start`.
pub open spec fn trim_start_spec(s: Seq<char>) -> Seq<char> {
    s.skip(lead_ws(s) as int)
}

/// `str::trim_end`.
pub open spec fn trim_end_spec(s: Seq<char>) -> Seq<char> {
    s.take(s.len() - trail_ws(s))
}

/// `str::trim`: leading and trailing whitespace removed.
pub open spec fn trim_spec(s: Seq<char>) -> Seq<char> {
    trim_end_spec(trim_start_spec(s))
}

pub proof fn lemma_lead_ws_bound(s: Seq<char>)
    ensures
        lead_ws(s) <= s.len(),
        forall|i: int| 0 <= i < lead_ws(s) ==> is_ws(#[trigger] s[i]),
        lead_ws(s) < s.len() ==> !is_ws(s[lead_ws(s) as int]),
    decreases s.len(),
{
    if s.len() > 0 && is_ws(s[0]) {
        lemma_lead_ws_bound(s.drop_first());
        assert forall|i: int| 0 <= i < lead_ws(s) implies is_ws(#[trigger] s[i]) by {
            if i > 0 {
                assert(s[i] == s.drop_first()[i - 1]);
            }
        }
    }
}

pub proof fn lemma_trail_ws_bound(s: Seq<char>)
    ensures
        trail_ws(s) <= s.len(),
        forall|i: int| s.len() - trail_ws(s) <= i < s.len() ==> is_ws(#[trigger] s[i]),
        trail_ws(s) < s.len() ==> !is_ws(s[s.len() - trail_ws(s) - 1]),
    decreases s.len(),
{
    if s.len() > 0 && is_ws(s.last()) {
        lemma_trail_ws_bound(s.drop_last());
        assert forall|i: int| s.len() - trail_ws(s) <= i < s.len() implies is_ws(#[trigger] s[i]) by {
            if i < s.len() - 1 {
                assert(s[i] == s.drop_last()[i]);
            }
        }
    }
}

/// The least `k` at which whitespace stops is `lead_ws`.
pub proof fn lemma_lead_ws_is(s: Seq<char>, k: int)
    requires
        0 <= k <= s.len(),
        forall|i: int| 0 <= i < k ==> is_ws(#[trigger] s[i]),
        k < s.len() ==> !is_ws(s[k]),
    ensures
        lead_ws(s) == k,
    decreases s.len(),
{
    if k > 0 {
        assert(is_ws(s[0]));
        assert forall|i: int| 0 <= i < k - 1 implies is_ws(#[trigger] s.drop_first()[i]) by {
            assert(s.drop_first()[i] == s[i + 1]);
        }
        if k < s.len() {
            assert(s.drop_first()[k - 1] == s[k]);
        }
        lemma_lead_ws_is(s.drop_first(), k - 1);
    }
}

pub proof fn lemma_trail_ws_is(s: Seq<char>, k: int)
    requires
        0 <= k <= s.len(),
        forall|i: int| s.len() - k <= i < s.len() ==> is_ws(#[trigger] s[i]),
        k < s.len() ==> !is_ws(s[s.len() - k - 1]),
    ensures
        trail_ws(s) == k,
    decreases s.len(),
{
    if k > 0 {
        assert(is_ws(s[s.len() - 1]));
        assert forall|i: int| s.len() - 1 - (k - 1) <= i < s.len() - 1 implies is_ws(
            #[trigger] s.drop_last()[i],
        ) by {
            assert(s.drop_last()[i] == s[i]);
        }
        if k < s.len() {
            assert(s.drop_last()[s.len() - 1 - (k - 1) - 1] == s[s.len() - k - 1]);
        }
        lemma_trail_ws_is(s.drop_last(), k - 1);
    }
}

/// `str::trim` over characters.
pub fn trim_chars(s: &[char]) -> (r: Vec<char>)
    ensures
        r@ == trim_spec(s@),
{
    let mut a: usize = 0;
    while a < s.len() && char_is_ws(s[a])
        invariant
            a <= s.len(),
            forall|i: int| 0 <= i < a ==> is_ws(#[trigger] s@[i]),
        decreases s.len() - a,
    {
        a = a + 1;
    }
    proof {
        lemma_lead_ws_is(s@, a as int);
    }
    let mut b: usize = s.len();
    while b > a && char_is_ws(s[b - 1])
        invariant
            a <= b <= s.len(),
            forall|i: int| b <= i < s.len() ==> is_ws(#[trigger] s@[i]),
        decreases b,
    {
        b = b - 1;
    }
    proof {
        let t = trim_start_spec(s@);
        assert(t == s@.skip(a as int));
        assert forall|i: int| t.len() - (s.len() - b) <= i < t.len() implies is_ws(#[trigger] t[i]) by {
            assert(t[i] == s@[i + a]);
        }
        if s.len() - b < t.len() {
            assert(t[t.len() - (s.len() - b) - 1] == s@[b - 1]);
        }
        lemma_trail_ws_is(t, (s.len() - b) as int);
        assert(trim_spec(s@) =~= s@.subrange(a as int, b as int));
    }
    chars_range(s, a, b)
}

/// Whether the string is empty after trimming.
pub fn chars_blank(s: &[char]) -> (r: bool)
    ensures
        r == is_blank(s@),
{
    let mut i: usize = 0;
    while i < s.len()
        invariant
            i <= s.len(),
            forall|j: int| 0 <= j < i ==> is_ws(#[trigger] s@[j]),
        decreases s.len() - i,
    {
        if !char_is_ws(s[i]) {
            return false;
        }
        i = i + 1;
    }
    true
}

/// `str::trim` over a string.
pub fn trim_str(s: &str) -> (r: String)
    ensures
        r@ == trim_spec(s@),
{
    let c = chars_of(s);
    let t = trim_chars(c.as_slice());
    string_of(t.as_slice())
}

} // verus!

verus! {

/// The lowercase form of a string as `str::to_lowercase` produces it
/// (Unicode lowercase mapping).
pub uninterp spec fn lowercase(s: Seq<char>) -> Seq<char>;

/// `str::to_lowercase`: the Unicode lowercase of a string. The result is
/// named, not described, save for ASCII text, whose Unicode lowercase is
/// `A`..`Z` mapped to `a`..`z` and every other character kept.
#[verifier::external_body]
pub fn to_lowercase(s: &str) -> (r: String)
    ensures
        r@ == lowercase(s@),
        all_ascii(s@) ==> r@ == s@.map_values(|c: char| ascii_lower(c)),
{
    s.to_lowercase()
}

/// Whether every character of a string is ASCII.
pub open spec fn all_ascii(s: Seq<char>) -> bool {
    forall|i: int| 0 <= i < s.len() ==> (#[trigger] s[i] as u32) < 128
}

/// The ASCII lowercase of a character: `A`..`Z` become `a`..`z`, every
/// other character stays.
pub open spec fn ascii_lower(c: char) -> char {
    if 'A' <= c && c <= 'Z' {
        ((c as u32) + 32) as char
    } else {
        c
    }
}

/// The ASCII uppercase of a character: `a`..`z` become `A`..`Z`, every
/// other character stays.
pub open spec fn ascii_upper(c: char) -> char {
    if 'a' <= c && c <= 'z' {
        ((c as u32) - 32) as char
    } else {
        c
    }
}

/// The uppercase form of a string as `str::to_uppercase` produces it
/// (Unicode uppercase mapping).
pub uninterp spec fn uppercase(s: Seq<char>) -> Seq<char>;

/// `str::to_uppercase`: the Unicode uppercase of a string. The result is
/// named, not described, save for ASCII text, whose Unicode uppercase is
/// `a`..`z` mapped to `A`..`Z` and every other character kept.
#[verifier::external_body]
pub fn to_uppercase(s: &str) -> (r: String)
    ensures
        r@ == uppercase(s@),
        all_ascii(s@) ==> r@ == s@.map_values(|c: char| ascii_upper(c)),
{
    s.to_uppercase()
}

/// `s` with every trailing `c` removed (`str::trim_end_matches(c)`).
pub open spec fn trim_trailing(s: Seq<char>, c: char) -> Seq<char>
    decreases s.len(),
{
    if s.len() > 0 && s.last() == c {
        trim_trailing(s.drop_last(), c)
    } else {
        s
    }
}

/// `s` with every leading `c` removed (`str::trim_start_matches(c)`).
pub open spec fn trim_leading(s: Seq<char>, c: char) -> Seq<char>
    decreases s.len(),
{
    if s.len() > 0 && s[0] == c {
        trim_leading(s.drop_first(), c)
    } else {
        s
    }
}

pub fn trim_trailing_chars(s: &[char], c: char) -> (r: Vec<char>)
    ensures
        r@ == trim_trailing(s@, c),
{
    let mut n: usize = s.len();
    assert(s@.take(n as int) == s@);
    while n > 0 && s[n - 1] == c
        invariant
            n <= s.len(),
            trim_trailing(s@, c) == trim_trailing(s@.take(n as int), c),
        decreases n,
    {
        assert(s@.take(n as int).drop_last() == s@.take(n - 1));
        n = n - 1;
    }
    chars_range(s, 0, n)
}

pub fn trim_leading_chars(s: &[char], c: char) -> (r: Vec<char>)
    ensures
        r@ == trim_leading(s@, c),
{
    let mut a: usize = 0;
    assert(s@.skip(0) == s@);
    while a < s.len() && s[a] == c
        invariant
            a <= s.len(),
            trim_leading(s@, c) == trim_leading(s@.skip(a as int), c),
        decreases s.len() - a,
    {
        assert(s@.skip(a as int).drop_first() == s@.skip(a + 1));
        a = a + 1;
    }
    assert(s@.subrange(a as int, s.len() as int) == s@.skip(a as int));
    chars_range(s, a, s.len())
}

/// The part of `s` after the last `c` (all of `s` when there is none), as
/// `s.rsplit(c).next()` gives it.
pub open spec fn after_last(s: Seq<char>, c: char) -> Seq<char>
    decreases s.len(),
{
    if s.len() == 0 {
        s
    } else if s.last() == c {
        Seq::empty()
    } else {
        after_last(s.drop_last(), c).push(s.last())
    }
}

/// The part of `s` before the first `c` (all of `s` when there is none), as
/// `s.split(c).next()` gives it.
pub open spec fn before_first(s: Seq<char>, c: char) -> Seq<char> {
    match find_elem(s, c) {
        Some(i) => s.take(i),
        None => s,
    }
}

pub proof fn lemma_find_elem<A>(s: Seq<A>, c: A)
    ensures
        find_elem(s, c) matches Some(i) ==> 0 <= i < s.len() && s[i] == c && forall|j: int|
            0 <= j < i ==> s[j] != c,
        find_elem(s, c) is None ==> forall|j: int| 0 <= j < s.len() ==> s[j] != c,
    decreases s.len(),
{
    if s.len() > 0 && s[0] != c {
        lemma_find_elem(s.drop_first(), c);
        assert forall|j: int| 1 <= j < s.len() implies s[j] == s.drop_first()[j - 1] by {}
    }
}

pub proof fn lemma_find_elem_is<A>(s: Seq<A>, c: A, i: int)
    requires
        0 <= i <= s.len(),
        forall|j: int| 0 <= j < i ==> s[j] != c,
        i < s.len() ==> s[i] == c,
    ensures
        i < s.len() ==> find_elem(s, c) == Some(i),
        i == s.len() ==> find_elem(s, c) is None,
{
    lemma_find_elem(s, c);
    if let Some(k) = find_elem(s, c) {
        if k < i {
            assert(s[k] != c);
        }
        if k > i {
            assert(s[i] == c);
        }
    }
}

pub fn before_first_chars(s: &[char], c: char) -> (r: Vec<char>)
    ensures
        r@ == before_first(s@, c),
{
    let mut i: usize = 0;
    while i < s.len() && s[i] != c
        invariant
            i <= s.len(),
            forall|j: int| 0 <= j < i ==> s@[j] != c,
        decreases s.len() - i,
    {
        i = i + 1;
    }
    proof {
        lemma_find_elem_is(s@, c, i as int);
    }
    if i == s.len() {
        assert(s@.subrange(0, i as int) == s@);
    }
    chars_range(s, 0, i)
}

pub proof fn lemma_after_last_split(s: Seq<char>, c: char, k: int)
    requires
        0 <= k <= s.len(),
        forall|j: int| k <= j < s.len() ==> s[j] != c,
        k > 0 ==> s[k - 1] == c,
    ensures
        after_last(s, c) == s.skip(k),
    decreases s.len(),
{
    if s.len() > 0 {
        if k == s.len() {
            assert(s.skip(k) =~= Seq::<char>::empty());
        } else {
            lemma_after_last_split(s.drop_last(), c, k);
            assert(s.drop_last().skip(k).push(s.last()) =~= s.skip(k));
        }
    } else {
        assert(s.skip(k) =~= s);
    }
}

pub fn after_last_chars(s: &[char], c: char) -> (r: Vec<char>)
    ensures
        r@ == after_last(s@, c),
{
    let mut k: usize = s.len();
    while k > 0 && s[k - 1] != c
        invariant
            k <= s.len(),
            forall|j: int| k <= j < s.len() ==> s@[j] != c,
        decreases k,
    {
        k = k - 1;
    }
    proof {
        lemma_after_last_split(s@, c, k as int);
        assert(s@.subrange(k as int, s.len() as int) == s@.skip(k as int));
    }
    chars_range(s, k, s.len())
}

pub open spec fn is_ascii_alpha(c: char) -> bool {
    ('a' <= c && c <= 'z') || ('A' <= c && c <= 'Z')
}

/// `char::is_ascii_alphabetic`.
pub fn char_is_ascii_alpha(c: char) -> (r: bool)
    ensures
        r == is_ascii_alpha(c),
{
    ('a' <= c && c <= 'z') || ('A' <= c && c <= 'Z')
}

pub open spec fn is_ascii_alnum(c: char) -> bool {
    ('0' <= c && c <= '9') || ('a' <= c && c <= 'z') || ('A' <= c && c <= 'Z')
}

/// `char::is_ascii_alphanumeric`.
pub fn char_is_ascii_alnum(c: char) -> (r: bool)
    ensures
        r == is_ascii_alnum(c),
{
    ('0' <= c && c <= '9') || ('a' <= c && c <= 'z') || ('A' <= c && c <= 'Z')
}

} // verus!

verus! {

/// Whether a character is alphanumeric as `char::is_alphanumeric` decides
/// (Unicode `Alphabetic` or `Numeric`).
pub uninterp spec fn alphanumeric(c: char) -> bool;

/// `char::is_alphanumeric`: the result is named, not described, save for
/// ASCII characters, where exactly the letters and digits are alphabetic or
/// numeric.
#[verifier::external_body]
pub fn char_is_alphanumeric(c: char) -> (r: bool)
    ensures
        r == alphanumeric(c),
        (c as u32) < 128 ==> r == is_ascii_alnum(c),
{
    c.is_alphanumeric()
}

/// The views of a list of strings.
pub open spec fn views(v: Seq<String>) -> Seq<Seq<char>> {
    v.map_values(|s: String| s@)
}

/// Whether `v` holds a string equal to `s`.
pub fn contains_string(v: &Vec<String>, s: &[char]) -> (r: bool)
    ensures
        r == views(v@).contains(s@),
{
    let mut k: usize = 0;
    while k < v.len()
        invariant
            k <= v.len(),
            forall|j: int| 0 <= j < k ==> v@[j]@ != s@,
        decreases v.len() - k,
    {
        let c = chars_of(v[k].as_str());
        if chars_eq(c.as_slice(), s) {
            assert(views(v@)[k as int] == s@);
            return true;
        }
        k = k + 1;
    }
    assert forall|j: int| 0 <= j < views(v@).len() implies views(v@)[j] != s@ by {
        assert(views(v@)[j] == v@[j]@);
    }
    false
}

} // verus!

verus! {

/// `str::trim_start` over characters.
pub fn trim_start_chars(s: &[char]) -> (r: Vec<char>)
    ensures
        r@ == trim_start_spec(s@),
{
    let mut a: usize = 0;
    while a < s.len() && char_is_ws(s[a])
        invariant
            a <= s.len(),
            forall|i: int| 0 <= i < a ==> is_ws(#[trigger] s@[i]),
        decreases s.len() - a,
    {
        a = a + 1;
    }
    proof {
        lemma_lead_ws_is(s@, a as int);
    }
    assert(s@.subrange(a as int, s.len() as int) == s@.skip(a as int));
    chars_range(s, a, s.len())
}

/// `str::trim_end` over characters.
pub fn trim_end_chars(s: &[char]) -> (r: Vec<char>)
    ensures
        r@ == trim_end_spec(s@),
{
    let mut b: usize = s.len();
    while b > 0 && char_is_ws(s[b - 1])
        invariant
            b <= s.len(),
            forall|i: int| b <= i < s.len() ==> is_ws(#[trigger] s@[i]),
        decreases b,
    {
        b = b - 1;
    }
    proof {
        lemma_trail_ws_is(s@, (s.len() - b) as int);
    }
    assert(s@.subrange(0, b as int) == s@.take(b as int));
    chars_range(s, 0, b)
}

/// The last position of `c` in `s`.
pub open spec fn last_index_of(s: Seq<char>, c: char) -> Option<int>
    decreases s.len(),
{
    if s.len() == 0 {
        None
    } else if s.last() == c {
        Some(s.len() - 1)
    } else {
        last_index_of(s.drop_last(), c)
    }
}

/// `str::rfind(c)` over the first `end` characters of `s`.
pub fn rfind_before(s: &[char], c: char, end: usize) -> (r: Option<usize>)
    requires
        end <= s.len(),
    ensures
        match r {
            Some(k) => last_index_of(s@.take(end as int), c) == Some(k as int) && k < end,
            None => last_index_of(s@.take(end as int), c) is None,
        },
{
    let mut k: usize = end;
    while k > 0
        invariant
            k <= end <= s.len(),
            last_index_of(s@.take(end as int), c) == last_index_of(s@.take(k as int), c),
        decreases k,
    {
        assert(s@.take(k as int).drop_last() == s@.take(k - 1));
        assert(s@.take(k as int).last() == s@[k - 1]);
        if s[k - 1] == c {
            return Some(k - 1);
        }
        k = k - 1;
    }
    None
}

} // verus!

verus! {

// ---------- numbers as text ----------

pub open spec fn digit_char(d: int) -> char {
    if d == 0 {
        '0'
    } else if d == 1 {
        '1'
    } else if d == 2 {
        '2'
    } else if d == 3 {
        '3'
    } else if d == 4 {
        '4'
    } else if d == 5 {
        '5'
    } else if d == 6 {
        '6'
    } else if d == 7 {
        '7'
    } else if d == 8 {
        '8'
    } else {
        '9'
    }
}

/// The decimal digits of a natural number, without leading zeros.
pub open spec fn decimal(n: nat) -> Seq<char>
    decreases n,
{
    if n < 10 {
        seq![digit_char(n as int)]
    } else {
        decimal(n / 10).push(digit_char((n % 10) as int))
    }
}

/// An integer in decimal, with a `-` when negative.
pub open spec fn signed_decimal(i: int) -> Seq<char> {
    if i < 0 {
        seq!['-'] + decimal((-i) as nat)
    } else {
        decimal(i as nat)
    }
}

fn digit_of(d: u64) -> (c: char)
    requires
        d < 10,
    ensures
        c == digit_char(d as int),
{
    match d {
        0 => '0',
        1 => '1',
        2 => '2',
        3 => '3',
        4 => '4',
        5 => '5',
        6 => '6',
        7 => '7',
        8 => '8',
        _ => '9',
    }
}

fn push_decimal(n: u64, out: &mut Vec<char>)
    ensures
        final(out)@ == old(out)@ + decimal(n as nat),
    decreases n,
{
    if n >= 10 {
        push_decimal(n / 10, out);
    }
    let ghost mid = out@;
    out.push(digit_of(n % 10));
    proof {
        if n >= 10 {
            assert(decimal(n as nat) == decimal((n / 10) as nat).push(digit_char((n % 10) as int)));
        } else {
            assert(decimal(n as nat) == seq![digit_char(n as int)]);
        }
    }
}

/// A number in decimal.
pub fn u64_to_string(n: u64) -> (r: String)
    ensures
        r@ == decimal(n as nat),
{
    let mut v: Vec<char> = Vec::new();
    push_decimal(n, &mut v);
    assert(v@ =~= decimal(n as nat));
    string_of(v.as_slice())
}

/// An integer in decimal, with a `-` when negative.
pub fn i64_to_string(i: i64) -> (r: String)
    ensures
        r@ == signed_decimal(i as int),
{
    let mut v: Vec<char> = Vec::new();
    if i < 0 {
        v.push('-');
        let m: u64 = (-(i as i128)) as u64;
        push_decimal(m, &mut v);
    } else {
        push_decimal(i as u64, &mut v);
    }
    string_of(v.as_slice())
}

} // verus!

verus! {

// ---------- lines ----------

/// Lines joined with a separator.
pub open spec fn joined(lines: Seq<Seq<char>>, sep: Seq<char>) -> Seq<char>
    decreases lines.len(),
{
    if lines.len() == 0 {
        Seq::empty()
    } else if lines.len() == 1 {
        lines[0]
    } else {
        joined(lines.drop_last(), sep) + sep + lines.last()
    }
}

/// Joins strings with a separator (`[String]::join`).
pub fn join_strings(v: &Vec<String>, sep: &str) -> (r: String)
    ensures
        r@ == joined(views(v@), sep@),
{
    let mut out: Vec<char> = Vec::new();
    let sc = chars_of(sep);
    let mut i: usize = 0;
    while i < v.len()
        invariant
            i <= v.len(),
            sc@ == sep@,
            out@ == joined(views(v@).take(i as int), sep@),
        decreases v.len() - i,
    {
        let ghost pre = views(v@).take(i + 1);
        assert(pre.drop_last() == views(v@).take(i as int));
        assert(pre.last() == v@[i as int]@);
        if i > 0 {
            let mut k: usize = 0;
            let ghost base = out@;
            while k < sc.len()
                invariant
                    k <= sc.len(),
                    out@ == base + sc@.take(k as int),
                decreases sc.len() - k,
            {
                out.push(sc[k]);
                k = k + 1;
                assert(out@ == base + sc@.take(k as int));
            }
            assert(sc@.take(sc.len() as int) == sc@);
        } else {
            assert(out@.len() == 0);
        }
        let lc = chars_of(v[i].as_str());
        let mut k: usize = 0;
        let ghost base2 = out@;
        while k < lc.len()
            invariant
                k <= lc.len(),
                out@ == base2 + lc@.take(k as int),
            decreases lc.len() - k,
        {
            out.push(lc[k]);
            k = k + 1;
            assert(out@ == base2 + lc@.take(k as int));
        }
        assert(lc@.take(lc.len() as int) == lc@);
        if i == 0 {
            assert(out@ =~= pre[0]);
        }
        i = i + 1;
    }
    assert(views(v@).take(v.len() as int) == views(v@));
    string_of(out.as_slice())
}

/// A line without the `\r` of a `\r\n` ending.
pub open spec fn strip_cr(l: Seq<char>) -> Seq<char> {
    if l.len() > 0 && l.last() == '\r' {
        l.drop_last()
    } else {
        l
    }
}

/// The lines of a text as `str::lines` gives them: split at `\n` (a `\r`
/// before it dropped), no empty last line after a final `\n`.
pub open spec fn lines_of(s: Seq<char>) -> Seq<Seq<char>>
    decreases s.len(),
{
    if s.len() == 0 {
        Seq::empty()
    } else {
        match find_elem(s, '\n') {
            None => seq![s],
            Some(i) => {
                proof {
                    lemma_find_elem(s, '\n');
                }
                seq![strip_cr(s.take(i))] + lines_of(s.skip(i + 1))
            },
        }
    }
}

/// Splits a text into lines (see `lines_of`).
pub fn split_lines(s: &str) -> (r: Vec<String>)
    ensures
        views(r@) == lines_of(s@),
{
    let c = chars_of(s);
    let mut out: Vec<String> = Vec::new();
    let mut p: usize = 0;
    assert(c@.skip(0) == c@);
    while p < c.len()
        invariant
            p <= c.len(),
            c@ == s@,
            lines_of(s@) == views(out@) + lines_of(c@.skip(p as int)),
        decreases c.len() - p,
    {
        let ghost rest = c@.skip(p as int);
        let mut q: usize = p;
        while q < c.len() && c[q] != '\n'
            invariant
                p <= q <= c.len(),
                forall|j: int| p <= j < q ==> c@[j] != '\n',
            decreases c.len() - q,
        {
            q = q + 1;
        }
        proof {
            assert forall|j: int| 0 <= j < q - p implies rest[j] != '\n' by {
                assert(rest[j] == c@[p + j]);
            }
            if q < c.len() {
                assert(rest[q - p] == c@[q as int]);
            }
            lemma_find_elem_is(rest, '\n', q - p);
        }
        let ghost before = out@;
        if q == c.len() {
            let line = chars_range(c.as_slice(), p, q);
            assert(line@ == rest);
            out.push(string_of(line.as_slice()));
            assert(views(out@) =~= views(before).push(rest));
            assert(lines_of(rest) == seq![rest]);
            assert(c@.skip(q as int).len() == 0);
            assert(lines_of(c@.skip(q as int)) =~= Seq::<Seq<char>>::empty());
            assert(views(out@) + lines_of(c@.skip(q as int)) =~= views(before) + lines_of(rest));
            p = q;
        } else {
            let end = if q > p && c[q - 1] == '\r' {
                q - 1
            } else {
                q
            };
            let line = chars_range(c.as_slice(), p, end);
            assert(line@ == strip_cr(rest.take(q - p)));
            out.push(string_of(line.as_slice()));
            assert(rest.skip((q - p) + 1) =~= c@.skip(q + 1));
            assert(views(out@) + lines_of(c@.skip(q + 1)) =~= views(before) + lines_of(rest));
            p = q + 1;
        }
    }
    assert(c@.skip(p as int).len() == 0);
    assert(lines_of(c@.skip(p as int)) =~= Seq::<Seq<char>>::empty());
    assert(views(out@) + Seq::<Seq<char>>::empty() =~= views(out@));
    out
}

} // verus!

verus! {

// ---------- ordering strings ----------

/// The order of `String`s: character by character by code point (the
/// order of their UTF-8 bytes), a prefix first.
pub open spec fn lex_le(a: Seq<char>, b: Seq<char>) -> bool
    decreases a.len(),
{
    if a.len() == 0 {
        true
    } else if b.len() == 0 {
        false
    } else if (a[0] as u32) < (b[0] as u32) {
        true
    } else if (a[0] as u32) > (b[0] as u32) {
        false
    } else {
        lex_le(a.drop_first(), b.drop_first())
    }
}

pub proof fn lemma_lex_total(a: Seq<char>, b: Seq<char>)
    ensures
        lex_le(a, b) || lex_le(b, a),
    decreases a.len(),
{
    if a.len() > 0 && b.len() > 0 && a[0] as u32 == b[0] as u32 {
        lemma_lex_total(a.drop_first(), b.drop_first());
    }
}

pub proof fn lemma_lex_trans(a: Seq<char>, b: Seq<char>, c: Seq<char>)
    requires
        lex_le(a, b),
        lex_le(b, c),
    ensures
        lex_le(a, c),
    decreases a.len(),
{
    if a.len() > 0 && b.len() > 0 && c.len() > 0 && a[0] as u32 == b[0] as u32 && b[0] as u32 == c[0] as u32 {
        lemma_lex_trans(a.drop_first(), b.drop_first(), c.drop_first());
    }
}

pub open spec fn sorted_lex(s: Seq<Seq<char>>) -> bool {
    forall|i: int, j: int| 0 <= i < j < s.len() ==> lex_le(#[trigger] s[i], #[trigger] s[j])
}

/// Compares two strings in `String` order (see `lex_le`).
pub fn chars_lex_le(a: &[char], b: &[char]) -> (r: bool)
    ensures
        r == lex_le(a@, b@),
{
    let mut i: usize = 0;
    assert(a@.skip(0) == a@ && b@.skip(0) == b@);
    while i < a.len() && i < b.len() && (a[i] as u32) == (b[i] as u32)
        invariant
            i <= a.len(),
            i <= b.len(),
            lex_le(a@, b@) == lex_le(a@.skip(i as int), b@.skip(i as int)),
        decreases a.len() - i,
    {
        assert(a@.skip(i as int).drop_first() =~= a@.skip(i + 1));
        assert(b@.skip(i as int).drop_first() =~= b@.skip(i + 1));
        i = i + 1;
    }
    assert(a@.skip(i as int).len() == a.len() - i);
    if i == a.len() {
        return true;
    }
    if i == b.len() {
        return false;
    }
    assert(a@.skip(i as int)[0] == a@[i as int] && b@.skip(i as int)[0] == b@[i as int]);
    (a[i] as u32) < (b[i] as u32)
}

/// Sorts strings in `String` order; the result holds the same strings.
pub fn sort_strings(v: Vec<String>) -> (r: Vec<String>)
    ensures
        views(r@).to_multiset() == views(v@).to_multiset(),
        sorted_lex(views(r@)),
{
    let ghost all = views(v@);
    let mut out: Vec<String> = Vec::new();
    let mut rest = v;
    let mut i: usize = 0;
    assert(all.len() == rest.len());
    assert(views(rest@) =~= all.skip(0));
    assert(views(out@) =~= all.take(0));
    while rest.len() > 0
        invariant
            i + rest.len() == all.len(),
            all.len() <= usize::MAX,
            views(rest@) == all.skip(i as int),
            views(out@).to_multiset() == all.take(i as int).to_multiset(),
            sorted_lex(views(out@)),
        decreases rest.len(),
    {
        let ghost before_rest = rest@;
        let x = rest.remove(0);
        assert(views(before_rest)[0] == x@);
        assert(x@ == all[i as int]);
        assert(views(rest@) =~= views(before_rest).drop_first());
        assert(all.skip(i as int).drop_first() =~= all.skip(i + 1));
        let xc = chars_of(x.as_str());
        let mut j: usize = 0;
        while j < out.len() && chars_lex_le(chars_of(out[j].as_str()).as_slice(), xc.as_slice())
            invariant
                j <= out.len(),
                xc@ == x@,
                forall|k: int| 0 <= k < j ==> lex_le(#[trigger] views(out@)[k], x@),
            decreases out.len() - j,
        {
            j = j + 1;
        }
        let ghost o = views(out@);
        proof {
            if j < out.len() {
                assert(!lex_le(o[j as int], x@));
                lemma_lex_total(o[j as int], x@);
            }
        }
        let ghost before_out = out@;
        out.insert(j, x);
        assert(views(out@) =~= o.insert(j as int, all[i as int]));
        proof {
            vstd::seq_lib::to_multiset_insert(o, j as int, all[i as int]);
            assert(all.take(i + 1) =~= all.take(i as int).push(all[i as int]));
            vstd::seq_lib::to_multiset_build(all.take(i as int), all[i as int]);
            let n = views(out@);
            assert forall|a: int, b: int| 0 <= a < b < n.len() implies lex_le(#[trigger] n[a], #[trigger] n[b]) by {
                if b < j {
                    assert(n[a] == o[a] && n[b] == o[b]);
                } else if b == j {
                    assert(n[a] == o[a]);
                } else if a == j {
                    assert(n[b] == o[b - 1]);
                    if b - 1 > j {
                        lemma_lex_trans(x@, o[j as int], o[b - 1]);
                    }
                } else if a < j {
                    assert(n[a] == o[a] && n[b] == o[b - 1]);
                    if b - 1 >= j && j < o.len() {
                        lemma_lex_trans(o[a], x@, o[j as int]);
                        if b - 1 > j {
                            lemma_lex_trans(o[a], o[j as int], o[b - 1]);
                        }
                    }
                } else {
                    assert(n[a] == o[a - 1] && n[b] == o[b - 1]);
                }
            }
        }
        i = i + 1;
    }
    assert(all.take(all.len() as int) =~= all);
    out
}

} // verus!
