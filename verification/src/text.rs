//! Searching and slicing of text, modelled on sequences of characters.
//!
//! A `&str` is viewed as its `Seq<char>`; every index here counts characters,
//! which for the searches below gives the same pieces as the byte offsets that
//! `str::find` and `str::split_once` use.

use vstd::prelude::*;

verus! {

/// `pat` occurs in `s` at index `i`.
pub open spec fn occurs_at<A>(s: Seq<A>, pat: Seq<A>, i: int) -> bool {
    &&& 0 <= i
    &&& i + pat.len() <= s.len()
    &&& s.subrange(i, i + pat.len()) =~= pat
}

/// The first index, not before `from`, at which `pat` occurs in `s`.
pub open spec fn find_from<A>(s: Seq<A>, pat: Seq<A>, from: int) -> Option<int>
    decreases s.len() + 1 - from,
{
    if from < 0 || from + pat.len() > s.len() {
        None
    } else if occurs_at(s, pat, from) {
        Some(from)
    } else {
        find_from(s, pat, from + 1)
    }
}

/// The first index at which `pat` occurs in `s`.
pub open spec fn find<A>(s: Seq<A>, pat: Seq<A>) -> Option<int> {
    find_from(s, pat, 0)
}

/// `s` contains `pat` somewhere.
pub open spec fn contains_seq<A>(s: Seq<A>, pat: Seq<A>) -> bool {
    find(s, pat) is Some
}

/// The parts before and after the first `sep`, as `str::split_once` gives them.
pub open spec fn split_once<A>(s: Seq<A>, sep: A) -> Option<(Seq<A>, Seq<A>)> {
    match find(s, seq![sep]) {
        Some(i) => Some((s.take(i), s.skip(i + 1))),
        None => None,
    }
}

/// `s` starts with `pat`.
pub open spec fn starts_with<A>(s: Seq<A>, pat: Seq<A>) -> bool {
    pat.len() <= s.len() && s.take(pat.len() as int) =~= pat
}

/// `s` ends with `pat`.
pub open spec fn ends_with<A>(s: Seq<A>, pat: Seq<A>) -> bool {
    pat.len() <= s.len() && s.skip(s.len() - pat.len()) =~= pat
}

/// What `find_from` gives: the first occurrence not before `from`.
pub proof fn lemma_find_from<A>(s: Seq<A>, pat: Seq<A>, from: int)
    requires
        0 <= from,
    ensures
        match find_from(s, pat, from) {
            Some(k) => {
                &&& from <= k
                &&& occurs_at(s, pat, k)
                &&& forall|j: int| from <= j < k ==> !occurs_at(s, pat, j)
            },
            None => forall|j: int| from <= j ==> !occurs_at(s, pat, j),
        },
    decreases s.len() + 1 - from,
{
    if from + pat.len() > s.len() {
    } else if occurs_at(s, pat, from) {
    } else {
        lemma_find_from(s, pat, from + 1);
    }
}

/// The characters of `s`, one per element.
pub fn chars_of(s: &str) -> (v: Vec<char>)
    ensures
        v@ == s@,
{
    let n = s.unicode_len();
    let mut v: Vec<char> = Vec::new();
    let mut i: usize = 0;
    while i < n
        invariant
            n == s@.len(),
            i <= n,
            v@ =~= s@.take(i as int),
        decreases n - i,
    {
        v.push(s.get_char(i));
        i = i + 1;
    }
    v
}

/// Whether `pat` occurs in `s` at index `i`.
pub fn chars_occur_at(s: &Vec<char>, pat: &Vec<char>, i: usize) -> (res: bool)
    ensures
        res == occurs_at(s@, pat@, i as int),
{
    if i > s.len() || pat.len() > s.len() - i {
        return false;
    }
    let mut j: usize = 0;
    while j < pat.len()
        invariant
            i + pat@.len() <= s@.len(),
            s@.len() <= usize::MAX,
            j <= pat@.len(),
            forall|k: int| 0 <= k < j ==> s@[i + k] == pat@[k],
        decreases pat.len() - j,
    {
        if s[i + j] != pat[j] {
            assert(s@.subrange(i as int, i + pat@.len())[j as int] != pat@[j as int]);
            return false;
        }
        j = j + 1;
    }
    assert(s@.subrange(i as int, i + pat@.len()) =~= pat@);
    true
}

/// The first index, not before `from`, at which `pat` occurs in `s`.
pub fn chars_find_from(s: &Vec<char>, pat: &Vec<char>, from: usize) -> (res: Option<usize>)
    ensures
        match res {
            Some(k) => find_from(s@, pat@, from as int) == Some(k as int),
            None => find_from(s@, pat@, from as int) is None,
        },
{
    let mut i = from;
    while i <= s.len() && pat.len() <= s.len() - i
        invariant
            find_from(s@, pat@, from as int) == find_from(s@, pat@, i as int),
        decreases s.len() + 1 - i,
    {
        if chars_occur_at(s, pat, i) {
            return Some(i);
        }
        i = i + 1;
    }
    None
}

/// The first index at which `pat` occurs in `s`.
pub fn chars_find(s: &Vec<char>, pat: &Vec<char>) -> (res: Option<usize>)
    ensures
        match res {
            Some(k) => find(s@, pat@) == Some(k as int),
            None => find(s@, pat@) is None,
        },
{
    chars_find_from(s, pat, 0)
}

/// The first index at which `c` occurs in `s`.
pub fn chars_find_char(s: &Vec<char>, c: char) -> (res: Option<usize>)
    ensures
        match res {
            Some(k) => find(s@, seq![c]) == Some(k as int),
            None => find(s@, seq![c]) is None,
        },
{
    let pat = vec![c];
    assert(pat@ =~= seq![c]);
    chars_find(s, &pat)
}

/// Whether `s` starts with `pat`.
pub fn chars_starts_with(s: &Vec<char>, pat: &Vec<char>) -> (res: bool)
    ensures
        res == starts_with(s@, pat@),
{
    let res = chars_occur_at(s, pat, 0);
    assert(res ==> s@.take(pat@.len() as int) =~= s@.subrange(0, pat@.len() as int));
    assert(starts_with(s@, pat@) ==> s@.subrange(0, pat@.len() as int) =~= s@.take(
        pat@.len() as int,
    ));
    res
}

/// Whether `s` ends with `pat`.
pub fn chars_ends_with(s: &Vec<char>, pat: &Vec<char>) -> (res: bool)
    ensures
        res == ends_with(s@, pat@),
{
    if pat.len() > s.len() {
        return false;
    }
    let start = s.len() - pat.len();
    let res = chars_occur_at(s, pat, start);
    assert(s@.skip(start as int) =~= s@.subrange(start as int, start + pat@.len()));
    res
}

/// Whether text `s` starts with text `pat`.
pub fn text_starts_with(s: &str, pat: &str) -> (res: bool)
    ensures
        res == starts_with(s@, pat@),
{
    chars_starts_with(&chars_of(s), &chars_of(pat))
}

/// Whether text `s` ends with text `pat`.
pub fn text_ends_with(s: &str, pat: &str) -> (res: bool)
    ensures
        res == ends_with(s@, pat@),
{
    chars_ends_with(&chars_of(s), &chars_of(pat))
}

/// The first index at which text `pat` occurs in text `s`.
pub fn text_find(s: &str, pat: &str) -> (res: Option<usize>)
    ensures
        match res {
            Some(k) => find(s@, pat@) == Some(k as int),
            None => find(s@, pat@) is None,
        },
{
    chars_find(&chars_of(s), &chars_of(pat))
}

/// Whether `c` occurs in text `s`.
pub fn text_contains_char(s: &str, c: char) -> (res: bool)
    ensures
        res == (find(s@, seq![c]) is Some),
{
    chars_find_char(&chars_of(s), c).is_some()
}

/// `str::split_once` with a character separator.
pub fn text_split_once<'a>(s: &'a str, sep: char) -> (res: Option<(&'a str, &'a str)>)
    ensures
        match res {
            Some((before, after)) => split_once(s@, sep) == Some((before@, after@)),
            None => split_once(s@, sep) is None,
        },
{
    let v = chars_of(s);
    match chars_find_char(&v, sep) {
        Some(i) => {
            proof {
                lemma_find_from(v@, seq![sep], 0);
                assert(occurs_at(v@, seq![sep], i as int));
            }
            let before = s.substring_char(0, i);
            let after = s.substring_char(i + 1, v.len());
            assert(before@ =~= s@.take(i as int));
            assert(after@ =~= s@.skip(i + 1));
            Some((before, after))
        },
        None => None,
    }
}

/// `a`, `b` and `c` one after the other.
pub fn concat3(a: &str, b: &str, c: &str) -> (res: String)
    ensures
        res@ == a@ + b@ + c@,
{
    let mut out = String::from_str(a);
    out.append(b);
    out.append(c);
    out
}

/// `a` to `e` one after the other.
pub fn concat5(a: &str, b: &str, c: &str, d: &str, e: &str) -> (res: String)
    ensures
        res@ == a@ + b@ + c@ + d@ + e@,
{
    let mut out = String::from_str(a);
    out.append(b);
    out.append(c);
    out.append(d);
    out.append(e);
    out
}

/// Two texts are equal.
pub fn text_eq(a: &str, b: &str) -> (res: bool)
    ensures
        res == (a@ == b@),
{
    a.to_owned() == b.to_owned()
}

/// The characters that Unicode gives the `White_Space` property, which is
/// what `char::is_whitespace` tests.
pub open spec fn is_white_space(c: char) -> bool {
    ||| '\t' <= c <= '\r'
    ||| c == ' '
    ||| c == '\u{85}'
    ||| c == '\u{a0}'
    ||| c == '\u{1680}'
    ||| '\u{2000}' <= c <= '\u{200a}'
    ||| c == '\u{2028}'
    ||| c == '\u{2029}'
    ||| c == '\u{202f}'
    ||| c == '\u{205f}'
    ||| c == '\u{3000}'
}

/// `s` without its leading white space.
pub open spec fn trim_start(s: Seq<char>) -> Seq<char>
    decreases s.len(),
{
    if s.len() > 0 && is_white_space(s[0]) {
        trim_start(s.drop_first())
    } else {
        s
    }
}

/// `s` without its trailing white space.
pub open spec fn trim_end(s: Seq<char>) -> Seq<char>
    decreases s.len(),
{
    if s.len() > 0 && is_white_space(s.last()) {
        trim_end(s.drop_last())
    } else {
        s
    }
}

/// `s` without leading and trailing white space, as `str::trim` gives it.
pub open spec fn trim(s: Seq<char>) -> Seq<char> {
    trim_end(trim_start(s))
}

/// Whether `c` is white space.
pub fn is_white_space_char(c: char) -> (res: bool)
    ensures
        res == is_white_space(c),
{
    ('\t' <= c && c <= '\r') || c == ' ' || c == '\u{85}' || c == '\u{a0}' || c == '\u{1680}'
        || ('\u{2000}' <= c && c <= '\u{200a}') || c == '\u{2028}' || c == '\u{2029}'
        || c == '\u{202f}' || c == '\u{205f}' || c == '\u{3000}'
}

/// `s` without leading and trailing white space.
pub fn trim_white_space(s: &str) -> (res: &str)
    ensures
        res@ == trim(s@),
{
    let v = chars_of(s);
    let mut i: usize = 0;
    assert(v@.skip(0) =~= v@);
    while i < v.len() && is_white_space_char(v[i])
        invariant
            i <= v@.len(),
            trim_start(v@) == trim_start(v@.skip(i as int)),
        decreases v.len() - i,
    {
        assert(v@.skip(i as int).drop_first() =~= v@.skip(i + 1));
        i = i + 1;
    }
    assert(trim_start(v@) == v@.skip(i as int));
    let mut j: usize = v.len();
    assert(v@.subrange(i as int, j as int) =~= v@.skip(i as int));
    while j > i && is_white_space_char(v[j - 1])
        invariant
            i <= j <= v@.len(),
            trim(v@) == trim_end(v@.subrange(i as int, j as int)),
        decreases j,
    {
        assert(v@.subrange(i as int, j as int).drop_last() =~= v@.subrange(i as int, j - 1));
        j = j - 1;
    }
    s.substring_char(i, j)
}

} // verus!
