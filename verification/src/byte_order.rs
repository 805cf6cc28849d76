//! The order std gives byte strings (`[u8]`, `OsStr`, and so the file names
//! of one directory as `PathBuf`s compare them): lexicographic by unsigned
//! byte, a proper prefix coming first.

use vstd::multiset::Multiset;
use vstd::prelude::*;

verus! {

/// `a` comes no later than `b`.
pub open spec fn lex_le(a: Seq<u8>, b: Seq<u8>) -> bool
    decreases a.len(),
{
    if a.len() == 0 {
        true
    } else if b.len() == 0 {
        false
    } else if a[0] != b[0] {
        a[0] < b[0]
    } else {
        lex_le(a.drop_first(), b.drop_first())
    }
}

/// Every byte string comes no later than itself.
pub proof fn lemma_lex_le_reflexive(a: Seq<u8>)
    ensures
        lex_le(a, a),
    decreases a.len(),
{
    if a.len() > 0 {
        lemma_lex_le_reflexive(a.drop_first());
    }
}

/// Any two byte strings are ordered one way or the other.
pub proof fn lemma_lex_le_total(a: Seq<u8>, b: Seq<u8>)
    ensures
        lex_le(a, b) || lex_le(b, a),
    decreases a.len(),
{
    if a.len() > 0 && b.len() > 0 && a[0] == b[0] {
        lemma_lex_le_total(a.drop_first(), b.drop_first());
    }
}

/// Two byte strings that each come no later than the other are equal.
pub proof fn lemma_lex_le_antisymmetric(a: Seq<u8>, b: Seq<u8>)
    requires
        lex_le(a, b),
        lex_le(b, a),
    ensures
        a == b,
    decreases a.len(),
{
    if a.len() > 0 && b.len() > 0 {
        lemma_lex_le_antisymmetric(a.drop_first(), b.drop_first());
        assert(a =~= seq![a[0]] + a.drop_first());
        assert(b =~= seq![b[0]] + b.drop_first());
    }
}

/// The order is transitive.
pub proof fn lemma_lex_le_transitive(a: Seq<u8>, b: Seq<u8>, c: Seq<u8>)
    requires
        lex_le(a, b),
        lex_le(b, c),
    ensures
        lex_le(a, c),
    decreases a.len(),
{
    if a.len() > 0 && b.len() > 0 && c.len() > 0 && a[0] == b[0] && b[0] == c[0] {
        lemma_lex_le_transitive(a.drop_first(), b.drop_first(), c.drop_first());
    }
}

/// Each element comes no later than every element after it.
pub open spec fn is_sorted(s: Seq<Seq<u8>>) -> bool {
    forall|i: int, j: int| 0 <= i < j < s.len() ==> lex_le(#[trigger] s[i], #[trigger] s[j])
}

/// A sorted arrangement of a multiset of byte strings is the only one:
/// two sorted sequences with the same elements are equal.
pub proof fn lemma_sorted_arrangement_unique(s: Seq<Seq<u8>>, t: Seq<Seq<u8>>)
    requires
        is_sorted(s),
        is_sorted(t),
        s.to_multiset() == t.to_multiset(),
    ensures
        s == t,
    decreases s.len(),
{
    broadcast use vstd::seq_lib::group_to_multiset_ensures;

    vstd::seq_lib::to_multiset_len(s);
    vstd::seq_lib::to_multiset_len(t);
    assert(s.len() == t.len());
    if s.len() == 0 {
        assert(s =~= t);
    } else {
        assert(s.to_multiset().count(s[0]) > 0);
        assert(t.contains(s[0]));
        let j = choose|j: int| 0 <= j < t.len() && t[j] == s[0];
        assert(s.to_multiset().count(t[0]) > 0);
        assert(s.contains(t[0]));
        let i = choose|i: int| 0 <= i < s.len() && s[i] == t[0];
        if j > 0 {
            assert(lex_le(t[0], t[j]));
        } else {
            lemma_lex_le_reflexive(t[0]);
        }
        if i > 0 {
            assert(lex_le(s[0], s[i]));
        } else {
            lemma_lex_le_reflexive(s[0]);
        }
        lemma_lex_le_antisymmetric(s[0], t[0]);
        assert(s.remove(0) =~= s.drop_first());
        assert(t.remove(0) =~= t.drop_first());
        assert(s.drop_first().to_multiset() == s.to_multiset().remove(s[0]));
        assert(t.drop_first().to_multiset() == t.to_multiset().remove(t[0]));
        assert forall|a: int, b: int| 0 <= a < b < s.drop_first().len() implies lex_le(
            #[trigger] s.drop_first()[a],
            #[trigger] s.drop_first()[b],
        ) by {
            assert(lex_le(s[a + 1], s[b + 1]));
        }
        assert forall|a: int, b: int| 0 <= a < b < t.drop_first().len() implies lex_le(
            #[trigger] t.drop_first()[a],
            #[trigger] t.drop_first()[b],
        ) by {
            assert(lex_le(t[a + 1], t[b + 1]));
        }
        lemma_sorted_arrangement_unique(s.drop_first(), t.drop_first());
        assert(s =~= seq![s[0]] + s.drop_first());
        assert(t =~= seq![t[0]] + t.drop_first());
    }
}

/// Where `x` goes in `sorted`: before the first element it comes no later
/// than.
pub open spec fn insertion_point(sorted: Seq<Seq<u8>>, x: Seq<u8>) -> int
    decreases sorted.len(),
{
    if sorted.len() == 0 {
        0
    } else if lex_le(x, sorted[0]) {
        0
    } else {
        1 + insertion_point(sorted.drop_first(), x)
    }
}

proof fn lemma_insertion_point(sorted: Seq<Seq<u8>>, x: Seq<u8>)
    ensures
        0 <= insertion_point(sorted, x) <= sorted.len(),
        forall|i: int| 0 <= i < insertion_point(sorted, x) ==> !lex_le(x, #[trigger] sorted[i]),
        insertion_point(sorted, x) < sorted.len() ==> lex_le(x, sorted[insertion_point(sorted, x)]),
    decreases sorted.len(),
{
    if sorted.len() > 0 && !lex_le(x, sorted[0]) {
        lemma_insertion_point(sorted.drop_first(), x);
        assert forall|i: int| 0 <= i < insertion_point(sorted, x) implies !lex_le(x, #[trigger] sorted[i]) by {
            if i > 0 {
                assert(sorted[i] == sorted.drop_first()[i - 1]);
            }
        }
    }
}

/// Every sequence of byte strings has a sorted arrangement.
pub proof fn lemma_sorted_arrangement_exists(s: Seq<Seq<u8>>)
    ensures
        exists|t: Seq<Seq<u8>>| is_sorted(t) && t.to_multiset() == s.to_multiset(),
    decreases s.len(),
{
    if s.len() == 0 {
        assert(is_sorted(s) && s.to_multiset() == s.to_multiset());
    } else {
        let init = s.drop_last();
        let x = s.last();
        lemma_sorted_arrangement_exists(init);
        let t = choose|t: Seq<Seq<u8>>| is_sorted(t) && t.to_multiset() == init.to_multiset();
        let k = insertion_point(t, x);
        lemma_insertion_point(t, x);
        let u = t.insert(k, x);
        assert forall|i: int, j: int| 0 <= i < j < u.len() implies lex_le(#[trigger] u[i], #[trigger] u[j]) by {
            if j < k {
                assert(lex_le(t[i], t[j]));
            } else if j == k {
                assert(!lex_le(x, t[i]));
                lemma_lex_le_total(x, t[i]);
            } else if i < k {
                assert(!lex_le(x, t[i]));
                lemma_lex_le_total(x, t[i]);
                if j - 1 == k {
                    assert(lex_le(x, t[k]));
                } else {
                    assert(lex_le(t[k], t[j - 1]));
                    lemma_lex_le_transitive(x, t[k], t[j - 1]);
                }
                lemma_lex_le_transitive(t[i], x, t[j - 1]);
            } else if i == k {
                if j - 1 == k {
                    assert(lex_le(x, t[k]));
                } else {
                    assert(lex_le(t[k], t[j - 1]));
                    lemma_lex_le_transitive(x, t[k], t[j - 1]);
                }
            } else {
                assert(lex_le(t[i - 1], t[j - 1]));
            }
        }
        vstd::seq_lib::to_multiset_insert(t, k, x);
        vstd::seq_lib::to_multiset_build(init, x);
        assert(init.push(x) =~= s);
        assert(is_sorted(u) && u.to_multiset() == s.to_multiset());
    }
}

/// Whether `a` comes no later than `b`.
pub fn bytes_le(a: &[u8], b: &[u8]) -> (res: bool)
    ensures
        res == lex_le(a@, b@),
{
    let mut i: usize = 0;
    assert(a@.skip(0) =~= a@);
    assert(b@.skip(0) =~= b@);
    while i < a.len() && i < b.len()
        invariant
            i <= a@.len(),
            i <= b@.len(),
            lex_le(a@, b@) == lex_le(a@.skip(i as int), b@.skip(i as int)),
        decreases a.len() - i,
    {
        if a[i] != b[i] {
            assert(a@.skip(i as int)[0] == a@[i as int]);
            assert(b@.skip(i as int)[0] == b@[i as int]);
            return a[i] < b[i];
        }
        assert(a@.skip(i as int).drop_first() =~= a@.skip(i + 1));
        assert(b@.skip(i as int).drop_first() =~= b@.skip(i + 1));
        i = i + 1;
    }
    i == a.len()
}

/// `items` in ascending order.
pub fn sort_bytes(items: Vec<Vec<u8>>) -> (res: Vec<Vec<u8>>)
    ensures
        is_sorted(res.deep_view()),
        res.deep_view().to_multiset() == items.deep_view().to_multiset(),
{
    broadcast use vstd::seq_lib::group_to_multiset_ensures;

    let mut rest = items;
    let mut out: Vec<Vec<u8>> = Vec::new();
    while rest.len() > 0
        invariant
            is_sorted(out.deep_view()),
            forall|a: int, b: int|
                0 <= a < out.deep_view().len() && 0 <= b < rest.deep_view().len() ==> lex_le(
                    #[trigger] out.deep_view()[a],
                    #[trigger] rest.deep_view()[b],
                ),
            out.deep_view().to_multiset().add(rest.deep_view().to_multiset())
                == items.deep_view().to_multiset(),
        decreases rest.len(),
    {
        let mut least: usize = 0;
        let mut k: usize = 1;
        proof {
            lemma_lex_le_reflexive(rest.deep_view()[0]);
        }
        while k < rest.len()
            invariant
                0 <= least < rest.len(),
                1 <= k <= rest.len(),
                forall|b: int| 0 <= b < k ==> lex_le(rest.deep_view()[least as int], #[trigger] rest.deep_view()[b]),
            decreases rest.len() - k,
        {
            assert(rest.deep_view()[least as int] == rest@[least as int]@);
            assert(rest.deep_view()[k as int] == rest@[k as int]@);
            if !bytes_le(rest[least].as_slice(), rest[k].as_slice()) {
                proof {
                    lemma_lex_le_total(rest.deep_view()[least as int], rest.deep_view()[k as int]);
                    assert forall|b: int| 0 <= b < k + 1 implies lex_le(
                        rest.deep_view()[k as int],
                        #[trigger] rest.deep_view()[b],
                    ) by {
                        if b < k {
                            lemma_lex_le_transitive(
                                rest.deep_view()[k as int],
                                rest.deep_view()[least as int],
                                rest.deep_view()[b],
                            );
                        } else {
                            lemma_lex_le_reflexive(rest.deep_view()[k as int]);
                        }
                    }
                }
                least = k;
            } else {
                proof {
                    lemma_lex_le_reflexive(rest.deep_view()[least as int]);
                }
            }
            k = k + 1;
        }
        proof {
            lemma_lex_le_reflexive(rest.deep_view()[least as int]);
        }
        let ghost before_rest = rest.deep_view();
        assert(before_rest.len() == rest.len());
        let ghost before_out = out.deep_view();
        let smallest = rest.remove(least);
        assert(rest.deep_view() =~= before_rest.remove(least as int));
        assert(smallest@ == before_rest[least as int]);
        out.push(smallest);
        assert(out.deep_view() =~= before_out.push(before_rest[least as int]));
        proof {
            vstd::seq_lib::to_multiset_remove(before_rest, least as int);
            vstd::seq_lib::to_multiset_build(before_out, before_rest[least as int]);
            vstd::seq_lib::to_multiset_contains(before_rest, before_rest[least as int]);
            assert(before_rest.contains(before_rest[least as int]));
        }
        assert(out.deep_view().to_multiset().add(rest.deep_view().to_multiset())
            =~= before_out.to_multiset().add(before_rest.to_multiset())) by {
            broadcast use vstd::multiset::group_multiset_axioms;
        }
        assert forall|a: int, b: int| 0 <= a < b < out.deep_view().len() implies lex_le(
            #[trigger] out.deep_view()[a],
            #[trigger] out.deep_view()[b],
        ) by {
            if b == before_out.len() {
                assert(lex_le(before_out[a], before_rest[least as int]));
            } else {
                assert(lex_le(before_out[a], before_out[b]));
            }
        }
        assert forall|a: int, b: int|
            0 <= a < out.deep_view().len() && 0 <= b < rest.deep_view().len() implies lex_le(
            #[trigger] out.deep_view()[a],
            #[trigger] rest.deep_view()[b],
        ) by {
            let ob = if b < least { b } else { b + 1 };
            assert(rest.deep_view()[b] == before_rest[ob]);
            if a == before_out.len() {
                assert(lex_le(before_rest[least as int], before_rest[ob]));
            } else {
                assert(lex_le(before_out[a], before_rest[ob]));
            }
        }
    }
    assert(rest.deep_view().to_multiset() =~= Multiset::empty());
    assert(out.deep_view().to_multiset().add(Multiset::empty()) =~= out.deep_view().to_multiset());
    out
}

} // verus!
