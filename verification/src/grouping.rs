//! Grouping of keyed values by key, in ascending key order: what a `BTreeMap` from keys to
//! lists of values gives when each value is pushed onto the list of its key.
use vstd::prelude::*;
use crate::text;
use crate::text::{str_eq, str_lt};

verus! {

broadcast use vstd::seq_lib::group_seq_properties;

/// The strict order on keys is irreflexive.
pub proof fn lemma_lt_irreflexive(a: Seq<char>)
    ensures
        !text::seq_lt(a, a),
    decreases a.len(),
{
    if a.len() > 0 {
        lemma_lt_irreflexive(a.drop_first());
    }
}

/// Two distinct keys are ordered one way or the other.
pub proof fn lemma_lt_total(a: Seq<char>, b: Seq<char>)
    ensures
        a == b || text::seq_lt(a, b) || text::seq_lt(b, a),
    decreases a.len(),
{
    if a.len() > 0 && b.len() > 0 && a[0] == b[0] {
        lemma_lt_total(a.drop_first(), b.drop_first());
        if a.drop_first() == b.drop_first() {
            assert(a =~= seq![a[0]] + a.drop_first());
            assert(b =~= seq![b[0]] + b.drop_first());
        }
    } else if a.len() == 0 && b.len() == 0 {
        assert(a =~= b);
    }
}

/// The strict order on keys is transitive.
pub proof fn lemma_lt_transitive(a: Seq<char>, b: Seq<char>, c: Seq<char>)
    requires
        text::seq_lt(a, b),
        text::seq_lt(b, c),
    ensures
        text::seq_lt(a, c),
    decreases a.len(),
{
    if a.len() > 0 && b.len() > 0 && c.len() > 0 && a[0] == b[0] && b[0] == c[0] {
        lemma_lt_transitive(a.drop_first(), b.drop_first(), c.drop_first());
    }
}

/// Whether a pair has the key `k`.
pub open spec fn has_key<V>(k: Seq<char>) -> spec_fn((String, V)) -> bool {
    |p: (String, V)| p.0@ == k
}

/// The values of the pairs whose key is `k`, in their order.
pub open spec fn values_with_key<V>(pairs: Seq<(String, V)>, k: Seq<char>) -> Seq<V> {
    pairs.filter(has_key(k)).map_values(|p: (String, V)| p.1)
}

/// The groups' keys are in strictly ascending order.
pub open spec fn keys_ascending<V>(groups: Seq<(String, Vec<V>)>) -> bool {
    forall|i: int, j: int|
        0 <= i < j < groups.len() ==> text::seq_lt(#[trigger] groups[i].0@, #[trigger] groups[j].0@)
}

/// `groups` holds, in ascending key order, each key of `pairs` once, with the values of
/// that key in their order.
pub open spec fn is_grouping<V>(pairs: Seq<(String, V)>, groups: Seq<(String, Vec<V>)>) -> bool {
    &&& keys_ascending(groups)
    &&& forall|i: int|
        0 <= i < groups.len() ==> (#[trigger] groups[i]).1@ == values_with_key(pairs, groups[i].0@)
            && groups[i].1.len() > 0
    &&& forall|j: int| 0 <= j < pairs.len() ==> has_group(groups, (#[trigger] pairs[j]).0@)
}

/// Some group has the key `k`.
pub open spec fn has_group<V>(groups: Seq<(String, Vec<V>)>, k: Seq<char>) -> bool {
    exists|i: int| 0 <= i < groups.len() && #[trigger] groups[i].0@ == k
}

proof fn lemma_values_step<V>(pairs: Seq<(String, V)>, i: int, k: Seq<char>)
    requires
        0 <= i < pairs.len(),
    ensures
        values_with_key(pairs.take(i + 1), k) == if pairs[i].0@ == k {
            values_with_key(pairs.take(i), k).push(pairs[i].1)
        } else {
            values_with_key(pairs.take(i), k)
        },
{
    reveal(Seq::filter);
    assert(pairs.take(i + 1).drop_last() =~= pairs.take(i));
    let pred = has_key::<V>(k);
    if pairs[i].0@ == k {
        assert(pairs.take(i + 1).filter(pred) == pairs.take(i).filter(pred).push(pairs[i]));
        assert(values_with_key(pairs.take(i + 1), k) =~= values_with_key(pairs.take(i), k).push(
            pairs[i].1,
        ));
    }
}

proof fn lemma_values_absent<V>(pairs: Seq<(String, V)>, k: Seq<char>)
    requires
        forall|j: int| 0 <= j < pairs.len() ==> (#[trigger] pairs[j]).0@ != k,
    ensures
        pairs.filter(has_key::<V>(k)).len() == 0,
        values_with_key(pairs, k) == Seq::<V>::empty(),
    decreases pairs.len(),
{
    reveal(Seq::filter);
    if pairs.len() > 0 {
        assert forall|j: int| 0 <= j < pairs.len() - 1 implies (#[trigger] pairs.drop_last()[j]).0@
            != k by {
            assert(pairs.drop_last()[j] == pairs[j]);
        }
        lemma_values_absent(pairs.drop_last(), k);
        assert(pairs.last() == pairs[pairs.len() - 1]);
    }
    assert(values_with_key(pairs, k) =~= Seq::<V>::empty());
}

/// Groups the values by key: the groups come in ascending key order, and each holds its
/// key's values in the order of `pairs`.
pub fn group_by_key<V>(pairs: Vec<(String, V)>) -> (groups: Vec<(String, Vec<V>)>)
    ensures
        is_grouping(pairs@, groups@),
{
    let ghost orig = pairs@;
    let mut rest = pairs;
    let mut groups: Vec<(String, Vec<V>)> = Vec::new();
    let mut i: usize = 0;
    let n = rest.len();
    assert(orig.skip(0) =~= orig);
    while i < n
        invariant
            n == orig.len(),
            i <= n,
            rest@ == orig.skip(i as int),
            is_grouping(orig.take(i as int), groups@),
        decreases n - i,
    {
        let ghost old_groups = groups@;
        let ghost prefix = orig.take(i as int);
        let ghost next = orig.take(i + 1);
        let (k, v) = rest.remove(0);
        assert(orig.skip(i as int).drop_first() =~= orig.skip(i + 1));
        assert(orig[i as int] == (k, v));
        assert forall|j: int| 0 <= j < i implies #[trigger] next[j] == prefix[j] by {}
        let mut p: usize = 0;
        while p < groups.len() && str_lt(groups[p].0.as_str(), k.as_str())
            invariant
                p <= groups.len(),
                groups@ == old_groups,
                forall|j: int| 0 <= j < p ==> text::seq_lt(#[trigger] groups@[j].0@, k@),
            decreases groups.len() - p,
        {
            p = p + 1;
        }
        if p < groups.len() && str_eq(groups[p].0.as_str(), k.as_str()) {
            let mut entry = groups.remove(p);
            entry.1.push(v);
            groups.insert(p, entry);
            proof {
                assert forall|j: int| 0 <= j < groups.len() implies (#[trigger] groups@[j]).1@
                    == values_with_key(next, groups@[j].0@) && groups@[j].1.len() > 0 by {
                    lemma_values_step(orig, i as int, groups@[j].0@);
                    if j != p {
                        assert(groups@[j] == old_groups[j]);
                        if j < p {
                            assert(text::seq_lt(old_groups[j].0@, old_groups[p as int].0@));
                            lemma_lt_irreflexive(k@);
                        } else {
                            assert(text::seq_lt(old_groups[p as int].0@, old_groups[j].0@));
                            lemma_lt_irreflexive(k@);
                        }
                    }
                }
                assert forall|j: int| 0 <= j < next.len() implies has_group(groups@, (#[trigger] next[j]).0@) by {
                    if j == i {
                        assert(groups@[p as int].0@ == next[j].0@);
                    } else {
                        assert(next[j] == prefix[j]);
                        let g = choose|g: int|
                            0 <= g < old_groups.len() && #[trigger] old_groups[g].0@ == prefix[j].0@;
                        assert(groups@[g].0@ == old_groups[g].0@);
                    }
                }
                assert(keys_ascending(groups@)) by {
                    assert forall|a: int, b: int| 0 <= a < b < groups.len() implies text::seq_lt(
                        #[trigger] groups@[a].0@,
                        #[trigger] groups@[b].0@,
                    ) by {
                        assert(groups@[a].0@ == old_groups[a].0@);
                        assert(groups@[b].0@ == old_groups[b].0@);
                    }
                }
                assert(is_grouping(next, groups@));
            }
        } else {
            let ghost key = k@;
            let mut vals: Vec<V> = Vec::new();
            vals.push(v);
            groups.insert(p, (k, vals));
            proof {
                // Every old key differs from the new one.
                assert forall|j: int| 0 <= j < old_groups.len() implies #[trigger] old_groups[j].0@
                    != key by {
                    lemma_lt_irreflexive(key);
                    if j >= p {
                        lemma_lt_total(old_groups[p as int].0@, key);
                        if j > p {
                            assert(text::seq_lt(old_groups[p as int].0@, old_groups[j].0@));
                            lemma_lt_transitive(key, old_groups[p as int].0@, old_groups[j].0@);
                        }
                    }
                }
                assert forall|j: int| 0 <= j < prefix.len() implies (#[trigger] prefix[j]).0@
                    != key by {
                    let g = choose|g: int|
                        0 <= g < old_groups.len() && #[trigger] old_groups[g].0@ == prefix[j].0@;
                }
                lemma_values_absent(prefix, key);
                assert forall|j: int| 0 <= j < groups.len() implies (#[trigger] groups@[j]).1@
                    == values_with_key(next, groups@[j].0@) && groups@[j].1.len() > 0 by {
                    lemma_values_step(orig, i as int, groups@[j].0@);
                    if j < p {
                        assert(groups@[j] == old_groups[j]);
                    } else if j > p {
                        assert(groups@[j] == old_groups[j - 1]);
                    } else {
                        assert(groups@[j].1@ =~= Seq::<V>::empty().push(v));
                    }
                }
                assert forall|j: int| 0 <= j < next.len() implies has_group(groups@, (#[trigger] next[j]).0@) by {
                    if j == i {
                        assert(groups@[p as int].0@ == next[j].0@);
                    } else {
                        assert(next[j] == prefix[j]);
                        let g = choose|g: int|
                            0 <= g < old_groups.len() && #[trigger] old_groups[g].0@ == prefix[j].0@;
                        if g < p {
                            assert(groups@[g].0@ == old_groups[g].0@);
                        } else {
                            assert(groups@[g + 1].0@ == old_groups[g].0@);
                        }
                    }
                }
                assert(keys_ascending(groups@)) by {
                    assert forall|a: int, b: int| 0 <= a < b < groups.len() implies text::seq_lt(
                        #[trigger] groups@[a].0@,
                        #[trigger] groups@[b].0@,
                    ) by {
                        if p < old_groups.len() {
                            lemma_lt_total(old_groups[p as int].0@, key);
                        }
                        if b < p {
                        } else if a < p && b == p {
                        } else if a < p && b > p {
                            assert(groups@[b] == old_groups[b - 1]);
                        } else if a == p {
                            assert(groups@[b] == old_groups[b - 1]);
                            if b - 1 > p {
                                assert(text::seq_lt(old_groups[p as int].0@, old_groups[b - 1].0@));
                                lemma_lt_transitive(key, old_groups[p as int].0@, old_groups[b - 1].0@);
                            }
                        } else {
                            assert(groups@[a] == old_groups[a - 1]);
                            assert(groups@[b] == old_groups[b - 1]);
                        }
                    }
                }
                assert(is_grouping(next, groups@));
            }
        }
        i = i + 1;
    }
    assert(orig.take(n as int) =~= orig);
    groups
}

/// The strings, as views, in strictly ascending order.
pub open spec fn strictly_ascending(s: Seq<Seq<char>>) -> bool {
    forall|i: int, j: int| 0 <= i < j < s.len() ==> text::seq_lt(#[trigger] s[i], #[trigger] s[j])
}

/// The views of a sequence of strings.
pub open spec fn views(v: Seq<String>) -> Seq<Seq<char>> {
    v.map_values(|s: String| s@)
}

/// The distinct strings of `values` in ascending order, as a `BTreeSet` would list them.
pub fn sorted_unique(values: Vec<String>) -> (out: Vec<String>)
    ensures
        strictly_ascending(views(out@)),
        views(out@).to_set() == views(values@).to_set(),
{
    let ghost orig = views(values@);
    let mut rest = values;
    let mut out: Vec<String> = Vec::new();
    let n = rest.len();
    let mut i: usize = 0;
    assert(views(rest@) =~= orig.skip(0));
    assert(views(out@).to_set() =~= orig.take(0).to_set());
    while i < n
        invariant
            n == orig.len(),
            i <= n,
            views(rest@) == orig.skip(i as int),
            strictly_ascending(views(out@)),
            views(out@).to_set() == orig.take(i as int).to_set(),
        decreases n - i,
    {
        let ghost old_out = views(out@);
        let ghost old_rest = rest@;
        assert(views(old_rest).len() == old_rest.len());
        let x = rest.remove(0);
        assert(views(rest@) =~= views(old_rest).drop_first());
        assert(views(rest@) =~= orig.skip(i + 1));
        assert(x@ == orig[i as int]) by {
            assert(orig.skip(i as int)[0] == orig[i as int]);
        }
        assert(orig.take(i + 1) =~= orig.take(i as int).push(x@));
        let mut p: usize = 0;
        while p < out.len() && str_lt(out[p].as_str(), x.as_str())
            invariant
                p <= out.len(),
                views(out@) == old_out,
                forall|j: int| 0 <= j < p ==> text::seq_lt(#[trigger] old_out[j], x@),
            decreases out.len() - p,
        {
            p = p + 1;
        }
        if p < out.len() && str_eq(out[p].as_str(), x.as_str()) {
            assert(old_out[p as int] == x@);
            assert(old_out.to_set().contains(x@));
            assert(orig.take(i + 1).to_set() =~= orig.take(i as int).to_set().insert(x@));
        } else {
            let ghost xv = x@;
            out.insert(p, x);
            assert(views(out@) =~= old_out.insert(p as int, xv));
            proof {
                if p < old_out.len() {
                    lemma_lt_total(old_out[p as int], xv);
                }
                assert forall|a: int, b: int| 0 <= a < b < views(out@).len() implies text::seq_lt(
                    #[trigger] views(out@)[a],
                    #[trigger] views(out@)[b],
                ) by {
                    let o = views(out@);
                    if b < p {
                        assert(o[a] == old_out[a] && o[b] == old_out[b]);
                    } else if a < p && b == p {
                        assert(o[a] == old_out[a]);
                    } else if a < p && b > p {
                        assert(o[a] == old_out[a] && o[b] == old_out[b - 1]);
                    } else if a == p {
                        assert(o[b] == old_out[b - 1]);
                        if b - 1 > p {
                            assert(text::seq_lt(old_out[p as int], old_out[b - 1]));
                            lemma_lt_transitive(xv, old_out[p as int], old_out[b - 1]);
                        }
                    } else {
                        assert(o[a] == old_out[a - 1] && o[b] == old_out[b - 1]);
                    }
                }
                assert(views(out@).to_set() =~= old_out.to_set().insert(xv)) by {
                    assert forall|e: Seq<char>| views(out@).to_set().contains(e) implies old_out.to_set().insert(xv).contains(e) by {
                        let k = choose|k: int| 0 <= k < views(out@).len() && views(out@)[k] == e;
                        if k < p {
                            assert(old_out[k] == e);
                        } else if k > p {
                            assert(old_out[k - 1] == e);
                        }
                    }
                    assert forall|e: Seq<char>| old_out.to_set().insert(xv).contains(e) implies views(out@).to_set().contains(e) by {
                        if e == xv {
                            assert(views(out@)[p as int] == e);
                        } else {
                            let k = choose|k: int| 0 <= k < old_out.len() && old_out[k] == e;
                            if k < p {
                                assert(views(out@)[k] == e);
                            } else {
                                assert(views(out@)[k + 1] == e);
                            }
                        }
                    }
                }
                assert(orig.take(i + 1).to_set() =~= orig.take(i as int).to_set().insert(xv));
            }
        }
        i = i + 1;
    }
    assert(orig.take(n as int) =~= orig);
    out
}

} // verus!
