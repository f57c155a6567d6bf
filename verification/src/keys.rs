//! Reading a map keyed by `u32` in key order: the keys as a strictly
//! increasing sequence, and the first values in that order.
use std::collections::BTreeMap;
use vstd::prelude::*;

verus! {

/// `ks` lists the keys of `dom` in strictly increasing order.
pub open spec fn key_order(dom: Set<u32>, ks: Seq<u32>) -> bool {
    &&& forall|i: int, j: int| 0 <= i < j < ks.len() ==> ks[i] < ks[j]
    &&& ks.to_set() == dom
}

/// The keys of `dom` in increasing order (meaningful for a finite `dom`,
/// where exactly one such sequence exists).
pub open spec fn keys_in_order(dom: Set<u32>) -> Seq<u32> {
    choose|ks: Seq<u32>| key_order(dom, ks)
}

/// The values of `m` in the order of their keys.
pub open spec fn values_in_order<V>(m: Map<u32, V>) -> Seq<V> {
    keys_in_order(m.dom()).map_values(|k: u32| m[k])
}

/// `n`, or `len` when that is smaller.
pub open spec fn at_most(len: nat, n: int) -> int {
    if len < n {
        len as int
    } else {
        n
    }
}

/// Keys of type `u32` are compared as numbers, so a map keyed by them keeps
/// them in numeric order.
pub proof fn lemma_u32_keys_ordered()
    ensures
        vstd::laws_cmp::obeys_cmp::<u32>(),
        vstd::std_specs::btree::key_obeys_cmp_spec::<u32>(),
{
    broadcast use vstd::laws_cmp::group_laws_cmp, vstd::std_specs::btree::group_btree_axioms;

    assert(vstd::laws_cmp::obeys_cmp::<u32>());
}

proof fn lemma_increasing_u32(ks: Seq<u32>)
    requires
        vstd::std_specs::btree::increasing_seq(ks),
    ensures
        forall|i: int, j: int| 0 <= i < j < ks.len() ==> ks[i] < ks[j],
{
    broadcast use vstd::laws_cmp::group_laws_cmp, vstd::std_specs::btree::group_btree_axioms;

    assert(vstd::laws_cmp::obeys_cmp::<u32>());
    assert forall|i: int, j: int| 0 <= i < j < ks.len() implies ks[i] < ks[j] by {
        assert(vstd::std_specs::cmp::OrdSpec::cmp_spec(&ks[i], &ks[j]) is Less);
    }
}

/// Two strictly increasing sequences with the same keys are the same.
pub proof fn lemma_key_order_unique(dom: Set<u32>, a: Seq<u32>, b: Seq<u32>)
    requires
        key_order(dom, a),
        key_order(dom, b),
    ensures
        a == b,
    decreases a.len(),
{
    if a.len() == 0 {
        if b.len() > 0 {
            assert(b.to_set().contains(b[0]));
            assert(!a.to_set().contains(b[0]));
        }
        assert(a =~= b);
    } else {
        if b.len() == 0 {
            assert(a.to_set().contains(a[0]));
            assert(!b.to_set().contains(a[0]));
        }
        assert(a.to_set().contains(a[0]));
        assert(b.contains(a[0]));
        let j = choose|j: int| 0 <= j < b.len() && b[j] == a[0];
        assert(b.to_set().contains(b[0]));
        assert(a.contains(b[0]));
        let i = choose|i: int| 0 <= i < a.len() && a[i] == b[0];
        assert(a[0] <= a[i]);
        assert(b[0] <= b[j]);
        assert(a[0] == b[0]);
        let rest = dom.remove(a[0]);
        let a1 = a.drop_first();
        let b1 = b.drop_first();
        assert forall|x: u32| a1.to_set().contains(x) <==> rest.contains(x) by {
            if a1.contains(x) {
                let k = choose|k: int| 0 <= k < a1.len() && a1[k] == x;
                assert(a[k + 1] == x);
                assert(a.contains(x));
            }
            if rest.contains(x) {
                assert(a.to_set().contains(x));
                let k = choose|k: int| 0 <= k < a.len() && a[k] == x;
                assert(k != 0);
                assert(a1[k - 1] == x);
            }
        }
        assert forall|x: u32| b1.to_set().contains(x) <==> rest.contains(x) by {
            if b1.contains(x) {
                let k = choose|k: int| 0 <= k < b1.len() && b1[k] == x;
                assert(b[k + 1] == x);
                assert(b.contains(x));
            }
            if rest.contains(x) {
                assert(b.to_set().contains(x));
                let k = choose|k: int| 0 <= k < b.len() && b[k] == x;
                assert(k != 0);
                assert(b1[k - 1] == x);
            }
        }
        assert(a1.to_set() =~= rest);
        assert(b1.to_set() =~= rest);
        lemma_key_order_unique(rest, a1, b1);
        assert(a =~= b) by {
            assert forall|k: int| 0 <= k < a.len() implies a[k] == b[k] by {
                if k > 0 {
                    assert(a[k] == a1[k - 1]);
                    assert(b[k] == b1[k - 1]);
                }
            }
        }
    }
}

/// The first `n` values of `m` in key order (all of them when there are
/// fewer).
pub fn first_values<V>(m: &BTreeMap<u32, V>, n: usize) -> (r: Vec<&V>)
    ensures
        key_order(m@.dom(), keys_in_order(m@.dom())),
        r@.map_values(|x: &V| *x) == values_in_order(m@).take(at_most(m@.dom().len(), n as int)),
        keys_in_order(m@.dom()).len() == m@.dom().len(),
        forall|i: int|
            0 <= i < r@.len() ==> {
                &&& m@.dom().contains(#[trigger] keys_in_order(m@.dom())[i])
                &&& *r@[i] == m@[keys_in_order(m@.dom())[i]]
            },
{
    proof {
        lemma_u32_keys_ordered();
    }
    let mut r: Vec<&V> = Vec::new();
    let values = m.values();
    let ghost ks: Seq<u32> = choose|key_seq: Seq<u32>|
        {
            &&& vstd::std_specs::btree::increasing_seq(key_seq)
            &&& key_seq.to_set() == m@.dom()
            &&& key_seq.no_duplicates()
            &&& vstd::std_specs::iter::IteratorSpec::remaining(&values) == key_seq.map(
                |i: int, k: u32| &m@[k],
            )
        };
    proof {
        lemma_increasing_u32(ks);
        assert(key_order(m@.dom(), ks));
        lemma_key_order_unique(m@.dom(), ks, keys_in_order(m@.dom()));
        ks.unique_seq_to_set();
    }
    let ghost vals = ks.map_values(|k: u32| m@[k]);
    for x in it: values
        invariant
            it.seq() == ks.map(|i: int, k: u32| &m@[k]),
            vals == ks.map_values(|k: u32| m@[k]),
            r@.map_values(|x: &V| *x) == vals.take(at_most(it.index() as nat, n as int)),
    {
        let ghost before = r@;
        if r.len() < n {
            r.push(x);
            assert(r@.map_values(|x: &V| *x) =~= before.map_values(|x: &V| *x).push(*x));
        }
        assert(vals.take(at_most((it.index() + 1) as nat, n as int)) =~= r@.map_values(|x: &V| *x));
    }
    proof {
        assert(ks.len() == m@.dom().len());
        assert forall|i: int| 0 <= i < r@.len() implies {
            &&& m@.dom().contains(#[trigger] keys_in_order(m@.dom())[i])
            &&& *r@[i] == m@[keys_in_order(m@.dom())[i]]
        } by {
            assert(ks.to_set().contains(ks[i]));
            assert(r@.map_values(|x: &V| *x)[i] == *r@[i]);
        }
    }
    r
}

/// Reading a map through a function of its values reads the same keys in
/// the same order.
pub proof fn lemma_values_in_order_map<V, W>(m: Map<u32, V>, f: spec_fn(V) -> W)
    requires
        key_order(m.dom(), keys_in_order(m.dom())),
    ensures
        values_in_order(m.map_values(f)) == values_in_order(m).map_values(f),
{
    assert(m.map_values(f).dom() =~= m.dom());
    let ks = keys_in_order(m.dom());
    assert forall|i: int| 0 <= i < ks.len() implies m.dom().contains(#[trigger] ks[i]) by {
        assert(ks.to_set().contains(ks[i]));
    }
    assert(values_in_order(m.map_values(f)) =~= values_in_order(m).map_values(f));
}

} // verus!
