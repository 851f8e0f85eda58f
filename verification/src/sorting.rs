//! Ordering rows by id.
use vstd::prelude::*;
use vstd::multiset::Multiset;

verus! {

broadcast use {vstd::seq_lib::group_to_multiset_ensures, vstd::multiset::group_multiset_axioms};

/// A row with an id to order by.
pub trait Keyed {
    spec fn key_of(&self) -> u64;

    fn key(&self) -> (k: u64)
        ensures
            k == self.key_of(),
    ;
}

/// Keys never decrease along `s`.
pub open spec fn sorted_by_key<T: Keyed>(s: Seq<T>) -> bool {
    forall|i: int, j: int| 0 <= i <= j < s.len() ==> #[trigger] s[i].key_of() <= #[trigger] s[j].key_of()
}

/// The rows of `s` whose key is `k`, in order.
pub open spec fn with_key<T: Keyed>(s: Seq<T>, k: u64) -> Seq<T>
    decreases s.len(),
{
    if s.len() == 0 {
        Seq::empty()
    } else if s.last().key_of() == k {
        with_key(s.drop_last(), k).push(s.last())
    } else {
        with_key(s.drop_last(), k)
    }
}

proof fn lemma_with_key_concat<T: Keyed>(a: Seq<T>, b: Seq<T>, k: u64)
    ensures
        with_key(a + b, k) == with_key(a, k) + with_key(b, k),
    decreases b.len(),
{
    if b.len() == 0 {
        assert(a + b =~= a);
        assert(with_key(a, k) + with_key(b, k) =~= with_key(a, k));
    } else {
        lemma_with_key_concat(a, b.drop_last(), k);
        assert((a + b).drop_last() =~= a + b.drop_last());
        assert((a + b).last() == b.last());
        if b.last().key_of() == k {
            assert(with_key(a, k) + with_key(b.drop_last(), k).push(b.last()) =~= (with_key(a, k)
                + with_key(b.drop_last(), k)).push(b.last()));
        }
    }
}

proof fn lemma_with_key_single<T: Keyed>(x: T, k: u64)
    ensures
        with_key(seq![x], k) == if x.key_of() == k {
            seq![x]
        } else {
            Seq::<T>::empty()
        },
{
    assert(seq![x].drop_last() =~= Seq::<T>::empty());
    assert(seq![x].last() == x);
    assert(with_key(Seq::<T>::empty(), k) == Seq::<T>::empty());
    assert(Seq::<T>::empty().push(x) =~= seq![x]);
}

proof fn lemma_with_key_none<T: Keyed>(s: Seq<T>, k: u64)
    requires
        forall|i: int| 0 <= i < s.len() ==> #[trigger] s[i].key_of() != k,
    ensures
        with_key(s, k) == Seq::<T>::empty(),
    decreases s.len(),
{
    if s.len() > 0 {
        lemma_with_key_none(s.drop_last(), k);
        assert(s.last() == s[s.len() - 1]);
    }
}

proof fn lemma_insert_multiset<T>(r: Seq<T>, p: int, x: T)
    requires
        0 <= p <= r.len(),
    ensures
        r.insert(p, x).to_multiset() =~= r.to_multiset().insert(x),
{
    let s = r.insert(p, x);
    r.insert_ensures(p, x);
    assert(s.remove(p) =~= r);
    assert(s[p] == x);
    assert(s.contains(x));
    assert(s.to_multiset().count(x) > 0);
}

/// The rows of `v` reordered so that keys never decrease; rows with equal
/// keys keep their relative order.
pub fn sort_by_key<T: Keyed>(v: Vec<T>) -> (r: Vec<T>)
    ensures
        sorted_by_key(r@),
        r@.to_multiset() == v@.to_multiset(),
        forall|k: u64| #[trigger] with_key(r@, k) == with_key(v@, k),
{
    let ghost orig = v@;
    let mut rest = v;
    let mut r: Vec<T> = Vec::new();
    while rest.len() > 0
        invariant
            sorted_by_key(r@),
            r@.to_multiset().add(rest@.to_multiset()) == orig.to_multiset(),
            forall|k: u64| #[trigger] with_key(orig, k) == with_key(r@, k) + with_key(rest@, k),
        decreases rest@.len(),
    {
        let ghost rest_before = rest@;
        let x = rest.remove(0);
        proof {
            assert(rest_before.remove(0) =~= rest@);
            assert(rest_before[0] == x);
            assert(rest_before =~= seq![x] + rest@);
        }
        let kx = x.key();
        let mut p: usize = 0;
        while p < r.len() && r[p].key() <= kx
            invariant
                0 <= p <= r@.len(),
                forall|j: int| 0 <= j < p ==> #[trigger] r@[j].key_of() <= kx,
            decreases r@.len() - p,
        {
            p = p + 1;
        }
        let ghost r_before = r@;
        r.insert(p, x);
        proof {
            r_before.insert_ensures(p as int, x);
            assert(r@ =~= r_before.insert(p as int, x));
            lemma_insert_multiset(r_before, p as int, x);
            assert forall|k: u64| #[trigger] with_key(orig, k) == with_key(r@, k) + with_key(rest@, k) by {
                let pre = r_before.take(p as int);
                let post = r_before.skip(p as int);
                assert(r_before =~= pre + post);
                assert(r@ =~= pre + (seq![x] + post));
                lemma_with_key_concat(pre, seq![x] + post, k);
                lemma_with_key_concat(seq![x], post, k);
                lemma_with_key_concat(pre, post, k);
                lemma_with_key_concat(seq![x], rest@, k);
                lemma_with_key_single(x, k);
                if x.key_of() == k {
                    assert forall|i: int| 0 <= i < post.len() implies #[trigger] post[i].key_of() != k by {
                        assert(post[i] == r_before[p + i]);
                        assert(r_before[p as int].key_of() <= r_before[p + i].key_of());
                    }
                    lemma_with_key_none(post, k);
                    assert(with_key(r@, k) + with_key(rest@, k) =~= with_key(pre, k) + seq![x] + with_key(rest@, k));
                    assert(with_key(r_before, k) =~= with_key(pre, k));
                    assert(with_key(rest_before, k) =~= seq![x] + with_key(rest@, k));
                } else {
                    assert(with_key(r@, k) =~= with_key(pre, k) + with_key(post, k));
                    assert(with_key(rest_before, k) =~= with_key(rest@, k));
                }
            }
            assert forall|i: int, j: int| 0 <= i <= j < r@.len() implies #[trigger] r@[i].key_of()
                <= #[trigger] r@[j].key_of() by {
                if j < p {
                    assert(r@[i] == r_before[i] && r@[j] == r_before[j]);
                } else if j == p {
                    if i < p {
                        assert(r@[i] == r_before[i]);
                    }
                } else {
                    assert(r@[j] == r_before[j - 1]);
                    if p < r_before.len() {
                        assert(kx < r_before[p as int].key_of());
                        assert(r_before[p as int].key_of() <= r_before[j - 1].key_of());
                    }
                    if i < p {
                        assert(r@[i] == r_before[i]);
                    } else if i > p {
                        assert(r@[i] == r_before[i - 1]);
                    }
                }
            }
        }
    }
    proof {
        assert(rest@.to_multiset() =~= Multiset::empty());
        assert forall|k: u64| #[trigger] with_key(r@, k) == with_key(orig, k) by {
            assert(with_key(rest@, k) =~= Seq::<T>::empty());
            assert(with_key(r@, k) + with_key(rest@, k) =~= with_key(r@, k));
        }
    }
    r
}

} // verus!
