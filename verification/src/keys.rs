//! The order in which the values of a filter enter its identity.
use vstd::prelude::*;
use vstd::relations::*;
use vstd::seq_lib::*;

verus! {

/// Lexicographic "at most" on byte strings: the first byte that differs
/// decides, and a prefix comes before what extends it.
pub open spec fn lex_le(a: Seq<u8>, b: Seq<u8>) -> bool
    decreases a.len(),
{
    if a.len() == 0 {
        true
    } else if b.len() == 0 {
        false
    } else if a[0] != b[0] {
        a[0] < b[0]
    } else {
        lex_le(a.drop_first(), b.drop_first())
    }
}

pub proof fn lemma_lex_le_reflexive(a: Seq<u8>)
    ensures
        lex_le(a, a),
    decreases a.len(),
{
    if a.len() > 0 {
        lemma_lex_le_reflexive(a.drop_first());
    }
}

pub proof fn lemma_lex_le_antisymmetric(a: Seq<u8>, b: Seq<u8>)
    requires
        lex_le(a, b),
        lex_le(b, a),
    ensures
        a == b,
    decreases a.len(),
{
    if a.len() == 0 || b.len() == 0 {
        assert(a =~= b);
    } else {
        lemma_lex_le_antisymmetric(a.drop_first(), b.drop_first());
        assert(a =~= seq![a[0]] + a.drop_first());
        assert(b =~= seq![b[0]] + b.drop_first());
    }
}

pub proof fn lemma_lex_le_transitive(a: Seq<u8>, b: Seq<u8>, c: Seq<u8>)
    requires
        lex_le(a, b),
        lex_le(b, c),
    ensures
        lex_le(a, c),
    decreases a.len(),
{
    if a.len() > 0 && b.len() > 0 && c.len() > 0 && a[0] == b[0] && b[0] == c[0] {
        lemma_lex_le_transitive(a.drop_first(), b.drop_first(), c.drop_first());
    }
}

pub proof fn lemma_lex_le_total(a: Seq<u8>, b: Seq<u8>)
    ensures
        lex_le(a, b) || lex_le(b, a),
    decreases a.len(),
{
    if a.len() > 0 && b.len() > 0 && a[0] == b[0] {
        lemma_lex_le_total(a.drop_first(), b.drop_first());
    }
}

/// The order of fixed-width keys: that of their bytes.
pub open spec fn key_le<const N: usize>() -> spec_fn([u8; N], [u8; N]) -> bool {
    |a: [u8; N], b: [u8; N]| lex_le(a@, b@)
}

/// `key_le` is a total order on the keys of one width.
pub proof fn lemma_key_le_total_ordering<const N: usize>()
    ensures
        total_ordering(key_le::<N>()),
{
    let le = key_le::<N>();
    assert forall|x: [u8; N]| #[trigger] le(x, x) by {
        lemma_lex_le_reflexive(x@);
    }
    assert forall|x: [u8; N], y: [u8; N]| #[trigger] le(x, y) && #[trigger] le(y, x) implies x
        == y by {
        lemma_lex_le_antisymmetric(x@, y@);
        assert(x =~= y);
    }
    assert forall|x: [u8; N], y: [u8; N], z: [u8; N]| #[trigger] le(x, y) && #[trigger] le(
        y,
        z,
    ) implies le(x, z) by {
        lemma_lex_le_transitive(x@, y@, z@);
    }
    assert forall|x: [u8; N], y: [u8; N]| #[trigger] le(x, y) || #[trigger] le(y, x) by {
        lemma_lex_le_total(x@, y@);
    }
}

/// Whether `a` comes before `b` or equals it.
pub fn key_at_most<const N: usize>(a: &[u8; N], b: &[u8; N]) -> (r: bool)
    ensures
        r == lex_le(a@, b@),
{
    let mut i: usize = 0;
    proof {
        assert(a@.skip(0) =~= a@);
        assert(b@.skip(0) =~= b@);
    }
    while i < N
        invariant
            i <= N,
            a@.len() == N,
            b@.len() == N,
            lex_le(a@, b@) == lex_le(a@.skip(i as int), b@.skip(i as int)),
        decreases N - i,
    {
        if a[i] != b[i] {
            return a[i] < b[i];
        }
        proof {
            assert(a@.skip(i as int).drop_first() =~= a@.skip(i + 1));
            assert(b@.skip(i as int).drop_first() =~= b@.skip(i + 1));
        }
        i = i + 1;
    }
    true
}

/// The keys of `items` in ascending order.
pub fn sorted_keys<const N: usize>(items: &Vec<[u8; N]>) -> (out: Vec<[u8; N]>)
    ensures
        sorted_by(out@, key_le::<N>()),
        out@.to_multiset() == items@.to_multiset(),
        out@.to_set() == items@.to_set(),
        items@.no_duplicates() ==> out@.no_duplicates(),
{
    let ghost le = key_le::<N>();
    let mut out: Vec<[u8; N]> = Vec::new();
    let mut i: usize = 0;
    proof {
        lemma_key_le_total_ordering::<N>();
        assert(items@.subrange(0, 0) =~= Seq::<[u8; N]>::empty());
        assert(out@ =~= items@.subrange(0, 0));
    }
    while i < items.len()
        invariant
            i <= items.len(),
            le == key_le::<N>(),
            total_ordering(le),
            sorted_by(out@, le),
            out@.to_multiset() == items@.subrange(0, i as int).to_multiset(),
        decreases items.len() - i,
    {
        let x = items[i];
        let mut j: usize = 0;
        while j < out.len() && key_at_most(&out[j], &x)
            invariant
                j <= out.len(),
                le == key_le::<N>(),
                forall|k: int| 0 <= k < j ==> #[trigger] le(out@[k], x),
            decreases out.len() - j,
        {
            j = j + 1;
        }
        let ghost before = out@;
        out.insert(j, x);
        proof {
            to_multiset_insert(before, j as int, x);
            assert(items@.subrange(0, i + 1) =~= items@.subrange(0, i as int).push(x));
            to_multiset_build(items@.subrange(0, i as int), x);
            assert forall|p: int, q: int| 0 <= p < q < out@.len() implies #[trigger] le(
                out@[p],
                out@[q],
            ) by {
                if q == j {
                    assert(out@[p] == before[p]);
                } else if p == j {
                    assert(out@[q] == before[q - 1]);
                    assert(le(x, before[j as int]) || le(before[j as int], x));
                    assert(le(before[j as int], before[q - 1]) || q - 1 == j);
                } else if p < j && q < j {
                    assert(le(before[p], before[q]));
                } else if p < j {
                    assert(le(before[p], before[q - 1]));
                } else {
                    assert(le(before[p - 1], before[q - 1]));
                }
            }
        }
        i = i + 1;
    }
    proof {
        assert(items@.subrange(0, i as int) =~= items@);
        assert forall|x: [u8; N]| out@.to_set().contains(x) == items@.to_set().contains(x) by {
            to_multiset_contains(out@, x);
            to_multiset_contains(items@, x);
        }
        assert(out@.to_set() =~= items@.to_set());
        if items@.no_duplicates() {
            items@.lemma_multiset_has_no_duplicates();
            out@.lemma_multiset_has_no_duplicates_conv();
        }
    }
    out
}

/// The values of a set, each once, in ascending order.
pub open spec fn ascending<const N: usize>(values: Set<[u8; N]>) -> Seq<[u8; N]> {
    choose|q: Seq<[u8; N]>| in_ascending_order(q, values)
}

/// Whether `q` holds each value of `values` once, in ascending order.
pub open spec fn in_ascending_order<const N: usize>(q: Seq<[u8; N]>, values: Set<[u8; N]>) -> bool {
    &&& sorted_by(q, key_le::<N>())
    &&& q.no_duplicates()
    &&& q.to_set() == values
}

/// Only one sequence holds the values of a set once and in ascending order.
pub proof fn lemma_ascending_unique<const N: usize>(q: Seq<[u8; N]>, values: Set<[u8; N]>)
    requires
        in_ascending_order(q, values),
    ensures
        q == ascending(values),
{
    let r = ascending(values);
    assert(in_ascending_order(r, values));
    lemma_same_set_same_multiset(q, r);
    lemma_key_le_total_ordering::<N>();
    lemma_sorted_unique(q, r, key_le::<N>());
}

/// The values of a sequence can be put in ascending order, each once.
pub proof fn lemma_ascending_exists<const N: usize>(values: Seq<[u8; N]>)
    ensures
        in_ascending_order(ascending(values.to_set()), values.to_set()),
    decreases values.len(),
{
    if values.len() == 0 {
        assert(in_ascending_order(Seq::<[u8; N]>::empty(), values.to_set())) by {
            assert(Seq::<[u8; N]>::empty().to_set() =~= values.to_set());
        }
    } else {
        let earlier = values.drop_last();
        let x = values.last();
        lemma_ascending_exists(earlier);
        let q = ascending(earlier.to_set());
        assert(values =~= earlier.push(x));
        earlier.lemma_push_to_set_commute(x);
        if q.contains(x) {
            assert(values.to_set() =~= earlier.to_set());
        } else {
            let longer = q.push(x);
            q.lemma_push_to_set_commute(x);
            assert(longer.to_set() =~= values.to_set());
            lemma_ascending_of_distinct(longer);
        }
    }
}

/// The values of a sequence in ascending order, each once, are no more than
/// the sequence is long.
pub proof fn lemma_ascending_bounded<const N: usize>(values: Seq<[u8; N]>)
    ensures
        in_ascending_order(ascending(values.to_set()), values.to_set()),
        ascending(values.to_set()).len() <= values.len(),
{
    lemma_ascending_exists(values);
    ascending(values.to_set()).unique_seq_to_set();
    values.lemma_cardinality_of_set();
}

/// The values of a sequence without repetition can be put in ascending order.
proof fn lemma_ascending_of_distinct<const N: usize>(values: Seq<[u8; N]>)
    requires
        values.no_duplicates(),
    ensures
        in_ascending_order(ascending(values.to_set()), values.to_set()),
{
    lemma_key_le_total_ordering::<N>();
    let le = key_le::<N>();
    let q = values.sort_by(le);
    values.lemma_sort_by_ensures(le);
    values.lemma_multiset_has_no_duplicates();
    q.lemma_multiset_has_no_duplicates_conv();
    assert forall|x: [u8; N]| q.to_set().contains(x) == values.to_set().contains(x) by {
        to_multiset_contains(q, x);
        to_multiset_contains(values, x);
    }
    assert(q.to_set() =~= values.to_set());
    assert(in_ascending_order(q, values.to_set()));
}

/// Two sequences without repetition that hold the same values hold each of
/// them once, so they agree as multisets too.
pub proof fn lemma_same_set_same_multiset<A>(a: Seq<A>, b: Seq<A>)
    requires
        a.no_duplicates(),
        b.no_duplicates(),
        a.to_set() == b.to_set(),
    ensures
        a.to_multiset() == b.to_multiset(),
{
    a.lemma_multiset_has_no_duplicates();
    b.lemma_multiset_has_no_duplicates();
    assert forall|x: A| a.to_multiset().count(x) == b.to_multiset().count(x) by {
        to_multiset_contains(a, x);
        to_multiset_contains(b, x);
        assert(a.contains(x) == a.to_set().contains(x));
        assert(b.contains(x) == b.to_set().contains(x));
    }
    assert(a.to_multiset() =~= b.to_multiset());
}

} // verus!
