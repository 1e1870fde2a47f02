//! Properties of the catalog that hold across calls.
use vstd::prelude::*;
use crate::catalog::{DatabaseModel, kept, lemma_kept_count, with_probe};
use crate::order::{arranges, ascending, lemma_lex_total, lex_le};

verus! {

broadcast use vstd::seq_lib::group_to_multiset_ensures;

proof fn lemma_ascending_drop_first(a: Seq<Seq<char>>)
    requires
        ascending(a),
        a.len() > 0,
    ensures
        ascending(a.drop_first()),
{
    let t = a.drop_first();
    assert forall|i: int, j: int| 0 <= i < j < t.len() implies lex_le(
        #[trigger] t[i],
        #[trigger] t[j],
    ) by {
        assert(lex_le(a[i + 1], a[j + 1]));
    }
}

/// The first name of an ascending list is at most every name it holds.
proof fn lemma_first_is_least(a: Seq<Seq<char>>, x: Seq<char>)
    requires
        ascending(a),
        a.contains(x),
    ensures
        lex_le(a[0], x),
{
    let j = choose|j: int| 0 <= j < a.len() && a[j] == x;
    if j > 0 {
        assert(lex_le(a[0], a[j]));
    }
}

/// Two ascending lists that hold the same names, each as often, are equal.
pub proof fn lemma_arrangement_unique(a: Seq<Seq<char>>, b: Seq<Seq<char>>)
    requires
        ascending(a),
        ascending(b),
        a.to_multiset() == b.to_multiset(),
    ensures
        a == b,
    decreases a.len(),
{
    vstd::seq_lib::to_multiset_len(a);
    vstd::seq_lib::to_multiset_len(b);
    if a.len() == 0 {
        assert(a =~= b);
    } else {
        let x = a[0];
        let y = b[0];
        assert(a.contains(x));
        assert(b.contains(y));
        vstd::seq_lib::to_multiset_contains(a, x);
        vstd::seq_lib::to_multiset_contains(b, x);
        vstd::seq_lib::to_multiset_contains(a, y);
        vstd::seq_lib::to_multiset_contains(b, y);
        lemma_first_is_least(b, x);
        lemma_first_is_least(a, y);
        lemma_lex_total(x, y);
        assert(a.remove(0) =~= a.drop_first());
        assert(b.remove(0) =~= b.drop_first());
        lemma_ascending_drop_first(a);
        lemma_ascending_drop_first(b);
        lemma_arrangement_unique(a.drop_first(), b.drop_first());
        assert forall|i: int| 0 <= i < a.len() implies a[i] == b[i] by {
            if i > 0 {
                assert(a[i] == a.drop_first()[i - 1]);
                assert(b[i] == b.drop_first()[i - 1]);
            }
        }
        assert(a =~= b);
    }
}

/// The order of the collections of a database depends only on which names
/// the server listed, each how often, and not on the order it listed them in.
pub proof fn law_collection_order_ignores_listing_order(
    listed1: Seq<Seq<char>>,
    listed2: Seq<Seq<char>>,
    out1: Seq<Seq<char>>,
    out2: Seq<Seq<char>>,
)
    requires
        listed1.to_multiset() == listed2.to_multiset(),
        arranges(out1, listed1),
        arranges(out2, listed2),
    ensures
        out1 == out2,
{
    lemma_arrangement_unique(out1, out2);
}

/// The databases of a catalog depend only on which names the server listed,
/// each how often, and not on the order it listed them in.
pub proof fn law_database_order_ignores_listing_order(
    listed1: Seq<Seq<char>>,
    listed2: Seq<Seq<char>>,
    out1: Seq<Seq<char>>,
    out2: Seq<Seq<char>>,
)
    requires
        listed1.to_multiset() == listed2.to_multiset(),
        arranges(out1, kept(listed1)),
        arranges(out2, kept(listed2)),
    ensures
        out1 == out2,
{
    assert forall|n: Seq<char>| #[trigger] kept(listed1).to_multiset().count(n) == kept(
        listed2,
    ).to_multiset().count(n) by {
        lemma_kept_count(listed1, n);
        lemma_kept_count(listed2, n);
    }
    assert(kept(listed1).to_multiset() =~= kept(listed2).to_multiset());
    lemma_arrangement_unique(out1, out2);
}

/// A collection shows what its latest probe found: an earlier probe leaves
/// no trace, and recording the same probe again changes nothing.
pub proof fn law_latest_probe_wins(
    d: DatabaseModel,
    i: int,
    count1: u64,
    indexes1: Seq<Seq<char>>,
    count2: u64,
    indexes2: Seq<Seq<char>>,
)
    requires
        0 <= i < d.collections.len(),
    ensures
        with_probe(with_probe(d, i, count1, indexes1), i, count2, indexes2) == with_probe(
            d,
            i,
            count2,
            indexes2,
        ),
        with_probe(with_probe(d, i, count2, indexes2), i, count2, indexes2) == with_probe(
            d,
            i,
            count2,
            indexes2,
        ),
{
    assert(with_probe(with_probe(d, i, count1, indexes1), i, count2, indexes2).collections
        =~= with_probe(d, i, count2, indexes2).collections);
    assert(with_probe(with_probe(d, i, count2, indexes2), i, count2, indexes2).collections
        =~= with_probe(d, i, count2, indexes2).collections);
}

/// Probes of two different collections may complete in either order: the
/// database comes out the same.
pub proof fn law_probes_commute(
    d: DatabaseModel,
    i: int,
    count_i: u64,
    indexes_i: Seq<Seq<char>>,
    j: int,
    count_j: u64,
    indexes_j: Seq<Seq<char>>,
)
    requires
        0 <= i < d.collections.len(),
        0 <= j < d.collections.len(),
        i != j,
    ensures
        with_probe(with_probe(d, i, count_i, indexes_i), j, count_j, indexes_j) == with_probe(
            with_probe(d, j, count_j, indexes_j),
            i,
            count_i,
            indexes_i,
        ),
{
    assert(with_probe(with_probe(d, i, count_i, indexes_i), j, count_j, indexes_j).collections
        =~= with_probe(with_probe(d, j, count_j, indexes_j), i, count_i, indexes_i).collections);
}

} // verus!
