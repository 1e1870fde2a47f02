//! Lexicographic order on names, and sorting of name lists.
use vstd::prelude::*;

verus! {

broadcast use vstd::seq_lib::group_to_multiset_ensures;

/// Strict lexicographic order on character sequences, comparing characters
/// by code point; a proper prefix comes first.
pub open spec fn lex_lt(a: Seq<char>, b: Seq<char>) -> bool
    decreases a.len(),
{
    if a.len() == 0 {
        b.len() > 0
    } else if b.len() == 0 {
        false
    } else if a[0] != b[0] {
        (a[0] as int) < (b[0] as int)
    } else {
        lex_lt(a.drop_first(), b.drop_first())
    }
}

pub open spec fn lex_le(a: Seq<char>, b: Seq<char>) -> bool {
    a == b || lex_lt(a, b)
}

/// The views of a list of strings.
pub open spec fn names_of(v: Seq<String>) -> Seq<Seq<char>> {
    v.map_values(|s: String| s@)
}

/// Every earlier name is at most every later one.
pub open spec fn ascending(s: Seq<Seq<char>>) -> bool {
    forall|i: int, j: int| 0 <= i < j < s.len() ==> lex_le(#[trigger] s[i], #[trigger] s[j])
}

/// `out` holds exactly the names of `input`, each as often, in ascending order.
pub open spec fn arranges(out: Seq<Seq<char>>, input: Seq<Seq<char>>) -> bool {
    ascending(out) && out.to_multiset() == input.to_multiset()
}

/// Of two different names exactly one comes first.
pub proof fn lemma_lex_total(a: Seq<char>, b: Seq<char>)
    ensures
        a != b ==> (lex_lt(a, b) || lex_lt(b, a)),
        !(lex_lt(a, b) && lex_lt(b, a)),
    decreases a.len(),
{
    if a.len() > 0 && b.len() > 0 {
        lemma_lex_total(a.drop_first(), b.drop_first());
        if a[0] == b[0] && a.drop_first() == b.drop_first() {
            assert(a =~= seq![a[0]] + a.drop_first());
            assert(b =~= seq![b[0]] + b.drop_first());
        }
    } else if a.len() == 0 && b.len() == 0 {
        assert(a =~= b);
    }
}

pub proof fn lemma_lex_trans(a: Seq<char>, b: Seq<char>, c: Seq<char>)
    requires
        lex_lt(a, b),
        lex_lt(b, c),
    ensures
        lex_lt(a, c),
    decreases a.len(),
{
    if a.len() > 0 && b.len() > 0 && c.len() > 0 && a[0] == b[0] && b[0] == c[0] {
        lemma_lex_trans(a.drop_first(), b.drop_first(), c.drop_first());
    }
}

pub proof fn lemma_lex_le_trans(a: Seq<char>, b: Seq<char>, c: Seq<char>)
    requires
        lex_le(a, b),
        lex_le(b, c),
    ensures
        lex_le(a, c),
{
    if lex_lt(a, b) && lex_lt(b, c) {
        lemma_lex_trans(a, b, c);
    }
}

/// Relies on std's `Ord` for `str` (reached through `<` on `String`):
/// strings are ordered lexicographically by code point.
#[verifier::external_body]
fn name_less(a: &String, b: &String) -> (r: bool)
    ensures
        r == lex_lt(a@, b@),
{
    a < b
}

/// Returns the names of `names`, each as often as it occurs there, in
/// ascending lexicographic order.
pub fn sort_names(names: &Vec<String>) -> (r: Vec<String>)
    ensures
        arranges(names_of(r@), names_of(names@)),
{
    let mut out: Vec<String> = Vec::new();
    let mut i: usize = 0;
    proof {
        assert(names_of(out@) =~= names_of(names@.take(0)));
    }
    while i < names.len()
        invariant
            i <= names.len(),
            arranges(names_of(out@), names_of(names@.take(i as int))),
        decreases names.len() - i,
    {
        let x = names[i].clone();
        let mut k: usize = 0;
        while k < out.len() && !name_less(&x, &out[k])
            invariant
                k <= out.len(),
                forall|j: int| 0 <= j < k ==> lex_le(#[trigger] out@[j]@, x@),
            decreases out.len() - k,
        {
            proof {
                lemma_lex_total(x@, out@[k as int]@);
            }
            k += 1;
        }
        let ghost before = names_of(out@);
        out.insert(k, x);
        proof {
            assert(names_of(out@) =~= before.insert(k as int, x@));
            assert(names_of(names@.take(i + 1)) =~= names_of(names@.take(i as int)).push(x@));
            let s = names_of(out@);
            assert forall|p: int, q: int| 0 <= p < q < s.len() implies lex_le(
                #[trigger] s[p],
                #[trigger] s[q],
            ) by {
                if q == k {
                    assert(lex_le(before[p], x@));
                } else if p == k {
                    let e = before[q - 1];
                    if q - 1 > k {
                        assert(lex_le(before[k as int], e));
                    }
                    lemma_lex_le_trans(x@, before[k as int], e);
                }
            }
        }
        i += 1;
    }
    proof {
        assert(names@.take(names.len() as int) =~= names@);
    }
    out
}

} // verus!
