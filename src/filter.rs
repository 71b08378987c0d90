//! Composition of the LDAP search filter used for bulk lookups.
use vstd::prelude::*;

verus! {

/// The disjunction `(attr=id1)(attr=id2)...`, one clause per identifier.
pub open spec fn clauses(ids: Seq<Seq<char>>, attr: Seq<char>) -> Seq<char>
    decreases ids.len(),
{
    if ids.len() == 0 {
        Seq::empty()
    } else {
        clauses(ids.drop_last(), attr) + "("@ + attr + "="@ + ids.last() + ")"@
    }
}

/// `(&(objectCategory=<cat>)(|(<attr>=<id1>)...))`; no value is escaped.
pub open spec fn bulk_filter(ids: Seq<Seq<char>>, cat: Seq<char>, attr: Seq<char>) -> Seq<char> {
    "(&(objectCategory="@ + cat + ")(|"@ + clauses(ids, attr) + "))"@
}

/// The identifiers as character sequences.
pub open spec fn ids_view(set: Seq<&str>) -> Seq<Seq<char>> {
    set.map_values(|s: &str| s@)
}

/// Builds a filter that matches entries of `category` whose `attribute`
/// equals any of the identifiers in `set`.
pub fn generate_bulk_filter(set: &[&str], category: &str, attribute: &str) -> (r: String)
    ensures
        r@ == bulk_filter(ids_view(set@), category@, attribute@),
{
    let ghost ids = ids_view(set@);
    let mut filter = String::from_str("(&(objectCategory=");
    filter.append(category);
    filter.append(")(|");
    let ghost head = filter@;
    proof {
        assert(ids.take(0) =~= Seq::<Seq<char>>::empty());
    }
    let mut i: usize = 0;
    while i < set.len()
        invariant
            ids == ids_view(set@),
            i <= set@.len(),
            filter@ == head + clauses(ids.take(i as int), attribute@),
        decreases set@.len() - i,
    {
        filter.append("(");
        filter.append(attribute);
        filter.append("=");
        filter.append(set[i]);
        filter.append(")");
        proof {
            assert(ids.take(i + 1).drop_last() =~= ids.take(i as int));
            assert(ids.take(i + 1).last() == set@[i as int]@);
            assert(filter@ =~= head + clauses(ids.take(i + 1), attribute@));
        }
        i = i + 1;
    }
    filter.append("))");
    proof {
        assert(ids.take(set@.len() as int) =~= ids);
        assert(filter@ =~= bulk_filter(ids, category@, attribute@));
    }
    filter
}

/// The filter depends on its arguments alone: equal arguments give equal
/// strings, on every call.
pub proof fn lemma_filter_deterministic(
    ids1: Seq<Seq<char>>,
    cat1: Seq<char>,
    attr1: Seq<char>,
    ids2: Seq<Seq<char>>,
    cat2: Seq<char>,
    attr2: Seq<char>,
)
    requires
        ids1 == ids2,
        cat1 == cat2,
        attr1 == attr2,
    ensures
        bulk_filter(ids1, cat1, attr1) == bulk_filter(ids2, cat2, attr2),
{
}

} // verus!
