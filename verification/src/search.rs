//! Searching the registry: which assets a filter selects, and the
//! asset-type facets of the selection.
use vstd::prelude::*;

use crate::registry::Asset;
use crate::symbol::Symbol;

verus! {

/// Which assets a search selects.
#[derive(Debug, PartialEq, Eq)]
pub struct SearchFilter {
    /// Only assets of this type, or every asset when `None`.
    pub asset_type: Option<Symbol>,
}

/// The assets a search selected.
#[derive(Debug, PartialEq, Eq)]
pub struct SearchPage {
    /// The selected assets, in registration order.
    pub assets: Vec<Asset>,
    /// How many assets were selected.
    pub total: u64,
    /// The selected assets' type facets.
    pub facets: Vec<FacetCount>,
}

/// Whether `filter` selects `asset`.
pub open spec fn selects(filter: Option<Symbol>, asset: Asset) -> bool {
    match filter {
        None => true,
        Some(t) => asset.asset_type@ == t@,
    }
}

/// How many selected assets have a given type.
#[derive(Debug, PartialEq, Eq)]
pub struct FacetCount {
    pub asset_type: Symbol,
    pub count: u64,
}

/// A facet as a mathematical value: the type's text and its count.
pub open spec fn facet_view(f: FacetCount) -> (Seq<char>, nat) {
    (f.asset_type@, f.count as nat)
}

/// No two facets share a type.
pub open spec fn distinct_types(f: Seq<(Seq<char>, nat)>) -> bool {
    forall|i: int, j: int| 0 <= i < f.len() && 0 <= j < f.len() && #[trigger] f[i].0 == #[trigger] f[j].0 ==> i == j
}

/// The facets after one more asset of type `t`: its type's count goes up
/// by one, or the type is appended with count 1.
pub open spec fn facet_step(f: Seq<(Seq<char>, nat)>, t: Seq<char>) -> Seq<(Seq<char>, nat)> {
    if exists|i: int| 0 <= i < f.len() && f[i].0 == t {
        let i = choose|i: int| 0 <= i < f.len() && f[i].0 == t;
        f.update(i, (t, f[i].1 + 1))
    } else {
        f.push((t, 1nat))
    }
}

/// The type facets of `assets`: each type present, in order of first
/// appearance, with the number of assets of that type.
pub open spec fn facets_of(assets: Seq<Asset>) -> Seq<(Seq<char>, nat)>
    decreases assets.len(),
{
    if assets.len() == 0 {
        Seq::empty()
    } else {
        facet_step(facets_of(assets.drop_last()), assets.last().asset_type@)
    }
}

proof fn lemma_step_distinct(f: Seq<(Seq<char>, nat)>, t: Seq<char>)
    requires
        distinct_types(f),
    ensures
        distinct_types(facet_step(f, t)),
        facet_step(f, t).len() <= f.len() + 1,
{
    let g = facet_step(f, t);
    if exists|i: int| 0 <= i < f.len() && f[i].0 == t {
        let k = choose|i: int| 0 <= i < f.len() && f[i].0 == t;
        assert forall|i: int, j: int| 0 <= i < g.len() && 0 <= j < g.len() && #[trigger] g[i].0 == #[trigger] g[j].0 implies i
            == j by {
            assert(g[i].0 == f[i].0);
            assert(g[j].0 == f[j].0);
        }
    } else {
        assert forall|i: int, j: int| 0 <= i < g.len() && 0 <= j < g.len() && #[trigger] g[i].0 == #[trigger] g[j].0 implies i
            == j by {
            if i < f.len() && j < f.len() {
                assert(g[i] == f[i]);
                assert(g[j] == f[j]);
            } else if i < f.len() {
                assert(g[i] == f[i]);
            } else if j < f.len() {
                assert(g[j] == f[j]);
            }
        }
    }
}

proof fn lemma_facets_distinct(assets: Seq<Asset>)
    ensures
        distinct_types(facets_of(assets)),
        facets_of(assets).len() <= assets.len(),
        forall|k: int| 0 <= k < facets_of(assets).len() ==> #[trigger] facets_of(assets)[k].1 <= assets.len(),
    decreases assets.len(),
{
    if assets.len() > 0 {
        let f = facets_of(assets.drop_last());
        let t = assets.last().asset_type@;
        lemma_facets_distinct(assets.drop_last());
        lemma_step_distinct(f, t);
        let g = facet_step(f, t);
        assert forall|k: int| 0 <= k < g.len() implies #[trigger] g[k].1 <= assets.len() by {
            if exists|i: int| 0 <= i < f.len() && f[i].0 == t {
                let c = choose|i: int| 0 <= i < f.len() && f[i].0 == t;
                if k != c {
                    assert(g[k] == f[k]);
                }
            } else {
                if k < f.len() {
                    assert(g[k] == f[k]);
                }
            }
        }
    }
}

fn find_facet(facets: &Vec<FacetCount>, t: &Symbol) -> (r: Option<usize>)
    ensures
        r matches Some(j) ==> j < facets@.len() && facets@[j as int].asset_type@ == t@,
        r is None ==> forall|k: int| 0 <= k < facets@.len() ==> (#[trigger] facets@[k]).asset_type@ != t@,
{
    let mut j: usize = 0;
    while j < facets.len()
        invariant
            j <= facets@.len(),
            forall|k: int| 0 <= k < j ==> (#[trigger] facets@[k]).asset_type@ != t@,
        decreases facets@.len() - j,
    {
        if facets[j].asset_type.is(t.as_str()) {
            return Some(j);
        }
        j = j + 1;
    }
    None
}

/// The type facets of `assets` (see `facets_of`).
pub fn facet_counts(assets: &Vec<Asset>) -> (facets: Vec<FacetCount>)
    ensures
        facets@.map_values(|f: FacetCount| facet_view(f)) == facets_of(assets@),
{
    let mut facets: Vec<FacetCount> = Vec::new();
    let mut i: usize = 0;
    while i < assets.len()
        invariant
            i <= assets@.len(),
            facets@.map_values(|f: FacetCount| facet_view(f)) == facets_of(assets@.take(i as int)),
        decreases assets@.len() - i,
    {
        let ghost prefix = assets@.take(i as int);
        let ghost before = facets@.map_values(|f: FacetCount| facet_view(f));
        proof {
            lemma_facets_distinct(prefix);
            assert(assets@.take(i + 1).drop_last() =~= prefix);
            assert(assets@.take(i + 1).last() == assets@[i as int]);
        }
        let t = &assets[i].asset_type;
        let pos = find_facet(&facets, t);
        if let Some(j) = pos {
            proof {
                assert(before[j as int].0 == t@);
                let c = choose|c: int| 0 <= c < before.len() && before[c].0 == t@;
                assert(c == j);
            }
            assert(facets[j as int].count < u64::MAX) by {
                assert(before[j as int].1 <= prefix.len());
            }
            let updated = FacetCount { asset_type: t.clone(), count: facets[j].count + 1 };
            facets.set(j, updated);
            proof {
                assert(facets@.map_values(|f: FacetCount| facet_view(f)) =~= facet_step(before, t@));
            }
        } else {
            proof {
                assert(!exists|c: int| 0 <= c < before.len() && before[c].0 == t@) by {
                    if exists|c: int| 0 <= c < before.len() && before[c].0 == t@ {
                        let c = choose|c: int| 0 <= c < before.len() && before[c].0 == t@;
                        assert(facets@[c].asset_type@ == t@);
                    }
                }
            }
            facets.push(FacetCount { asset_type: t.clone(), count: 1 });
            proof {
                assert(facets@.map_values(|f: FacetCount| facet_view(f)) =~= facet_step(before, t@));
            }
        }
        i = i + 1;
    }
    assert(assets@.take(assets@.len() as int) =~= assets@);
    facets
}

} // verus!
