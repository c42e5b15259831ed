//! Media planning decisions: matching user assets to chunks from an LLM's
//! plan, falling back to stock search, and turning search hits into media.
use vstd::prelude::*;

use crate::types::{
    source_view, MediaAsset, MediaFallback, MediaKind, MediaSearchResult, MediaSource, PlannedMedia,
    SourceView,
};

verus! {

broadcast use vstd::seq_lib::group_seq_properties;

/// The settings of LLM-based asset planning.
#[derive(Debug, Clone)]
pub struct AssetPlanSettings {
    /// Whether an asset may serve several chunks. Default: `true`.
    pub allow_reuse: bool,
    /// How many chunks one asset may serve at most; `None` for no limit.
    pub max_reuse: Option<usize>,
    /// The user's assets with their descriptions.
    pub assets: Vec<MediaAsset>,
    /// What to do with unmatched chunks. Default: stock search.
    pub fallback: MediaFallback,
}

impl AssetPlanSettings {
    pub fn new() -> (r: Self)
        ensures
            r.allow_reuse,
            r.max_reuse is None,
            r.assets@.len() == 0,
            r.fallback == MediaFallback::StockSearch,
    {
        AssetPlanSettings {
            allow_reuse: true,
            max_reuse: None,
            assets: Vec::new(),
            fallback: MediaFallback::StockSearch,
        }
    }

    /// Provides the assets to match.
    pub fn assets(self, assets: Vec<MediaAsset>) -> (r: Self)
        ensures
            r == (AssetPlanSettings { assets, ..self }),
    {
        AssetPlanSettings { assets, ..self }
    }

    /// Sets what happens to unmatched chunks.
    pub fn fallback(self, fallback: MediaFallback) -> (r: Self)
        ensures
            r == (AssetPlanSettings { fallback, ..self }),
    {
        AssetPlanSettings { fallback, ..self }
    }

    /// Sets whether an asset may serve several chunks.
    pub fn allow_reuse(self, allow: bool) -> (r: Self)
        ensures
            r == (AssetPlanSettings { allow_reuse: allow, ..self }),
    {
        AssetPlanSettings { allow_reuse: allow, ..self }
    }

    /// Sets how often an asset may be reused.
    pub fn max_reuse(self, max: Option<usize>) -> (r: Self)
        ensures
            r == (AssetPlanSettings { max_reuse: max, ..self }),
    {
        AssetPlanSettings { max_reuse: max, ..self }
    }
}

/// The plan that needs no LLM: none for no chunks, no match for each chunk
/// when there are no assets; `None` when the LLM must be asked.
pub fn trivial_asset_plan(n_chunks: usize, n_assets: usize) -> (r: Option<Vec<Option<usize>>>)
    ensures
        n_chunks == 0 ==> (r matches Some(v) && v@.len() == 0),
        n_chunks > 0 && n_assets == 0 ==> (r matches Some(v) && v@ == Seq::new(
            n_chunks as nat,
            |i: int| None::<usize>,
        )),
        n_chunks > 0 && n_assets > 0 ==> r is None,
{
    if n_chunks == 0 {
        return Some(Vec::new());
    }
    if n_assets == 0 {
        let mut v: Vec<Option<usize>> = Vec::new();
        let mut i: usize = 0;
        while i < n_chunks
            invariant
                i <= n_chunks,
                v@ == Seq::new(i as nat, |j: int| None::<usize>),
            decreases n_chunks - i,
        {
            v.push(None);
            assert(v@ =~= Seq::new((i + 1) as nat, |j: int| None::<usize>));
            i = i + 1;
        }
        return Some(v);
    }
    None
}

/// A planned media item by its contents.
pub open spec fn planned_view(o: Option<PlannedMedia>) -> Option<(SourceView, MediaKind)> {
    match o {
        Some(pm) => Some((source_view(pm.source), pm.kind)),
        None => None,
    }
}

pub open spec fn planned_views(v: Seq<Option<PlannedMedia>>) -> Seq<Option<(SourceView, MediaKind)>> {
    v.map_values(|o: Option<PlannedMedia>| planned_view(o))
}

/// The most chunks one asset may serve: one when reuse is off, else the set
/// maximum (`None`: no limit).
pub open spec fn reuse_limit_spec(allow_reuse: bool, max_reuse: Option<usize>) -> Option<usize> {
    if !allow_reuse {
        Some(1)
    } else {
        max_reuse
    }
}

pub fn reuse_limit(allow_reuse: bool, max_reuse: Option<usize>) -> (r: Option<usize>)
    ensures
        r == reuse_limit_spec(allow_reuse, max_reuse),
{
    if !allow_reuse {
        Some(1)
    } else {
        max_reuse
    }
}

/// The asset the plan names for chunk `i`, when it names one of the
/// `n_assets` assets.
pub open spec fn plan_choice(n_assets: nat, plan: Option<Seq<Option<usize>>>, i: int) -> Option<usize> {
    match plan {
        Some(p) => if 0 <= i < p.len() {
            match p[i] {
                Some(idx) => if idx < n_assets {
                    Some(idx)
                } else {
                    None
                },
                None => None,
            }
        } else {
            None
        },
        None => None,
    }
}

/// How many chunks are given asset `j`.
pub open spec fn uses(s: Seq<Option<usize>>, j: usize) -> nat
    decreases s.len(),
{
    if s.len() == 0 {
        0
    } else {
        uses(s.drop_last(), j) + if s.last() == Some(j) {
            1nat
        } else {
            0nat
        }
    }
}

/// A count is below the limit (always, without a limit).
pub open spec fn under_limit(count: nat, limit: Option<usize>) -> bool {
    match limit {
        Some(m) => count < m,
        None => true,
    }
}

/// The assets given to the first `n` chunks: the plan's choice, unless that
/// asset already serves as many earlier chunks as the limit allows.
pub open spec fn limited_choices(
    n_assets: nat,
    plan: Option<Seq<Option<usize>>>,
    limit: Option<usize>,
    n: nat,
) -> Seq<Option<usize>>
    decreases n,
{
    if n == 0 {
        Seq::empty()
    } else {
        let prev = limited_choices(n_assets, plan, limit, (n - 1) as nat);
        match plan_choice(n_assets, plan, n - 1) {
            Some(j) => if under_limit(uses(prev, j), limit) {
                prev.push(Some(j))
            } else {
                prev.push(None)
            },
            None => prev.push(None),
        }
    }
}

proof fn lemma_choices_len(n_assets: nat, plan: Option<Seq<Option<usize>>>, limit: Option<usize>, n: nat)
    ensures
        limited_choices(n_assets, plan, limit, n).len() == n,
    decreases n,
{
    if n > 0 {
        lemma_choices_len(n_assets, plan, limit, (n - 1) as nat);
    }
}

proof fn lemma_uses_le_len(s: Seq<Option<usize>>, j: usize)
    ensures
        uses(s, j) <= s.len(),
    decreases s.len(),
{
    if s.len() > 0 {
        lemma_uses_le_len(s.drop_last(), j);
    }
}

/// No asset serves more chunks than the reuse limit allows, and every chosen
/// asset is one of the assets.
pub proof fn lemma_reuse_within_limit(
    n_assets: nat,
    plan: Option<Seq<Option<usize>>>,
    limit: Option<usize>,
    n: nat,
)
    ensures
        forall|j: usize|
            limit matches Some(m) ==> #[trigger] uses(limited_choices(n_assets, plan, limit, n), j) <= m,
        forall|k: int|
            0 <= k < limited_choices(n_assets, plan, limit, n).len() && #[trigger] limited_choices(n_assets, plan, limit, n)[k] is Some
                ==> limited_choices(n_assets, plan, limit, n)[k]->0 < n_assets,
    decreases n,
{
    if n > 0 {
        lemma_reuse_within_limit(n_assets, plan, limit, (n - 1) as nat);
        let prev = limited_choices(n_assets, plan, limit, (n - 1) as nat);
        let cur = limited_choices(n_assets, plan, limit, n);
        assert(cur.drop_last() =~= prev);
        if let Some(m) = limit {
            assert forall|j: usize| #[trigger] uses(cur, j) <= m by {
                assert(uses(cur, j) == uses(prev, j) + if cur.last() == Some(j) { 1nat } else { 0nat });
            }
        }
    }
}

/// A chosen asset by its contents.
pub open spec fn asset_view(assets: Seq<MediaAsset>, c: Option<usize>) -> Option<(SourceView, MediaKind)> {
    match c {
        Some(j) => Some((source_view(assets[j as int].source), assets[j as int].kind)),
        None => None,
    }
}

/// The chunks given no asset, in order.
pub open spec fn unmatched_of(choices: Seq<Option<usize>>) -> Seq<usize>
    decreases choices.len(),
{
    if choices.len() == 0 {
        Seq::empty()
    } else {
        let prev = unmatched_of(choices.drop_last());
        if choices.last() is None {
            prev.push((choices.len() - 1) as usize)
        } else {
            prev
        }
    }
}

/// The unmatched chunks are listed once each, in increasing order, and are
/// exactly the chunks given no asset.
pub proof fn lemma_unmatched_sorted(choices: Seq<Option<usize>>)
    requires
        choices.len() <= usize::MAX + 1,
    ensures
        forall|k: int| 0 <= k < unmatched_of(choices).len() ==> #[trigger] unmatched_of(choices)[k] < choices.len(),
        forall|a: int, b: int|
            0 <= a < b < unmatched_of(choices).len() ==> unmatched_of(choices)[a] < unmatched_of(choices)[b],
        forall|k: int| 0 <= k < unmatched_of(choices).len() ==> choices[#[trigger] unmatched_of(choices)[k] as int] is None,
        forall|i: int| 0 <= i < choices.len() && choices[i] is None ==> unmatched_of(choices).contains(i as usize),
    decreases choices.len(),
{
    if choices.len() > 0 {
        let d = choices.drop_last();
        lemma_unmatched_sorted(d);
        let prev = unmatched_of(d);
        let u = unmatched_of(choices);
        assert forall|k: int| 0 <= k < u.len() implies choices[#[trigger] u[k] as int] is None by {
            if k < prev.len() {
                assert(u[k] == prev[k]);
                assert(d[prev[k] as int] is None);
            }
        }
        assert forall|i: int| 0 <= i < choices.len() && choices[i] is None implies u.contains(i as usize) by {
            if i < choices.len() - 1 {
                assert(d[i] is None);
                let j = choose|j: int| 0 <= j < prev.len() && prev[j] == i as usize;
                assert(u[j] == i as usize);
            } else {
                assert(u.last() == i as usize);
            }
        }
    }
}

/// Applies an asset plan to `n` chunks under a reuse limit: each chunk gets
/// the asset its entry names, unless the entry names no asset or that asset
/// already serves as many chunks as the limit allows; the chunks left
/// without an asset are listed, in order, as unmatched. Without a plan (no
/// assets, or a failed LLM call) every chunk is unmatched.
pub fn assign_assets(
    assets: &[MediaAsset],
    plan: Option<&[Option<usize>]>,
    limit: Option<usize>,
    n: usize,
) -> (r: (Vec<Option<PlannedMedia>>, Vec<usize>))
    ensures
        ({
            let ch = limited_choices(
                assets@.len(),
                match plan {
                    Some(p) => Some(p@),
                    None => None,
                },
                limit,
                n as nat,
            );
            &&& planned_views(r.0@) == Seq::new(n as nat, |i: int| asset_view(assets@, ch[i]))
            &&& r.1@ == unmatched_of(ch)
            &&& forall|j: usize| limit matches Some(m) ==> #[trigger] uses(ch, j) <= m
            &&& forall|k: int| 0 <= k < r.1@.len() ==> #[trigger] r.1@[k] < n
            &&& forall|a: int, b: int| 0 <= a < b < r.1@.len() ==> r.1@[a] < r.1@[b]
        }),
{
    let ghost pv = match plan {
        Some(p) => Some(p@),
        None => None,
    };
    let ghost na = assets@.len();
    let mut counts: Vec<usize> = Vec::new();
    let mut z: usize = 0;
    while z < assets.len()
        invariant
            z <= assets@.len(),
            counts@.len() == z,
            forall|j: int| 0 <= j < z ==> counts@[j] == 0,
        decreases assets@.len() - z,
    {
        counts.push(0);
        z = z + 1;
    }
    let mut results: Vec<Option<PlannedMedia>> = Vec::new();
    let mut unmatched: Vec<usize> = Vec::new();
    let mut i: usize = 0;
    proof {
        lemma_choices_len(na, pv, limit, 0);
    }
    while i < n
        invariant
            i <= n,
            na == assets@.len(),
            pv == match plan {
                Some(p) => Some(p@),
                None => None::<Seq<Option<usize>>>,
            },
            limited_choices(na, pv, limit, i as nat).len() == i,
            counts@.len() == na,
            forall|j: int| 0 <= j < counts@.len() ==> #[trigger] counts@[j] == uses(limited_choices(na, pv, limit, i as nat), j as usize),
            planned_views(results@) == Seq::new(
                i as nat,
                |k: int| asset_view(assets@, limited_choices(na, pv, limit, i as nat)[k]),
            ),
            unmatched@ == unmatched_of(limited_choices(na, pv, limit, i as nat)),
        decreases n - i,
    {
        let ghost prev = limited_choices(na, pv, limit, i as nat);
        let entry: Option<usize> = match plan {
            Some(p) => if i < p.len() {
                p[i]
            } else {
                None
            },
            None => None,
        };
        let choice: Option<usize> = match entry {
            Some(idx) => if idx < assets.len() {
                let ok = match limit {
                    Some(m) => counts[idx] < m,
                    None => true,
                };
                if ok {
                    Some(idx)
                } else {
                    None
                }
            } else {
                None
            },
            None => None,
        };
        let ghost next = limited_choices(na, pv, limit, (i + 1) as nat);
        assert(next == prev.push(choice));
        assert(next.drop_last() =~= prev);
        let item: Option<PlannedMedia> = match choice {
            Some(j) => {
                proof {
                    lemma_uses_le_len(prev, j);
                }
                let c = counts[j];
                counts.set(j, c + 1);
                let a = &assets[j];
                Some(PlannedMedia { source: a.source.duplicate(), kind: a.kind })
            },
            None => {
                unmatched.push(i);
                None
            },
        };
        assert forall|j: int| 0 <= j < counts@.len() implies #[trigger] counts@[j] == uses(next, j as usize) by {
            assert(uses(next, j as usize) == uses(prev, j as usize) + if next.last() == Some(j as usize) { 1nat } else { 0nat });
        }
        assert(planned_view(item) == asset_view(assets@, choice));
        let ghost before = results@;
        let ghost iv = planned_view(item);
        results.push(item);
        assert(planned_views(results@) =~= planned_views(before).push(iv));
        assert(planned_views(results@) =~= Seq::new(
            (i + 1) as nat,
            |k: int| asset_view(assets@, next[k]),
        ));
        i = i + 1;
    }
    proof {
        let ch = limited_choices(na, pv, limit, n as nat);
        lemma_reuse_within_limit(na, pv, limit, n as nat);
        lemma_unmatched_sorted(ch);
    }
    (results, unmatched)
}

/// Whether unmatched chunks go to stock search: there are some, stock
/// search is configured, and the fallback asks for it.
pub fn wants_stock_fallback(unmatched: usize, has_stock: bool, fallback: MediaFallback) -> (b: bool)
    ensures
        b == (unmatched > 0 && has_stock && fallback == MediaFallback::StockSearch),
{
    unmatched > 0 && has_stock && fallback == MediaFallback::StockSearch
}

pub open spec fn min_nat(a: nat, b: nat) -> nat {
    if a < b {
        a
    } else {
        b
    }
}

/// Puts stock search results in place: the `k`-th result goes to the
/// `k`-th unmatched chunk; every other chunk keeps its media.
pub fn apply_stock_results(
    results: &mut Vec<Option<PlannedMedia>>,
    unmatched: &[usize],
    found: Vec<Option<PlannedMedia>>,
)
    requires
        forall|k: int| 0 <= k < unmatched@.len() ==> #[trigger] unmatched@[k] < old(results)@.len(),
        forall|a: int, b: int| 0 <= a < b < unmatched@.len() ==> unmatched@[a] < unmatched@[b],
    ensures
        final(results)@.len() == old(results)@.len(),
        forall|k: int|
            0 <= k < min_nat(unmatched@.len(), found@.len()) ==> final(results)@[#[trigger] unmatched@[k] as int]
                == found@[k],
        forall|i: int|
            0 <= i < old(results)@.len() && !(exists|k: int|
                0 <= k < min_nat(unmatched@.len(), found@.len()) && #[trigger] unmatched@[k] == i)
                ==> final(results)@[i] == old(results)@[i],
{
    let mut found = found;
    let ghost all = found@;
    let m = if unmatched.len() < found.len() {
        unmatched.len()
    } else {
        found.len()
    };
    let mut k: usize = 0;
    assert(found@ =~= all.subrange(0, all.len() as int));
    while k < m
        invariant
            k <= m,
            m == min_nat(unmatched@.len(), all.len()),
            found@ == all.subrange(k as int, all.len() as int),
            results@.len() == old(results)@.len(),
            forall|q: int| 0 <= q < unmatched@.len() ==> #[trigger] unmatched@[q] < old(results)@.len(),
            forall|a: int, b: int| 0 <= a < b < unmatched@.len() ==> unmatched@[a] < unmatched@[b],
            forall|q: int| 0 <= q < k ==> results@[#[trigger] unmatched@[q] as int] == all[q],
            forall|i: int|
                0 <= i < old(results)@.len() && !(exists|q: int| 0 <= q < k && #[trigger] unmatched@[q] == i)
                    ==> results@[i] == old(results)@[i],
        decreases m - k,
    {
        let item = found.remove(0);
        assert(item == all[k as int]);
        assert(found@ =~= all.subrange(k + 1, all.len() as int));
        let idx = unmatched[k];
        results.set(idx, item);
        assert forall|q: int| 0 <= q < k + 1 implies results@[#[trigger] unmatched@[q] as int] == all[q] by {
            if q < k {
                assert(unmatched@[q] < unmatched@[k as int]);
            }
        }
        assert forall|i: int|
            0 <= i < old(results)@.len() && !(exists|q: int| 0 <= q < k + 1 && #[trigger] unmatched@[q] == i)
                implies results@[i] == old(results)@[i] by {
            assert(unmatched@[k as int] != i);
        }
        k = k + 1;
    }
}

/// The query for stock search: the keywords joined by ", ".
pub open spec fn join_comma(x: Seq<Seq<char>>) -> Seq<char>
    decreases x.len(),
{
    if x.len() == 0 {
        Seq::empty()
    } else if x.len() == 1 {
        x[0]
    } else {
        join_comma(x.drop_last()) + ", "@ + x.last()
    }
}

/// `keywords.join(", ")`.
pub fn keywords_query(keywords: &[String]) -> (r: String)
    ensures
        r@ == join_comma(keywords@.map_values(|s: String| s@)),
{
    let mut out = String::new();
    let mut i: usize = 0;
    while i < keywords.len()
        invariant
            i <= keywords@.len(),
            out@ == join_comma(keywords@.take(i as int).map_values(|s: String| s@)),
        decreases keywords@.len() - i,
    {
        if i > 0 {
            out.append(", ");
        }
        out.append(keywords[i].as_str());
        proof {
            let x = keywords@.take(i + 1).map_values(|s: String| s@);
            assert(x.drop_last() =~= keywords@.take(i as int).map_values(|s: String| s@));
            if i == 0 {
                assert(x.len() == 1);
            }
        }
        i = i + 1;
    }
    assert(keywords@.take(keywords@.len() as int) =~= keywords@);
    out
}

/// The media of a stock search: its first hit, as a URL.
pub fn first_planned(results: Vec<MediaSearchResult>) -> (r: Option<PlannedMedia>)
    ensures
        r == if results@.len() > 0 {
            Some(PlannedMedia { source: MediaSource::Url(results@[0].url), kind: results@[0].kind })
        } else {
            None
        },
{
    let mut results = results;
    if results.len() > 0 {
        let first = results.remove(0);
        Some(PlannedMedia { source: MediaSource::Url(first.url), kind: first.kind })
    } else {
        None
    }
}

} // verus!
