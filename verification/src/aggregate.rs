//! The aggregator: merges the joined rows of a component scan into one
//! component per name. Rows that share a component name arrive once per
//! matched target row; they merge into a single component whose target list
//! grows in row order, and whose scalar fields come from the first row seen.

use vstd::prelude::*;

use crate::models::{
    opt_view, target_views, component_views, Component, ComponentTarget, ComponentV, TargetV,
};
use crate::store::{component_row_views, ComponentRow, ComponentRowV};

verus! {

/// An optional column read as text: absent means the empty string.
pub open spec fn or_empty(o: Option<Seq<char>>) -> Seq<char> {
    match o {
        Some(s) => s,
        None => Seq::empty(),
    }
}

/// The target a join row carries: none when the left join matched no target
/// row (all three target columns absent); otherwise the three columns, an
/// individually absent column read as the empty string.
pub open spec fn row_target(r: ComponentRowV) -> Option<TargetV> {
    if r.target_name is None && r.target_url is None && r.target_hash is None {
        None
    } else {
        Some(
            TargetV {
                name: or_empty(r.target_name),
                url: or_empty(r.target_url),
                hash: or_empty(r.target_hash),
            },
        )
    }
}

/// The distinct component names of a row sequence, in first-sight order.
pub open spec fn names_in_order(rows: Seq<ComponentRowV>) -> Seq<Seq<char>>
    decreases rows.len(),
{
    if rows.len() == 0 {
        Seq::empty()
    } else {
        let pre = names_in_order(rows.drop_last());
        if pre.contains(rows.last().name) {
            pre
        } else {
            pre.push(rows.last().name)
        }
    }
}

/// The rows that belong to one component name, in row order.
pub open spec fn rows_named(rows: Seq<ComponentRowV>, name: Seq<char>) -> Seq<ComponentRowV> {
    rows.filter(|r: ComponentRowV| r.name == name)
}

/// The targets a row sequence carries, in row order.
pub open spec fn targets_of(rows: Seq<ComponentRowV>) -> Seq<TargetV>
    decreases rows.len(),
{
    if rows.len() == 0 {
        Seq::empty()
    } else {
        let pre = targets_of(rows.drop_last());
        match row_target(rows.last()) {
            Some(t) => pre.push(t),
            None => pre,
        }
    }
}

/// The one component a name's rows merge into: scalar fields from the first
/// row of that name, targets appended in row order, and an absent target
/// list when no row carries a target.
pub open spec fn component_of(rows: Seq<ComponentRowV>, name: Seq<char>) -> ComponentV {
    let own = rows_named(rows, name);
    let ts = targets_of(own);
    ComponentV {
        name: name,
        version: own[0].version,
        target: if ts.len() == 0 {
            None
        } else {
            Some(ts)
        },
        git_commit: own[0].git_commit,
        profile_complete: own[0].profile_complete,
        profile_default: own[0].profile_default,
        profile_minimal: own[0].profile_minimal,
    }
}

/// What aggregation of a row sequence returns: one component per distinct
/// name, in first-sight order.
pub open spec fn aggregate(rows: Seq<ComponentRowV>) -> Seq<ComponentV> {
    names_in_order(rows).map_values(|n: Seq<char>| component_of(rows, n))
}

/// A component's targets as a plain sequence, an absent list read as empty.
pub open spec fn target_list(c: ComponentV) -> Seq<TargetV> {
    match c.target {
        Some(ts) => ts,
        None => Seq::empty(),
    }
}

/// A name stands among the aggregated names exactly when some row carries it.
pub proof fn lemma_names_contains(rows: Seq<ComponentRowV>, n: Seq<char>)
    ensures
        names_in_order(rows).contains(n) <==> exists|i: int|
            0 <= i < rows.len() && rows[i].name == n,
    decreases rows.len(),
{
    if rows.len() == 0 {
        assert(!names_in_order(rows).contains(n));
    } else {
        let pre = rows.drop_last();
        let last = rows.last();
        lemma_names_contains(pre, n);
        assert(forall|j: int| 0 <= j < pre.len() ==> (#[trigger] pre[j]) == rows[j]);
        let names_pre = names_in_order(pre);
        // exists in rows ==> contains
        if exists|i: int| 0 <= i < rows.len() && rows[i].name == n {
            let i = choose|i: int| 0 <= i < rows.len() && (#[trigger] rows[i].name) == n;
            if i < rows.len() - 1 {
                assert(pre[i].name == n);
                assert(names_pre.contains(n));
            } else {
                assert(last.name == n);
            }
            if names_pre.contains(n) {
                if names_pre.contains(last.name) {
                    assert(names_in_order(rows) == names_pre);
                } else {
                    assert(names_in_order(rows) == names_pre.push(last.name));
                    let k = choose|k: int|
                        0 <= k < names_pre.len() && (#[trigger] names_pre[k]) == n;
                    assert(names_in_order(rows)[k] == n);
                }
            } else {
                assert(last.name == n);
                assert(!names_pre.contains(last.name));
                assert(names_in_order(rows) == names_pre.push(n));
                assert(names_in_order(rows).last() == n);
            }
            assert(names_in_order(rows).contains(n));
        }
        // contains ==> exists in rows
        if names_in_order(rows).contains(n) {
            if names_pre.contains(n) {
                let j = choose|j: int| 0 <= j < pre.len() && (#[trigger] pre[j].name) == n;
                assert(rows[j].name == n);
            } else {
                if names_pre.contains(last.name) {
                    assert(names_in_order(rows) == names_pre);
                    assert(false);
                } else {
                    assert(names_in_order(rows) == names_pre.push(last.name));
                    let k = choose|k: int|
                        0 <= k < names_in_order(rows).len() && (#[trigger] names_in_order(
                            rows,
                        )[k]) == n;
                    if k < names_pre.len() {
                        assert(names_pre[k] == n);
                        assert(false);
                    } else {
                        assert(last.name == n);
                        assert(rows[rows.len() - 1].name == n);
                    }
                }
            }
            assert(exists|i: int| 0 <= i < rows.len() && (#[trigger] rows[i].name) == n);
        }
    }
}

/// Where a name first occurs, that row heads the name's row list.
pub proof fn lemma_first_occurrence(rows: Seq<ComponentRowV>, i: int)
    requires
        0 <= i < rows.len(),
        forall|j: int| 0 <= j < i ==> (#[trigger] rows[j].name) != rows[i].name,
    ensures
        rows_named(rows, rows[i].name).len() > 0,
        rows_named(rows, rows[i].name)[0] == rows[i],
{
    let n = rows[i].name;
    crate::filtering::lemma_filter_first(rows, i, |r: ComponentRowV| r.name == n);
}

/// Rows that all carry one name aggregate to exactly that name.
pub proof fn lemma_names_uniform(rows: Seq<ComponentRowV>, n: Seq<char>)
    requires
        rows.len() > 0,
        forall|i: int| 0 <= i < rows.len() ==> (#[trigger] rows[i].name) == n,
    ensures
        names_in_order(rows) == seq![n],
    decreases rows.len(),
{
    let pre = rows.drop_last();
    assert(rows.last().name == n);
    if rows.len() == 1 {
        assert(names_in_order(pre) == Seq::<Seq<char>>::empty());
        assert(!names_in_order(pre).contains(n));
        assert(names_in_order(rows) =~= seq![n]);
    } else {
        assert(forall|i: int| 0 <= i < pre.len() ==> (#[trigger] pre[i].name) == n);
        lemma_names_uniform(pre, n);
        assert(names_in_order(pre).contains(n)) by {
            assert(names_in_order(pre)[0] == n);
        }
        assert(names_in_order(rows) == names_in_order(pre));
    }
}

/// Rows that all carry one name aggregate to a single component.
pub proof fn lemma_aggregate_uniform(rows: Seq<ComponentRowV>, n: Seq<char>)
    requires
        rows.len() > 0,
        forall|i: int| 0 <= i < rows.len() ==> (#[trigger] rows[i].name) == n,
    ensures
        aggregate(rows) == seq![component_of(rows, n)],
{
    lemma_names_uniform(rows, n);
    assert(aggregate(rows) =~= seq![component_of(rows, n)]);
}

/// Builds the target of one join row, if the row carries one.
pub fn row_target_of(r: &ComponentRow) -> (t: Option<ComponentTarget>)
    ensures
        match t {
            Some(tv) => row_target(r@) == Some(tv@),
            None => row_target(r@) is None,
        },
{
    if r.target_name.is_none() && r.target_url.is_none() && r.target_hash.is_none() {
        None
    } else {
        Some(
            ComponentTarget {
                name: string_or_empty(&r.target_name),
                url: string_or_empty(&r.target_url),
                hash: string_or_empty(&r.target_hash),
            },
        )
    }
}

/// An optional text column as an owned string, absent read as empty.
fn string_or_empty(o: &Option<String>) -> (s: String)
    ensures
        s@ == or_empty(opt_view(*o)),
{
    match o {
        Some(x) => x.clone(),
        None => String::new(),
    }
}

/// An optional text column cloned as loaded.
pub(crate) fn opt_string_clone(o: &Option<String>) -> (r: Option<String>)
    ensures
        opt_view(r) == opt_view(*o),
{
    match o {
        Some(x) => Some(x.clone()),
        None => None,
    }
}

/// The aggregator: merges joined rows into one component per name, in
/// first-sight order. Scalar component fields come from the first row of a
/// name; targets append in row order; a component none of whose rows carries
/// a target keeps an absent target list.
pub fn get_version_components_rows(rows: &Vec<ComponentRow>) -> (out: Vec<Component>)
    ensures
        component_views(out@) == aggregate(component_row_views(rows@)),
{
    let ghost rv = component_row_views(rows@);
    let mut out: Vec<Component> = Vec::new();
    let mut i: usize = 0;
    while i < rows.len()
        invariant
            i <= rows.len(),
            rv == component_row_views(rows@),
            component_views(out@) == names_in_order(rv.take(i as int)).map_values(
                |n: Seq<char>| component_of(rv, n),
            ),
        decreases rows.len() - i,
    {
        let ghost n = rv[i as int].name;
        // was this name already seen among the earlier rows?
        let mut seen = false;
        let mut j: usize = 0;
        while j < i
            invariant
                j <= i,
                i < rows.len(),
                rv == component_row_views(rows@),
                seen <==> exists|k: int| 0 <= k < j && (#[trigger] rv[k].name) == rv[i as int].name,
            decreases i - j,
        {
            if rows[j].name == rows[i].name {
                seen = true;
                assert(rv[j as int].name == rv[i as int].name);
            }
            j += 1;
        }
        proof {
            lemma_names_contains(rv.take(i as int), n);
            assert(rv.take(i as int + 1).drop_last() =~= rv.take(i as int));
            assert(rv.take(i as int + 1).last() == rv[i as int]);
            if seen {
                let k = choose|k: int| 0 <= k < i && (#[trigger] rv[k].name) == rv[i as int].name;
                assert(rv.take(i as int)[k].name == n);
                assert(names_in_order(rv.take(i as int)).contains(n));
            } else {
                assert forall|q: int| 0 <= q < rv.take(i as int).len() implies (#[trigger] rv.take(
                    i as int,
                )[q].name) != n by {
                    assert(rv.take(i as int)[q] == rv[q]);
                }
                assert(!names_in_order(rv.take(i as int)).contains(n));
            }
        }
        if !seen {
            // first sight: build the whole component from every row of this name
            let mut ts: Vec<ComponentTarget> = Vec::new();
            let mut k: usize = 0;
            while k < rows.len()
                invariant
                    k <= rows.len(),
                    i < rows.len(),
                    rv == component_row_views(rows@),
                    n == rv[i as int].name,
                    target_views(ts@) == targets_of(rows_named(rv.take(k as int), n)),
                decreases rows.len() - k,
            {
                let ghost pre_named = rows_named(rv.take(k as int), n);
                if rows[k].name == rows[i].name {
                    match row_target_of(&rows[k]) {
                        Some(t) => {
                            let ghost old_ts = ts@;
                            ts.push(t);
                            proof {
                                assert(target_views(ts@) =~= target_views(old_ts).push(t@));
                            }
                        },
                        None => {},
                    }
                }
                proof {
                    assert(rv.take(k as int).push(rv[k as int]) =~= rv.take(k as int + 1));
                    crate::filtering::lemma_filter_push(
                        rv.take(k as int),
                        rv[k as int],
                        |r: ComponentRowV| r.name == n,
                    );
                    if rv[k as int].name == n {
                        assert(rows_named(rv.take(k as int + 1), n) == pre_named.push(
                            rv[k as int],
                        ));
                        assert(rows_named(rv.take(k as int + 1), n).drop_last() =~= pre_named);
                    }
                }
                k += 1;
            }
            let c = Component {
                name: rows[i].name.clone(),
                version: rows[i].version.clone(),
                target: if ts.len() == 0 {
                    None
                } else {
                    Some(ts)
                },
                git_commit: opt_string_clone(&rows[i].git_commit),
                profile_complete: rows[i].profile_complete,
                profile_default: rows[i].profile_default,
                profile_minimal: rows[i].profile_minimal,
            };
            proof {
                assert(rv.take(rows.len() as int) =~= rv);
                lemma_first_occurrence(rv, i as int);
                assert(c@ == component_of(rv, n));
                assert(names_in_order(rv.take(i as int + 1)) == names_in_order(
                    rv.take(i as int),
                ).push(n));
            }
            let ghost old_out = out@;
            out.push(c);
            proof {
                assert(component_views(out@) =~= component_views(old_out).push(c@));
                assert(component_views(out@) =~= names_in_order(rv.take(i as int + 1)).map_values(
                    |nm: Seq<char>| component_of(rv, nm),
                ));
            }
        } else {
            proof {
                assert(names_in_order(rv.take(i as int + 1)) == names_in_order(rv.take(i as int)));
            }
        }
        i += 1;
    }
    proof {
        assert(rv.take(rows.len() as int) =~= rv);
    }
    out
}

} // verus!
