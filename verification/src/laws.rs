//! The laws of the query layer, stated over the same spec functions the
//! executable contracts use, and proved for every input.

use vstd::prelude::*;

use crate::aggregate::{
    aggregate, component_of, lemma_aggregate_uniform, lemma_names_contains, names_in_order,
    row_target, rows_named, target_list, targets_of,
};
use crate::filtering::{
    lemma_filter_all_match, lemma_filter_push, lemma_filter_subset,
};
use crate::models::QueryError;
use crate::queries::{
    artefacts_spec, channel_flag, channel_releases, releases_with_version, resolve_spec,
    version_info_spec, Channel,
};
use crate::store::{versions_distinct, ComponentRowV, ReleaseV, StoreV};

verus! {

/// Under distinct versions, at most one catalog row carries a given one.
proof fn lemma_version_filter_unique(cat: Seq<ReleaseV>, v: Seq<char>)
    requires
        versions_distinct(cat),
    ensures
        releases_with_version(cat, v).len() <= 1,
    decreases cat.len(),
{
    let p = |r: ReleaseV| r.version == v;
    if cat.len() == 0 {
        crate::filtering::lemma_filter_all_miss(cat, p);
    } else {
        let pre = cat.drop_last();
        let last = cat.last();
        assert(forall|i: int, j: int|
            0 <= i < j < pre.len() ==> (#[trigger] pre[i].version) != (#[trigger] pre[j].version))
            by {
            assert(forall|i: int| 0 <= i < pre.len() ==> (#[trigger] pre[i]) == cat[i]);
        }
        lemma_version_filter_unique(pre, v);
        assert(pre.push(last) =~= cat);
        lemma_filter_push(pre, last, p);
        if p(last) && pre.filter(p).len() > 0 {
            lemma_filter_subset(pre, p, 0);
            let j = choose|j: int| 0 <= j < pre.len() && #[trigger] pre[j] == pre.filter(p)[0];
            pre.lemma_filter_pred(p, 0);
            assert(cat[j].version == v);
            assert(cat[cat.len() - 1].version == v);
            assert(false);
        }
    }
}

/// A version-detail query with a catalog row's exact version identifier
/// returns exactly that release: the literal branch of channel resolution.
/// The identifier must not spell one of the four symbolic tokens, and the
/// version's stored artefact kinds must decode, else the query fails as its
/// own contract says.
pub proof fn lemma_literal_version_info(s: StoreV, v: Seq<char>)
    requires
        versions_distinct(s.releases),
        exists|i: int| 0 <= i < s.releases.len() && (#[trigger] s.releases[i].version) == v,
        v != "latest"@,
        v != "stable"@,
        v != "beta"@,
        v != "nightly"@,
        artefacts_spec(s.artefacts, v) is Ok,
    ensures
        version_info_spec(s, v) matches Ok(out) && out.len() == 1 && out[0].version == v,
{
    let i = choose|i: int| 0 <= i < s.releases.len() && (#[trigger] s.releases[i].version) == v;
    s.releases.lemma_filter_contains(|r: ReleaseV| r.version == v, i);
    assert(releases_with_version(s.releases, v).len() > 0);
    assert(resolve_spec(s.releases, v) == Ok::<Seq<char>, QueryError>(v));
    lemma_version_filter_unique(s.releases, v);
    s.releases.lemma_filter_pred(|r: ReleaseV| r.version == v, 0);
    assert(releases_with_version(s.releases, v)[0].version == v);
}

/// Resolving a symbolic channel token returns the version of the first
/// catalog row flagged for that channel ("latest" follows the stable flag),
/// and fails with the not-found error exactly when no row carries the flag.
pub proof fn lemma_channel_resolution(cat: Seq<ReleaseV>)
    ensures
        ({
            let f = channel_releases(cat, Channel::Stable);
            (f.len() > 0 ==> resolve_spec(cat, "stable"@) == Ok::<Seq<char>, QueryError>(
                f[0].version,
            ) && resolve_spec(cat, "latest"@) == Ok::<Seq<char>, QueryError>(f[0].version)
                && f[0].latest_stable) && (f.len() == 0 ==> resolve_spec(cat, "stable"@) == Err::<
                Seq<char>,
                QueryError,
            >(QueryError::NotFound) && resolve_spec(cat, "latest"@) == Err::<Seq<char>, QueryError>(
                QueryError::NotFound,
            ))
        }),
        ({
            let f = channel_releases(cat, Channel::Beta);
            (f.len() > 0 ==> resolve_spec(cat, "beta"@) == Ok::<Seq<char>, QueryError>(
                f[0].version,
            ) && f[0].latest_beta) && (f.len() == 0 ==> resolve_spec(cat, "beta"@) == Err::<
                Seq<char>,
                QueryError,
            >(QueryError::NotFound))
        }),
        ({
            let f = channel_releases(cat, Channel::Nightly);
            (f.len() > 0 ==> resolve_spec(cat, "nightly"@) == Ok::<Seq<char>, QueryError>(
                f[0].version,
            ) && f[0].latest_nightly) && (f.len() == 0 ==> resolve_spec(cat, "nightly"@) == Err::<
                Seq<char>,
                QueryError,
            >(QueryError::NotFound))
        }),
{
    broadcast use vstd::string::group_string_axioms;

    reveal_strlit("latest");
    reveal_strlit("stable");
    reveal_strlit("beta");
    reveal_strlit("nightly");
    assert("beta"@.len() == 4 && "latest"@.len() == 6 && "stable"@.len() == 6 && "nightly"@.len()
        == 7);
    assert("stable"@[0] == 's' && "latest"@[0] == 'l');
    if channel_releases(cat, Channel::Stable).len() > 0 {
        cat.lemma_filter_pred(|r: ReleaseV| channel_flag(r, Channel::Stable), 0);
    }
    if channel_releases(cat, Channel::Beta).len() > 0 {
        cat.lemma_filter_pred(|r: ReleaseV| channel_flag(r, Channel::Beta), 0);
    }
    if channel_releases(cat, Channel::Nightly).len() > 0 {
        cat.lemma_filter_pred(|r: ReleaseV| channel_flag(r, Channel::Nightly), 0);
    }
}

/// Whether some row of the sequence carries the name.
spec fn name_occurs(a: Seq<ComponentRowV>, n: Seq<char>) -> bool {
    exists|i: int| 0 <= i < a.len() && (#[trigger] a[i].name) == n
}

/// A token that resolves to nothing fails the whole version-detail query
/// with the same not-found error.
pub proof fn lemma_channel_not_found(s: StoreV, token: Seq<char>)
    requires
        resolve_spec(s.releases, token) == Err::<Seq<char>, QueryError>(QueryError::NotFound),
    ensures
        version_info_spec(s, token) == Err::<Seq<crate::models::RustVersionV>, QueryError>(
            QueryError::NotFound,
        ),
{
}

/// Appending rows whose names all occur already does not add a component.
proof fn lemma_names_append_no_new(a: Seq<ComponentRowV>, b: Seq<ComponentRowV>)
    requires
        forall|j: int| 0 <= j < b.len() ==> name_occurs(a, (#[trigger] b[j].name)),
    ensures
        names_in_order(a + b) == names_in_order(a),
    decreases b.len(),
{
    if b.len() == 0 {
        assert(a + b =~= a);
    } else {
        let pre = b.drop_last();
        let x = b.last();
        assert forall|j: int| 0 <= j < pre.len() implies name_occurs(
            a,
            (#[trigger] pre[j].name),
        ) by {
            assert(pre[j] == b[j]);
            assert(name_occurs(a, b[j].name));
        }
        lemma_names_append_no_new(a, pre);
        assert((a + pre).push(x) =~= a + b);
        assert((a + b).drop_last() =~= a + pre);
        lemma_names_contains(a + pre, x.name);
        assert(x == b[b.len() - 1]);
        assert(name_occurs(a, x.name));
        let i = choose|i: int| 0 <= i < a.len() && (#[trigger] a[i].name) == x.name;
        assert((a + pre)[i].name == x.name);
        assert(names_in_order(a + pre).contains(x.name));
        assert(names_in_order(a + b) == names_in_order(a + pre));
    }
}

/// Target extraction distributes over appended row sets.
proof fn lemma_targets_append(a: Seq<ComponentRowV>, b: Seq<ComponentRowV>)
    ensures
        targets_of(a + b) == targets_of(a) + targets_of(b),
    decreases b.len(),
{
    if b.len() == 0 {
        assert(a + b =~= a);
        assert(targets_of(b) =~= Seq::<crate::models::TargetV>::empty());
        assert(targets_of(a) + targets_of(b) =~= targets_of(a));
    } else {
        let pre = b.drop_last();
        let x = b.last();
        lemma_targets_append(a, pre);
        assert((a + pre).push(x) =~= a + b);
        assert((a + b).drop_last() =~= a + pre);
        assert(pre.push(x) =~= b);
        assert(b.drop_last() =~= pre);
        match row_target(x) {
            Some(t) => {
                assert(targets_of(a + b) == targets_of(a + pre).push(t));
                assert(targets_of(b) == targets_of(pre).push(t));
                assert(targets_of(a) + targets_of(pre).push(t) =~= (targets_of(a) + targets_of(
                    pre,
                )).push(t));
            },
            None => {
                assert(targets_of(a + b) == targets_of(a + pre));
                assert(targets_of(b) == targets_of(pre));
            },
        }
    }
}

/// Feeding the aggregator a row set twice over yields the same components,
/// with the same names and scalar fields, and no duplicate component; only
/// each component's target list doubles, since target merging has no
/// deduplication key. An absent target list stays absent.
pub proof fn lemma_aggregate_idempotent(rows: Seq<ComponentRowV>)
    ensures
        aggregate(rows + rows).len() == aggregate(rows).len(),
        forall|k: int|
            0 <= k < aggregate(rows).len() ==> {
                let c1 = #[trigger] aggregate(rows)[k];
                let c2 = aggregate(rows + rows)[k];
                c2.name == c1.name && c2.version == c1.version && c2.git_commit == c1.git_commit
                    && c2.profile_complete == c1.profile_complete && c2.profile_default
                    == c1.profile_default && c2.profile_minimal == c1.profile_minimal && (
                c2.target is None <==> c1.target is None) && target_list(c2) == target_list(c1)
                    + target_list(c1)
            },
{
    let names = names_in_order(rows);
    assert forall|j: int| 0 <= j < rows.len() implies name_occurs(
        rows,
        (#[trigger] rows[j].name),
    ) by {
        assert(0 <= j < rows.len() && rows[j].name == rows[j].name);
    }
    lemma_names_append_no_new(rows, rows);
    assert(names_in_order(rows + rows) == names);
    assert forall|k: int| 0 <= k < aggregate(rows).len() implies {
        let c1 = #[trigger] aggregate(rows)[k];
        let c2 = aggregate(rows + rows)[k];
        c2.name == c1.name && c2.version == c1.version && c2.git_commit == c1.git_commit
            && c2.profile_complete == c1.profile_complete && c2.profile_default
            == c1.profile_default && c2.profile_minimal == c1.profile_minimal && (c2.target is None
            <==> c1.target is None) && target_list(c2) == target_list(c1) + target_list(c1)
    } by {
        let n = names[k];
        let c1 = aggregate(rows)[k];
        let c2 = aggregate(rows + rows)[k];
        assert(c1 == component_of(rows, n));
        assert(c2 == component_of(rows + rows, n));
        let p = |r: ComponentRowV| r.name == n;
        Seq::filter_distributes_over_add(rows, rows, p);
        let own1 = rows_named(rows, n);
        let own2 = rows_named(rows + rows, n);
        assert(own2 == own1 + own1);
        // the name stands among the aggregated names, so some row carries it
        assert(names.contains(n));
        lemma_names_contains(rows, n);
        let i = choose|i: int| 0 <= i < rows.len() && (#[trigger] rows[i].name) == n;
        rows.lemma_filter_contains(p, i);
        assert(own1.len() > 0);
        assert(own2[0] == own1[0]);
        lemma_targets_append(own1, own1);
        assert(targets_of(own2) == targets_of(own1) + targets_of(own1));
        assert(targets_of(own2).len() == 2 * targets_of(own1).len());
    }
}

/// Rows lacking a target, in row order.
pub open spec fn untargeted_rows(rows: Seq<ComponentRowV>) -> Seq<ComponentRowV> {
    rows.filter(|r: ComponentRowV| row_target(r) is None)
}

/// Every row either contributes its target or stands among the untargeted.
proof fn lemma_targets_count(rows: Seq<ComponentRowV>)
    ensures
        targets_of(rows).len() + untargeted_rows(rows).len() == rows.len(),
    decreases rows.len(),
{
    if rows.len() == 0 {
        crate::filtering::lemma_filter_all_miss(
            rows,
            |r: ComponentRowV| row_target(r) is None,
        );
    } else {
        let pre = rows.drop_last();
        let x = rows.last();
        lemma_targets_count(pre);
        assert(pre.push(x) =~= rows);
        lemma_filter_push(pre, x, |r: ComponentRowV| row_target(r) is None);
    }
}

/// Rows of a single component merge into exactly one component, with one
/// target for each row that carries one: of N rows, M of them with all
/// target columns absent, exactly N - M targets remain.
pub proof fn lemma_component_target_count(rows: Seq<ComponentRowV>, n: Seq<char>)
    requires
        rows.len() > 0,
        forall|i: int| 0 <= i < rows.len() ==> (#[trigger] rows[i].name) == n,
    ensures
        aggregate(rows).len() == 1,
        aggregate(rows)[0].name == n,
        target_list(aggregate(rows)[0]).len() + untargeted_rows(rows).len() == rows.len(),
        aggregate(rows)[0].target is None <==> untargeted_rows(rows).len() == rows.len(),
{
    lemma_aggregate_uniform(rows, n);
    let p = |r: ComponentRowV| r.name == n;
    lemma_filter_all_match(rows, p);
    assert(rows_named(rows, n) == rows);
    lemma_targets_count(rows);
    assert(aggregate(rows)[0] == component_of(rows, n));
}

} // verus!
