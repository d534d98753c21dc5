//! The query layer: resolves channel tokens against the catalog and
//! assembles the release and component aggregates a caller receives.

use vstd::prelude::*;

use crate::aggregate::{
    aggregate, component_of, get_version_components_rows, opt_string_clone, or_empty,
};
use crate::filtering::{
    lemma_filter_all_miss, lemma_filter_first, lemma_filter_push, lemma_filter_subset,
};
use crate::models::{
    artefact_views, component_views, opt_view, Artefact, ArtefactV, Component, ComponentV,
    QueryError, RustVersion, RustVersionV,
};
use crate::store::{
    artefact_row_views, component_row_views, release_views, ArtefactRow, ArtefactRowV,
    ComponentRow, ComponentRowV, ReleaseRow, ReleaseV, Store,
};

verus! {

/// The symbolic channels a token can name.
#[derive(Debug, Clone, Copy, PartialEq, Eq, Structural)]
pub enum Channel {
    Stable,
    Beta,
    Nightly,
}

/// Whether a catalog row carries the channel's "latest" flag.
pub open spec fn channel_flag(r: ReleaseV, c: Channel) -> bool {
    match c {
        Channel::Stable => r.latest_stable,
        Channel::Beta => r.latest_beta,
        Channel::Nightly => r.latest_nightly,
    }
}

/// The catalog rows flagged for a channel, in catalog order.
pub open spec fn channel_releases(cat: Seq<ReleaseV>, c: Channel) -> Seq<ReleaseV> {
    cat.filter(|r: ReleaseV| channel_flag(r, c))
}

/// Whether a catalog row carries any of the three channel flags.
pub open spec fn any_channel_flag(r: ReleaseV) -> bool {
    r.latest_stable || r.latest_beta || r.latest_nightly
}

/// The catalog rows carrying any channel flag, in catalog order.
pub open spec fn flagged_releases(cat: Seq<ReleaseV>) -> Seq<ReleaseV> {
    cat.filter(|r: ReleaseV| any_channel_flag(r))
}

/// The catalog rows with one version identifier, in catalog order.
pub open spec fn releases_with_version(cat: Seq<ReleaseV>, v: Seq<char>) -> Seq<ReleaseV> {
    cat.filter(|r: ReleaseV| r.version == v)
}

/// A bare release aggregate: the catalog scalars, with no commit hash, no
/// components and no artefacts attached.
pub open spec fn bare_version(r: ReleaseV) -> RustVersionV {
    RustVersionV {
        version: r.version,
        release_date: r.release_date,
        git_commit: None,
        latest_stable: r.latest_stable,
        latest_beta: r.latest_beta,
        latest_nightly: r.latest_nightly,
        components: Seq::empty(),
        artefacts: None,
    }
}

/// View of a release-aggregate list.
pub open spec fn rust_version_views(s: Seq<RustVersion>) -> Seq<RustVersionV> {
    s.map_values(|r: RustVersion| r@)
}

/// The profile and rename maps stay absent on every release a query returns.
pub open spec fn maps_absent(s: Seq<RustVersion>) -> bool {
    forall|i: int|
        0 <= i < s.len() ==> (#[trigger] s[i].profiles) is None && (#[trigger] s[i].renames)
            is None
}

/// View of a version-resolution result.
pub open spec fn version_result_view(r: Result<String, QueryError>) -> Result<
    Seq<char>,
    QueryError,
> {
    match r {
        Ok(s) => Ok(s@),
        Err(e) => Err(e),
    }
}

/// The version the first flagged row names, or the not-found failure when no
/// row is flagged.
pub open spec fn first_version(f: Seq<ReleaseV>) -> Result<Seq<char>, QueryError> {
    if f.len() > 0 {
        Ok(f[0].version)
    } else {
        Err(QueryError::NotFound)
    }
}

/// Channel resolution: the symbolic tokens go to the first row flagged for
/// their channel ("latest" is the stable pointer); any other token is a
/// literal version identifier, found by exact match. A lookup with no match
/// is the not-found failure.
pub open spec fn resolve_spec(cat: Seq<ReleaseV>, token: Seq<char>) -> Result<
    Seq<char>,
    QueryError,
> {
    if token == "latest"@ || token == "stable"@ {
        first_version(channel_releases(cat, Channel::Stable))
    } else if token == "beta"@ {
        first_version(channel_releases(cat, Channel::Beta))
    } else if token == "nightly"@ {
        first_version(channel_releases(cat, Channel::Nightly))
    } else {
        if releases_with_version(cat, token).len() > 0 {
            Ok(token)
        } else {
            Err(QueryError::NotFound)
        }
    }
}

/// Whether a token equals a literal.
fn token_is(token: &String, lit: &str) -> (b: bool)
    ensures
        b == (token@ == lit@),
{
    let l: String = lit.to_owned();
    *token == l
}

/// Whether a catalog row carries the channel's flag.
fn channel_matches(row: &ReleaseRow, c: Channel) -> (b: bool)
    ensures
        b == channel_flag(row@, c),
{
    match c {
        Channel::Stable => row.latest_stable,
        Channel::Beta => row.latest_beta,
        Channel::Nightly => row.latest_nightly,
    }
}

/// The version of the first catalog row flagged for the channel.
fn find_channel(catalog: &Vec<ReleaseRow>, c: Channel) -> (r: Result<String, QueryError>)
    ensures
        version_result_view(r) == first_version(channel_releases(release_views(catalog@), c)),
{
    let ghost cat = release_views(catalog@);
    let mut k: usize = 0;
    while k < catalog.len()
        invariant
            k <= catalog.len(),
            cat == release_views(catalog@),
            forall|j: int| 0 <= j < k ==> !channel_flag(#[trigger] cat[j], c),
        decreases catalog.len() - k,
    {
        if channel_matches(&catalog[k], c) {
            proof {
                lemma_filter_first(cat, k as int, |r: ReleaseV| channel_flag(r, c));
            }
            return Ok(catalog[k].version.clone());
        }
        k += 1;
    }
    proof {
        lemma_filter_all_miss(cat, |r: ReleaseV| channel_flag(r, c));
    }
    Err(QueryError::NotFound)
}

/// The token itself, when some catalog row carries it as its version.
fn find_literal(catalog: &Vec<ReleaseRow>, token: &String) -> (r: Result<String, QueryError>)
    ensures
        version_result_view(r) == if releases_with_version(release_views(catalog@), token@).len()
            > 0 {
            Ok::<Seq<char>, QueryError>(token@)
        } else {
            Err::<Seq<char>, QueryError>(QueryError::NotFound)
        },
{
    let ghost cat = release_views(catalog@);
    let mut k: usize = 0;
    while k < catalog.len()
        invariant
            k <= catalog.len(),
            cat == release_views(catalog@),
            forall|j: int| 0 <= j < k ==> (#[trigger] cat[j].version) != token@,
        decreases catalog.len() - k,
    {
        if catalog[k].version == *token {
            proof {
                lemma_filter_first(cat, k as int, |r: ReleaseV| r.version == token@);
            }
            return Ok(token.clone());
        }
        k += 1;
    }
    proof {
        lemma_filter_all_miss(cat, |r: ReleaseV| r.version == token@);
    }
    Err(QueryError::NotFound)
}

/// The Channel Resolver: maps a symbolic channel token, or a literal version
/// identifier, to the concrete version it names in this catalog.
pub fn resolve_channel(catalog: &Vec<ReleaseRow>, token: &String) -> (r: Result<
    String,
    QueryError,
>)
    ensures
        version_result_view(r) == resolve_spec(release_views(catalog@), token@),
{
    if token_is(token, "latest") || token_is(token, "stable") {
        find_channel(catalog, Channel::Stable)
    } else if token_is(token, "beta") {
        find_channel(catalog, Channel::Beta)
    } else if token_is(token, "nightly") {
        find_channel(catalog, Channel::Nightly)
    } else {
        find_literal(catalog, token)
    }
}

/// Row Mapper for a catalog row: a bare release aggregate, nothing nested
/// filled in.
fn make_bare_version(r: &ReleaseRow) -> (v: RustVersion)
    ensures
        v@ == bare_version(r@),
        v.profiles is None,
        v.renames is None,
{
    let v = RustVersion {
        version: r.version.clone(),
        release_date: r.release_date.clone(),
        git_commit: None,
        latest_stable: r.latest_stable,
        latest_beta: r.latest_beta,
        latest_nightly: r.latest_nightly,
        components: Vec::new(),
        profiles: None,
        renames: None,
        artefacts: None,
    };
    proof {
        assert(v@.components =~= Seq::<ComponentV>::empty());
    }
    v
}

/// What ListNamedChannels returns: the flagged releases, most recent first
/// since the catalog is so sorted, and at most the three most recent.
pub open spec fn named_channels_spec(cat: Seq<ReleaseV>) -> Seq<RustVersionV> {
    let f = flagged_releases(cat);
    (if f.len() <= 3 {
        f
    } else {
        f.take(3)
    }).map_values(|r: ReleaseV| bare_version(r))
}

/// What ListAllVersions returns: every catalog row as a bare release, in
/// catalog order (most recent first, by the store invariant).
pub open spec fn all_versions_spec(cat: Seq<ReleaseV>) -> Seq<RustVersionV> {
    cat.map_values(|r: ReleaseV| bare_version(r))
}

/// ListNamedChannels: up to three releases, exactly the most recent ones
/// carrying any channel flag, most recent first.
pub fn get_named_channels(store: &Store) -> (out: Vec<RustVersion>)
    requires
        store.wf(),
    ensures
        rust_version_views(out@) == named_channels_spec(store@.releases),
        maps_absent(out@),
{
    let catalog = store.releases();
    let ghost cat = release_views(catalog@);
    let mut out: Vec<RustVersion> = Vec::new();
    let mut k: usize = 0;
    while k < catalog.len()
        invariant
            k <= catalog.len(),
            cat == release_views(catalog@),
            rust_version_views(out@) == named_channels_spec(cat.take(k as int)),
            out@.len() <= 3,
            out@.len() < 3 ==> out@.len() == flagged_releases(cat.take(k as int)).len(),
            maps_absent(out@),
        decreases catalog.len() - k,
    {
        let ghost pre = cat.take(k as int);
        let ghost f_pre = flagged_releases(pre);
        let row = &catalog[k];
        let flagged = row.latest_stable || row.latest_beta || row.latest_nightly;
        proof {
            assert(pre.push(cat[k as int]) =~= cat.take(k as int + 1));
            lemma_filter_push(pre, cat[k as int], |r: ReleaseV| any_channel_flag(r));
        }
        if flagged && out.len() < 3 {
            let ghost old_out = out@;
            out.push(make_bare_version(row));
            proof {
                assert(rust_version_views(out@) =~= rust_version_views(old_out).push(
                    bare_version(cat[k as int]),
                ));
                assert(flagged_releases(cat.take(k as int + 1)) == f_pre.push(cat[k as int]));
                assert(rust_version_views(out@) =~= named_channels_spec(cat.take(k as int + 1)));
            }
        } else {
            proof {
                if flagged {
                    // already three: the three most recent flagged rows stay
                    assert(flagged_releases(cat.take(k as int + 1)) == f_pre.push(cat[k as int]));
                    assert(rust_version_views(out@).len() == out@.len());
                    assert(out@.len() == 3);
                    assert(f_pre.len() >= 3) by {
                        if f_pre.len() <= 3 {
                            assert(named_channels_spec(pre) == f_pre.map_values(
                                |r: ReleaseV| bare_version(r),
                            ));
                        }
                    }
                    assert(f_pre.push(cat[k as int]).take(3) =~= f_pre.take(3));
                    if f_pre.len() == 3 {
                        assert(f_pre.take(3) =~= f_pre);
                    }
                    assert(rust_version_views(out@) =~= named_channels_spec(
                        cat.take(k as int + 1),
                    ));
                } else {
                    assert(flagged_releases(cat.take(k as int + 1)) == f_pre);
                }
            }
        }
        k += 1;
    }
    proof {
        assert(cat.take(catalog.len() as int) =~= cat);
    }
    out
}

/// ListAllVersions: the whole catalog as bare releases, in catalog order.
pub fn get_all_versions(store: &Store) -> (out: Vec<RustVersion>)
    requires
        store.wf(),
    ensures
        rust_version_views(out@) == all_versions_spec(store@.releases),
        maps_absent(out@),
{
    let catalog = store.releases();
    let ghost cat = release_views(catalog@);
    let mut out: Vec<RustVersion> = Vec::new();
    let mut k: usize = 0;
    while k < catalog.len()
        invariant
            k <= catalog.len(),
            cat == release_views(catalog@),
            rust_version_views(out@) == all_versions_spec(cat.take(k as int)),
            maps_absent(out@),
        decreases catalog.len() - k,
    {
        let ghost old_out = out@;
        out.push(make_bare_version(&catalog[k]));
        proof {
            assert(cat.take(k as int).push(cat[k as int]) =~= cat.take(k as int + 1));
            assert(rust_version_views(out@) =~= rust_version_views(old_out).push(
                bare_version(cat[k as int]),
            ));
            assert(rust_version_views(out@) =~= all_versions_spec(cat.take(k as int + 1)));
        }
        k += 1;
    }
    proof {
        assert(cat.take(catalog.len() as int) =~= cat);
    }
    out
}

/// The stored text that stands for "no commit hash": the one predicate that
/// knows the sentinel.
pub open spec fn is_commit_placeholder(s: Seq<char>) -> bool {
    s == "None"@
}

/// Whether a join row belongs to the version and carries a real commit hash.
pub open spec fn has_commit(r: ComponentRowV, v: Seq<char>) -> bool {
    r.rust_version == v && match r.git_commit {
        Some(c) => !is_commit_placeholder(c),
        None => false,
    }
}

/// The first non-placeholder commit hash among the version's rows, in store
/// order; absent when no row carries one.
pub open spec fn commit_hash_spec(rows: Seq<ComponentRowV>, v: Seq<char>) -> Option<Seq<char>> {
    let f = rows.filter(|r: ComponentRowV| has_commit(r, v));
    if f.len() > 0 {
        Some(or_empty(f[0].git_commit))
    } else {
        None
    }
}

/// Whether this text is the stored "no commit" sentinel.
fn commit_placeholder(s: &String) -> (b: bool)
    ensures
        b == is_commit_placeholder(s@),
{
    let l: String = "None".to_owned();
    *s == l
}

/// The commit hash of a release: the first component row of that version
/// whose stored hash is not the "no commit" sentinel; absent when every row
/// lacks one. Absence is not a failure.
pub fn get_rust_commit_hash(rows: &Vec<ComponentRow>, version: &String) -> (r: Option<String>)
    ensures
        opt_view(r) == commit_hash_spec(component_row_views(rows@), version@),
{
    let ghost rv = component_row_views(rows@);
    let mut k: usize = 0;
    while k < rows.len()
        invariant
            k <= rows.len(),
            rv == component_row_views(rows@),
            forall|j: int| 0 <= j < k ==> !has_commit(#[trigger] rv[j], version@),
        decreases rows.len() - k,
    {
        if rows[k].rust_version == *version {
            if let Some(c) = &rows[k].git_commit {
                if !commit_placeholder(c) {
                    proof {
                        lemma_filter_first(rv, k as int, |r: ComponentRowV| has_commit(
                            r,
                            version@,
                        ));
                    }
                    return Some(c.clone());
                }
            }
        }
        k += 1;
    }
    proof {
        lemma_filter_all_miss(rv, |r: ComponentRowV| has_commit(r, version@));
    }
    None
}

/// The artefact rows of one version, in store order.
pub open spec fn artefact_rows_for(rows: Seq<ArtefactRowV>, v: Seq<char>) -> Seq<ArtefactRowV> {
    rows.filter(|r: ArtefactRowV| r.rust_version == v)
}

/// Row Mapper for an artefact row with a valid kind.
pub open spec fn decode_artefact(r: ArtefactRowV) -> ArtefactV {
    ArtefactV { artefact_type: crate::models::artefact_type_of(r.kind), url: r.url, hash: r.hash }
}

/// What an artefact scan returns: the version's rows decoded in store order,
/// or the invalid-data failure as soon as any row's kind falls outside the
/// closed set — never a partial list.
pub open spec fn artefacts_spec(rows: Seq<ArtefactRowV>, v: Seq<char>) -> Result<
    Seq<ArtefactV>,
    QueryError,
> {
    let own = artefact_rows_for(rows, v);
    if forall|i: int|
        0 <= i < own.len() ==> crate::models::artefact_type_valid(#[trigger] own[i].kind) {
        Ok(own.map_values(|r: ArtefactRowV| decode_artefact(r)))
    } else {
        Err(QueryError::InvalidData)
    }
}

/// View of an artefact-list result.
pub open spec fn artefact_result_view(r: Result<Vec<Artefact>, QueryError>) -> Result<
    Seq<ArtefactV>,
    QueryError,
> {
    match r {
        Ok(a) => Ok(artefact_views(a@)),
        Err(e) => Err(e),
    }
}

/// The artefacts of one release, decoded in store order. A stored kind
/// outside the closed set aborts the whole scan with the invalid-data
/// failure.
pub fn get_rust_version_artefacts(rows: &Vec<ArtefactRow>, version: &String) -> (r: Result<
    Vec<Artefact>,
    QueryError,
>)
    ensures
        artefact_result_view(r) == artefacts_spec(artefact_row_views(rows@), version@),
{
    let ghost rv = artefact_row_views(rows@);
    let ghost p = |r: ArtefactRowV| r.rust_version == version@;
    let mut out: Vec<Artefact> = Vec::new();
    let mut k: usize = 0;
    while k < rows.len()
        invariant
            k <= rows.len(),
            rv == artefact_row_views(rows@),
            p == (|r: ArtefactRowV| r.rust_version == version@),
            forall|i: int|
                0 <= i < rv.take(k as int).filter(p).len()
                    ==> crate::models::artefact_type_valid(
                    #[trigger] rv.take(k as int).filter(p)[i].kind,
                ),
            artefact_views(out@) == rv.take(k as int).filter(p).map_values(
                |r: ArtefactRowV| decode_artefact(r),
            ),
        decreases rows.len() - k,
    {
        let ghost pre = rv.take(k as int).filter(p);
        proof {
            assert(rv.take(k as int).push(rv[k as int]) =~= rv.take(k as int + 1));
            lemma_filter_push(rv.take(k as int), rv[k as int], p);
        }
        if rows[k].rust_version == *version {
            match crate::models::ArtefactType::try_from(rows[k].kind) {
                Ok(t) => {
                    let ghost old_out = out@;
                    out.push(
                        Artefact {
                            artefact_type: t,
                            url: rows[k].url.clone(),
                            hash: rows[k].hash.clone(),
                        },
                    );
                    proof {
                        assert(artefact_views(out@) =~= artefact_views(old_out).push(
                            decode_artefact(rv[k as int]),
                        ));
                        assert(artefact_views(out@) =~= rv.take(k as int + 1).filter(p).map_values(
                            |r: ArtefactRowV| decode_artefact(r),
                        ));
                    }
                },
                Err(_) => {
                    proof {
                        rv.lemma_filter_contains(p, k as int);
                        let f = rv.filter(p);
                        let i = choose|i: int| 0 <= i < f.len() && f[i] == rv[k as int];
                        assert(!crate::models::artefact_type_valid(f[i].kind));
                    }
                    return Err(QueryError::InvalidData);
                },
            }
        }
        k += 1;
    }
    proof {
        assert(rv.take(rows.len() as int) =~= rv);
    }
    Ok(out)
}

/// The component join rows of one version, in store order.
pub open spec fn rows_for_version(rows: Seq<ComponentRowV>, v: Seq<char>) -> Seq<ComponentRowV> {
    rows.filter(|r: ComponentRowV| r.rust_version == v)
}

/// A join row as loaded, cloned for a per-version row set.
fn clone_component_row(r: &ComponentRow) -> (c: ComponentRow)
    ensures
        c@ == r@,
{
    ComponentRow {
        rust_version: r.rust_version.clone(),
        name: r.name.clone(),
        version: r.version.clone(),
        git_commit: opt_string_clone(&r.git_commit),
        profile_complete: r.profile_complete,
        profile_default: r.profile_default,
        profile_minimal: r.profile_minimal,
        target_name: opt_string_clone(&r.target_name),
        target_url: opt_string_clone(&r.target_url),
        target_hash: opt_string_clone(&r.target_hash),
    }
}

/// The version's join rows, in store order, as an owned row set.
fn collect_version_rows(rows: &Vec<ComponentRow>, version: &String) -> (own: Vec<ComponentRow>)
    ensures
        component_row_views(own@) == rows_for_version(component_row_views(rows@), version@),
{
    let ghost rv = component_row_views(rows@);
    let ghost p = |r: ComponentRowV| r.rust_version == version@;
    let mut own: Vec<ComponentRow> = Vec::new();
    let mut k: usize = 0;
    while k < rows.len()
        invariant
            k <= rows.len(),
            rv == component_row_views(rows@),
            p == (|r: ComponentRowV| r.rust_version == version@),
            component_row_views(own@) == rv.take(k as int).filter(p),
        decreases rows.len() - k,
    {
        proof {
            assert(rv.take(k as int).push(rv[k as int]) =~= rv.take(k as int + 1));
            lemma_filter_push(rv.take(k as int), rv[k as int], p);
        }
        if rows[k].rust_version == *version {
            let ghost old_own = own@;
            own.push(clone_component_row(&rows[k]));
            proof {
                assert(component_row_views(own@) =~= component_row_views(old_own).push(
                    rv[k as int],
                ));
            }
        }
        k += 1;
    }
    proof {
        assert(rv.take(rows.len() as int) =~= rv);
    }
    own
}

/// The components of one release: its join rows aggregated (one component
/// per name, targets merged in row order).
pub fn get_rust_components(store: &Store, version: &String) -> (out: Vec<Component>)
    ensures
        component_views(out@) == aggregate(rows_for_version(store@.components, version@)),
{
    let own = collect_version_rows(store.components(), version);
    get_version_components_rows(&own)
}

/// The join rows of one component of one version, in store order.
pub open spec fn component_rows_for(
    rows: Seq<ComponentRowV>,
    v: Seq<char>,
    name: Seq<char>,
) -> Seq<ComponentRowV> {
    rows.filter(|r: ComponentRowV| r.rust_version == v && r.name == name)
}

/// What GetSingleComponent returns: the named component with its targets
/// merged, or the not-found failure when no row matches at all. A component
/// whose rows carry no target is returned with an absent target list, not
/// confused with not-found.
pub open spec fn component_query_spec(
    rows: Seq<ComponentRowV>,
    v: Seq<char>,
    name: Seq<char>,
) -> Result<ComponentV, QueryError> {
    let own = component_rows_for(rows, v, name);
    if own.len() == 0 {
        Err(QueryError::NotFound)
    } else {
        Ok(component_of(own, name))
    }
}

/// View of a single-component result.
pub open spec fn component_result_view(r: Result<Component, QueryError>) -> Result<
    ComponentV,
    QueryError,
> {
    match r {
        Ok(c) => Ok(c@),
        Err(e) => Err(e),
    }
}

/// GetSingleComponent: one named component of one release, targets merged in
/// row order; the not-found failure when no row matches.
pub fn get_rust_component(store: &Store, component: &String, version: &String) -> (r: Result<
    Component,
    QueryError,
>)
    ensures
        component_result_view(r) == component_query_spec(
            store@.components,
            version@,
            component@,
        ),
{
    let rows = store.components();
    let ghost rv = component_row_views(rows@);
    let ghost p = |r: ComponentRowV| r.rust_version == version@ && r.name == component@;
    let mut own: Vec<ComponentRow> = Vec::new();
    let mut k: usize = 0;
    while k < rows.len()
        invariant
            k <= rows.len(),
            rv == component_row_views(rows@),
            p == (|r: ComponentRowV| r.rust_version == version@ && r.name == component@),
            component_row_views(own@) == rv.take(k as int).filter(p),
        decreases rows.len() - k,
    {
        proof {
            assert(rv.take(k as int).push(rv[k as int]) =~= rv.take(k as int + 1));
            lemma_filter_push(rv.take(k as int), rv[k as int], p);
        }
        if rows[k].rust_version == *version && rows[k].name == *component {
            let ghost old_own = own@;
            own.push(clone_component_row(&rows[k]));
            proof {
                assert(component_row_views(own@) =~= component_row_views(old_own).push(
                    rv[k as int],
                ));
            }
        }
        k += 1;
    }
    proof {
        assert(rv.take(rows.len() as int) =~= rv);
    }
    let ghost own_v = component_row_views(own@);
    if own.len() == 0 {
        return Err(QueryError::NotFound);
    }
    let mut agg = get_version_components_rows(&own);
    proof {
        assert forall|i: int| 0 <= i < own_v.len() implies (#[trigger] own_v[i].name)
            == component@ by {
            rv.lemma_filter_pred(p, i);
        }
        crate::aggregate::lemma_aggregate_uniform(own_v, component@);
        assert(component_views(agg@).len() == 1);
        assert(component_views(agg@)[0] == component_of(own_v, component@));
    }
    let c = agg.remove(0);
    Ok(c)
}

/// The Row Mapper pass of a version-detail query: the catalog rows carrying
/// the resolved version, as bare release aggregates.
fn get_version_info_rows(catalog: &Vec<ReleaseRow>, version: &String) -> (out: Vec<RustVersion>)
    ensures
        rust_version_views(out@) == releases_with_version(
            release_views(catalog@),
            version@,
        ).map_values(|r: ReleaseV| bare_version(r)),
        maps_absent(out@),
{
    let ghost cat = release_views(catalog@);
    let ghost p = |r: ReleaseV| r.version == version@;
    let mut out: Vec<RustVersion> = Vec::new();
    let mut k: usize = 0;
    while k < catalog.len()
        invariant
            k <= catalog.len(),
            cat == release_views(catalog@),
            p == (|r: ReleaseV| r.version == version@),
            rust_version_views(out@) == cat.take(k as int).filter(p).map_values(
                |r: ReleaseV| bare_version(r),
            ),
            maps_absent(out@),
        decreases catalog.len() - k,
    {
        proof {
            assert(cat.take(k as int).push(cat[k as int]) =~= cat.take(k as int + 1));
            lemma_filter_push(cat.take(k as int), cat[k as int], p);
        }
        if catalog[k].version == *version {
            let ghost old_out = out@;
            out.push(make_bare_version(&catalog[k]));
            proof {
                assert(rust_version_views(out@) =~= rust_version_views(old_out).push(
                    bare_version(cat[k as int]),
                ));
                assert(rust_version_views(out@) =~= cat.take(k as int + 1).filter(p).map_values(
                    |r: ReleaseV| bare_version(r),
                ));
            }
        }
        k += 1;
    }
    proof {
        assert(cat.take(catalog.len() as int) =~= cat);
    }
    out
}

/// The token a version-detail query resolves: the parameter, or "latest"
/// when absent.
pub open spec fn token_of(v: Option<String>) -> Seq<char> {
    match v {
        Some(s) => s@,
        None => "latest"@,
    }
}

/// View of a release-list result.
pub open spec fn versions_result_view(r: Result<Vec<RustVersion>, QueryError>) -> Result<
    Seq<RustVersionV>,
    QueryError,
> {
    match r {
        Ok(vs) => Ok(rust_version_views(vs@)),
        Err(e) => Err(e),
    }
}

/// What GetVersionInfo returns: the resolved release with its commit hash
/// (when any row carries one), its aggregated components, and its artefacts
/// (when any exist) attached; or the failure of resolution or of artefact
/// decoding. The single release comes as a one-element list.
pub open spec fn version_info_spec(s: crate::store::StoreV, token: Seq<char>) -> Result<
    Seq<RustVersionV>,
    QueryError,
> {
    match resolve_spec(s.releases, token) {
        Err(e) => Err(e),
        Ok(v) => match artefacts_spec(s.artefacts, v) {
            Err(e) => Err(e),
            Ok(arts) => {
                let base = releases_with_version(s.releases, v).map_values(
                    |r: ReleaseV| bare_version(r),
                );
                let enriched = RustVersionV {
                    version: base[0].version,
                    release_date: base[0].release_date,
                    git_commit: commit_hash_spec(s.components, v),
                    latest_stable: base[0].latest_stable,
                    latest_beta: base[0].latest_beta,
                    latest_nightly: base[0].latest_nightly,
                    components: aggregate(rows_for_version(s.components, v)),
                    artefacts: if arts.len() == 0 {
                        None
                    } else {
                        Some(arts)
                    },
                };
                Ok(base.update(0, enriched))
            },
        },
    }
}

/// A resolved version names a catalog row.
proof fn lemma_resolved_exists(cat: Seq<ReleaseV>, token: Seq<char>)
    ensures
        match resolve_spec(cat, token) {
            Ok(v) => releases_with_version(cat, v).len() > 0,
            Err(_) => true,
        },
{
    match resolve_spec(cat, token) {
        Ok(v) => {
            if token == "latest"@ || token == "stable"@ || token == "beta"@ || token
                == "nightly"@ {
                let c = if token == "latest"@ || token == "stable"@ {
                    Channel::Stable
                } else if token == "beta"@ {
                    Channel::Beta
                } else {
                    Channel::Nightly
                };
                let f = channel_releases(cat, c);
                assert(f.len() > 0 && v == f[0].version);
                lemma_filter_subset(cat, |r: ReleaseV| channel_flag(r, c), 0);
                let j = choose|j: int| 0 <= j < cat.len() && #[trigger] cat[j] == f[0];
                cat.lemma_filter_contains(|r: ReleaseV| r.version == v, j);
            } else {
                let f = releases_with_version(cat, token);
                assert(f.len() > 0 && v == token);
            }
        },
        Err(_) => {},
    }
}

/// GetVersionInfo: resolves the token, then returns the one matching release
/// enriched with commit hash, components and artefacts.
pub fn get_version_info(store: &Store, version: Option<String>) -> (r: Result<
    Vec<RustVersion>,
    QueryError,
>)
    requires
        store.wf(),
    ensures
        versions_result_view(r) == version_info_spec(store@, token_of(version)),
        r matches Ok(vs) ==> maps_absent(vs@),
{
    let ghost tok = token_of(version);
    let token: String = match version {
        Some(v) => v,
        None => "latest".to_owned(),
    };
    let resolved = resolve_channel(store.releases(), &token);
    let query_version = match resolved {
        Ok(v) => v,
        Err(e) => {
            return Err(e);
        },
    };
    let mut out = get_version_info_rows(store.releases(), &query_version);
    proof {
        assert(token@ == tok);
        lemma_resolved_exists(store@.releases, tok);
        assert(resolve_spec(store@.releases, tok) == Ok::<Seq<char>, QueryError>(query_version@));
        assert(releases_with_version(store@.releases, query_version@).len() > 0);
        assert(rust_version_views(out@).len() == out@.len());
        assert(out@.len() > 0);
    }
    let commit = get_rust_commit_hash(store.components(), &query_version);
    let comps = get_rust_components(store, &query_version);
    let arts = match get_rust_version_artefacts(store.artefacts(), &query_version) {
        Ok(a) => a,
        Err(e) => {
            return Err(e);
        },
    };
    let ghost base = rust_version_views(out@);
    let head = out.remove(0);
    let enriched = RustVersion {
        version: head.version,
        release_date: head.release_date,
        git_commit: commit,
        latest_stable: head.latest_stable,
        latest_beta: head.latest_beta,
        latest_nightly: head.latest_nightly,
        components: comps,
        profiles: None,
        renames: None,
        artefacts: if arts.len() == 0 {
            None
        } else {
            Some(arts)
        },
    };
    out.insert(0, enriched);
    proof {
        assert(rust_version_views(out@) =~= base.update(0, enriched@));
        assert(maps_absent(out@));
    }
    Ok(out)
}

/// The single-component query kinds the dispatcher accepts.
pub enum ComponentQueries {
    GetRustComponent,
}

/// The release-list query kinds the dispatcher accepts.
pub enum VersionQueries {
    GetNamedChannels,
    GetAllVersions,
    GetVersionInfo,
}

/// The Query Dispatcher for release-list queries: each call is a fresh,
/// independent read of the snapshot.
pub fn execute_versions(store: &Store, query: VersionQueries, param: Option<String>) -> (r: Result<
    Vec<RustVersion>,
    QueryError,
>)
    requires
        store.wf(),
    ensures
        match query {
            VersionQueries::GetNamedChannels => r matches Ok(vs) && rust_version_views(vs@)
                == named_channels_spec(store@.releases),
            VersionQueries::GetAllVersions => r matches Ok(vs) && rust_version_views(vs@)
                == all_versions_spec(store@.releases),
            VersionQueries::GetVersionInfo => versions_result_view(r) == version_info_spec(
                store@,
                token_of(param),
            ),
        },
        r matches Ok(vs) ==> maps_absent(vs@),
{
    match query {
        VersionQueries::GetNamedChannels => Ok(get_named_channels(store)),
        VersionQueries::GetAllVersions => Ok(get_all_versions(store)),
        VersionQueries::GetVersionInfo => get_version_info(store, param),
    }
}

/// The Query Dispatcher for single-component queries.
pub fn execute_components(
    store: &Store,
    query: ComponentQueries,
    component: String,
    version: String,
) -> (r: Result<Component, QueryError>)
    ensures
        match query {
            ComponentQueries::GetRustComponent => component_result_view(r)
                == component_query_spec(store@.components, version@, component@),
        },
{
    match query {
        ComponentQueries::GetRustComponent => get_rust_component(store, &component, &version),
    }
}

} // verus!
