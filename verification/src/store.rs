//! An in-memory snapshot of the relational store: the release catalog, the
//! component join rows (component x optional target) and the artefact rows.
//! The surrounding service loads the snapshot; every query of the core reads
//! from it and writes nothing.

use vstd::prelude::*;

use crate::order::{lemma_lex_leq_refl, lemma_lex_leq_total, lemma_lex_leq_trans, lex_leq, string_le};

verus! {

/// One row of the release catalog.
#[derive(Debug, PartialEq, Eq)]
pub struct ReleaseRow {
    pub version: String,
    pub release_date: String,
    pub latest_stable: bool,
    pub latest_beta: bool,
    pub latest_nightly: bool,
}

/// Mathematical view of a [`ReleaseRow`].
pub ghost struct ReleaseV {
    pub version: Seq<char>,
    pub release_date: Seq<char>,
    pub latest_stable: bool,
    pub latest_beta: bool,
    pub latest_nightly: bool,
}

impl View for ReleaseRow {
    type V = ReleaseV;

    open spec fn view(&self) -> ReleaseV {
        ReleaseV {
            version: self.version@,
            release_date: self.release_date@,
            latest_stable: self.latest_stable,
            latest_beta: self.latest_beta,
            latest_nightly: self.latest_nightly,
        }
    }
}

/// One joined row of a component scan: the component columns, and the
/// target columns of the row the left join matched, each absent when the
/// join produced NULL.
#[derive(Debug, PartialEq, Eq)]
pub struct ComponentRow {
    pub rust_version: String,
    pub name: String,
    pub version: String,
    pub git_commit: Option<String>,
    pub profile_complete: bool,
    pub profile_default: bool,
    pub profile_minimal: bool,
    pub target_name: Option<String>,
    pub target_url: Option<String>,
    pub target_hash: Option<String>,
}

/// Mathematical view of a [`ComponentRow`].
pub ghost struct ComponentRowV {
    pub rust_version: Seq<char>,
    pub name: Seq<char>,
    pub version: Seq<char>,
    pub git_commit: Option<Seq<char>>,
    pub profile_complete: bool,
    pub profile_default: bool,
    pub profile_minimal: bool,
    pub target_name: Option<Seq<char>>,
    pub target_url: Option<Seq<char>>,
    pub target_hash: Option<Seq<char>>,
}

impl View for ComponentRow {
    type V = ComponentRowV;

    open spec fn view(&self) -> ComponentRowV {
        ComponentRowV {
            rust_version: self.rust_version@,
            name: self.name@,
            version: self.version@,
            git_commit: crate::models::opt_view(self.git_commit),
            profile_complete: self.profile_complete,
            profile_default: self.profile_default,
            profile_minimal: self.profile_minimal,
            target_name: crate::models::opt_view(self.target_name),
            target_url: crate::models::opt_view(self.target_url),
            target_hash: crate::models::opt_view(self.target_hash),
        }
    }
}

/// One row of the artefact table; `kind` is the stored artefact-kind integer.
#[derive(Debug, PartialEq, Eq)]
pub struct ArtefactRow {
    pub rust_version: String,
    pub kind: i32,
    pub url: String,
    pub hash: String,
}

/// Mathematical view of an [`ArtefactRow`].
pub ghost struct ArtefactRowV {
    pub rust_version: Seq<char>,
    pub kind: i32,
    pub url: Seq<char>,
    pub hash: Seq<char>,
}

impl View for ArtefactRow {
    type V = ArtefactRowV;

    open spec fn view(&self) -> ArtefactRowV {
        ArtefactRowV {
            rust_version: self.rust_version@,
            kind: self.kind,
            url: self.url@,
            hash: self.hash@,
        }
    }
}

/// Views of a release-row sequence.
pub open spec fn release_views(s: Seq<ReleaseRow>) -> Seq<ReleaseV> {
    s.map_values(|r: ReleaseRow| r@)
}

/// Views of a component-row sequence.
pub open spec fn component_row_views(s: Seq<ComponentRow>) -> Seq<ComponentRowV> {
    s.map_values(|r: ComponentRow| r@)
}

/// Views of an artefact-row sequence.
pub open spec fn artefact_row_views(s: Seq<ArtefactRow>) -> Seq<ArtefactRowV> {
    s.map_values(|r: ArtefactRow| r@)
}

/// The catalog is ordered by release date, most recent first.
pub open spec fn sorted_by_date_desc(s: Seq<ReleaseV>) -> bool {
    forall|i: int, j: int|
        0 <= i < j < s.len() ==> lex_leq(#[trigger] s[j].release_date, #[trigger] s[i].release_date)
}

/// No two catalog rows carry the same version identifier.
pub open spec fn versions_distinct(s: Seq<ReleaseV>) -> bool {
    forall|i: int, j: int| 0 <= i < j < s.len() ==> #[trigger] s[i].version != #[trigger] s[j].version
}

/// Checks that no two rows share a version identifier, so that a caller can
/// establish the constructor's precondition on data it has just loaded.
pub fn check_versions_distinct(rows: &Vec<ReleaseRow>) -> (b: bool)
    ensures
        b == versions_distinct(release_views(rows@)),
{
    let ghost vs = release_views(rows@);
    let mut i: usize = 0;
    while i < rows.len()
        invariant
            i <= rows.len(),
            vs == release_views(rows@),
            forall|p: int, q: int| 0 <= p < q < vs.len() && p < i ==> vs[p].version != vs[q].version,
        decreases rows.len() - i,
    {
        let mut j: usize = i + 1;
        while j < rows.len()
            invariant
                i < j <= rows.len(),
                i < rows.len(),
                vs == release_views(rows@),
                forall|q: int| i < q < j ==> vs[i as int].version != vs[q].version,
            decreases rows.len() - j,
        {
            if rows[i].version == rows[j].version {
                assert(vs[i as int].version == vs[j as int].version);
                return false;
            }
            j += 1;
        }
        i += 1;
    }
    true
}

/// A read-only snapshot of the store. The catalog is held sorted by release
/// date descending with pairwise-distinct versions; the constructor
/// establishes this and every query relies on it.
pub struct Store {
    releases: Vec<ReleaseRow>,
    components: Vec<ComponentRow>,
    artefacts: Vec<ArtefactRow>,
}

/// Mathematical view of a [`Store`].
pub ghost struct StoreV {
    pub releases: Seq<ReleaseV>,
    pub components: Seq<ComponentRowV>,
    pub artefacts: Seq<ArtefactRowV>,
}

impl View for Store {
    type V = StoreV;

    closed spec fn view(&self) -> StoreV {
        StoreV {
            releases: release_views(self.releases@),
            components: component_row_views(self.components@),
            artefacts: artefact_row_views(self.artefacts@),
        }
    }
}

impl Store {
    /// The store invariant: catalog sorted by date descending, versions
    /// pairwise distinct.
    pub open spec fn wf(&self) -> bool {
        sorted_by_date_desc(self@.releases) && versions_distinct(self@.releases)
    }

    /// Assembles a snapshot from freshly loaded rows, sorting the catalog by
    /// release date, most recent first. The row sets themselves are kept as
    /// loaded, in store order.
    pub fn new(
        releases: Vec<ReleaseRow>,
        components: Vec<ComponentRow>,
        artefacts: Vec<ArtefactRow>,
    ) -> (s: Store)
        requires
            versions_distinct(release_views(releases@)),
        ensures
            s.wf(),
            s@.releases.to_multiset() == release_views(releases@).to_multiset(),
            s@.components == component_row_views(components@),
            s@.artefacts == artefact_row_views(artefacts@),
    {
        let sorted = sort_releases_by_date_desc(releases);
        Store { releases: sorted, components, artefacts }
    }

    /// Read access to the catalog rows.
    pub fn releases(&self) -> (r: &Vec<ReleaseRow>)
        ensures
            release_views(r@) == self@.releases,
    {
        &self.releases
    }

    /// Read access to the component join rows.
    pub fn components(&self) -> (r: &Vec<ComponentRow>)
        ensures
            component_row_views(r@) == self@.components,
    {
        &self.components
    }

    /// Read access to the artefact rows.
    pub fn artefacts(&self) -> (r: &Vec<ArtefactRow>)
        ensures
            artefact_row_views(r@) == self@.artefacts,
    {
        &self.artefacts
    }
}

/// Sorts the catalog by release date, most recent first, by repeatedly
/// moving a most-recent remaining row to the output. The result is a
/// permutation of the input; distinct versions stay distinct.
fn sort_releases_by_date_desc(input: Vec<ReleaseRow>) -> (out: Vec<ReleaseRow>)
    ensures
        release_views(out@).to_multiset() == release_views(input@).to_multiset(),
        sorted_by_date_desc(release_views(out@)),
        versions_distinct(release_views(input@)) ==> versions_distinct(release_views(out@)),
{
    broadcast use vstd::seq_lib::group_to_multiset_ensures;
    broadcast use vstd::multiset::group_multiset_axioms;

    let ghost orig = release_views(input@);
    let ghost orig_distinct = versions_distinct(orig);
    let mut rem = input;
    let mut out: Vec<ReleaseRow> = Vec::new();
    while rem.len() > 0
        invariant
            release_views(out@).to_multiset().add(release_views(rem@).to_multiset())
                == orig.to_multiset(),
            sorted_by_date_desc(release_views(out@)),
            forall|p: int, q: int|
                0 <= p < out@.len() && 0 <= q < rem@.len() ==> lex_leq(
                    #[trigger] release_views(rem@)[q].release_date,
                    #[trigger] release_views(out@)[p].release_date,
                ),
            orig_distinct == versions_distinct(orig),
            orig_distinct ==> versions_distinct(release_views(out@)),
            orig_distinct ==> versions_distinct(release_views(rem@)),
            orig_distinct ==> forall|p: int, q: int|
                0 <= p < out@.len() && 0 <= q < rem@.len()
                    ==> (#[trigger] release_views(out@)[p].version)
                    != (#[trigger] release_views(rem@)[q].version),
        decreases rem.len(),
    {
        let ghost rem_v = release_views(rem@);
        let ghost out_v = release_views(out@);
        // find an index of a most-recent remaining date
        let mut m: usize = 0;
        let mut j: usize = 1;
        proof {
            lemma_lex_leq_refl(rem_v[0].release_date);
        }
        while j < rem.len()
            invariant
                m < j,
                j <= rem.len(),
                rem.len() > 0,
                rem_v == release_views(rem@),
                forall|k: int| 0 <= k < j ==> lex_leq(
                    #[trigger] rem_v[k].release_date,
                    rem_v[m as int].release_date,
                ),
            decreases rem.len() - j,
        {
            if string_le(&rem[m].release_date, &rem[j].release_date) {
                assert forall|k: int| 0 <= k < j implies lex_leq(
                    rem_v[k].release_date,
                    rem_v[j as int].release_date,
                ) by {
                    lemma_lex_leq_trans(
                        rem_v[k].release_date,
                        rem_v[m as int].release_date,
                        rem_v[j as int].release_date,
                    );
                }
                proof {
                    lemma_lex_leq_refl(rem_v[j as int].release_date);
                }
                m = j;
            } else {
                proof {
                    lemma_lex_leq_total(rem_v[m as int].release_date, rem_v[j as int].release_date);
                }
            }
            j += 1;
        }
        let x = rem.remove(m);
        proof {
            assert(release_views(rem@) =~= rem_v.remove(m as int));
            assert(release_views(out@.push(x)) =~= out_v.push(x@));
            assert(x@ == rem_v[m as int]);
            // the moved row compares against everything still remaining
            assert forall|q: int| 0 <= q < release_views(rem@).len() implies lex_leq(
                release_views(rem@)[q].release_date,
                x@.release_date,
            ) by {
                assert(release_views(rem@)[q] == if q < m as int {
                    rem_v[q]
                } else {
                    rem_v[q + 1]
                });
            }
            // multiset bookkeeping: moving one element across
            assert(rem_v.contains(x@)) by {
                assert(rem_v[m as int] == x@);
            }
            vstd::seq_lib::to_multiset_contains(rem_v, x@);
            vstd::seq_lib::to_multiset_build(out_v, x@);
            vstd::seq_lib::to_multiset_remove(rem_v, m as int);
            assert(out_v.push(x@).to_multiset().add(rem_v.remove(m as int).to_multiset())
                =~= out_v.to_multiset().add(rem_v.to_multiset()));
        }
        out.push(x);
    }
    out
}

} // verus!
