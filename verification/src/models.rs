//! The value objects a query returns: releases, components, targets and
//! artefacts, together with their mathematical views, and the typed failures
//! of the query layer.

use vstd::prelude::*;

verus! {

/// Why a query failed.
///
/// `NotFound`: no catalog entry matches the requested channel, version or
/// component. `InvalidData`: a stored value falls outside its closed set
/// (an unknown artefact kind); the store is corrupt. `StoreUnavailable`:
/// the surrounding service could not reach the store at all; the core
/// itself never produces it, callers use it when loading a snapshot fails.
#[derive(Debug, Clone, Copy, PartialEq, Eq, Structural)]
pub enum QueryError {
    NotFound,
    InvalidData,
    StoreUnavailable,
}

/// The closed set of release-level downloadables.
#[derive(Debug, Clone, Copy, PartialEq, Eq, Structural)]
pub enum ArtefactType {
    InstallerMSI,
    InstallerPkg,
    SourceCode,
}

/// The artefact kind a stored integer decodes to, for integers inside the
/// closed set {1, 2, 3}.
pub open spec fn artefact_type_of(value: i32) -> ArtefactType {
    if value == 1 {
        ArtefactType::InstallerMSI
    } else if value == 2 {
        ArtefactType::InstallerPkg
    } else {
        ArtefactType::SourceCode
    }
}

/// True on exactly the integers that encode an artefact kind.
pub open spec fn artefact_type_valid(value: i32) -> bool {
    value == 1 || value == 2 || value == 3
}

impl ArtefactType {
    /// Decodes a stored kind integer; anything outside {1, 2, 3} is rejected.
    pub fn try_from(value: i32) -> (r: Result<ArtefactType, &'static str>)
        ensures
            artefact_type_valid(value) <==> r is Ok,
            artefact_type_valid(value) ==> r == Ok::<ArtefactType, &'static str>(
                artefact_type_of(value),
            ),
    {
        match value {
            1 => Ok(ArtefactType::InstallerMSI),
            2 => Ok(ArtefactType::InstallerPkg),
            3 => Ok(ArtefactType::SourceCode),
            _ => Err("Invalid value for ArtefactType"),
        }
    }

    /// The integer the kind is stored as: the inverse of `try_from`.
    pub fn code(self) -> (r: i32)
        ensures
            artefact_type_valid(r),
            artefact_type_of(r) == self,
    {
        match self {
            ArtefactType::InstallerMSI => 1,
            ArtefactType::InstallerPkg => 2,
            ArtefactType::SourceCode => 3,
        }
    }
}

/// A release-level downloadable (installer, source archive).
#[derive(Debug, PartialEq, Eq)]
pub struct Artefact {
    pub artefact_type: ArtefactType,
    pub url: String,
    pub hash: String,
}

/// Mathematical view of an [`Artefact`].
pub ghost struct ArtefactV {
    pub artefact_type: ArtefactType,
    pub url: Seq<char>,
    pub hash: Seq<char>,
}

impl View for Artefact {
    type V = ArtefactV;

    open spec fn view(&self) -> ArtefactV {
        ArtefactV { artefact_type: self.artefact_type, url: self.url@, hash: self.hash@ }
    }
}

/// A platform-specific downloadable variant of a component.
#[derive(Debug, PartialEq, Eq)]
pub struct ComponentTarget {
    pub name: String,
    pub url: String,
    pub hash: String,
}

/// Mathematical view of a [`ComponentTarget`].
pub ghost struct TargetV {
    pub name: Seq<char>,
    pub url: Seq<char>,
    pub hash: Seq<char>,
}

impl View for ComponentTarget {
    type V = TargetV;

    open spec fn view(&self) -> TargetV {
        TargetV { name: self.name@, url: self.url@, hash: self.hash@ }
    }
}

/// A named installable unit of one release, with its platform targets.
#[derive(Debug, PartialEq, Eq)]
pub struct Component {
    pub name: String,
    pub version: String,
    pub target: Option<Vec<ComponentTarget>>,
    pub git_commit: Option<String>,
    pub profile_complete: bool,
    pub profile_default: bool,
    pub profile_minimal: bool,
}

/// Mathematical view of a [`Component`].
pub ghost struct ComponentV {
    pub name: Seq<char>,
    pub version: Seq<char>,
    pub target: Option<Seq<TargetV>>,
    pub git_commit: Option<Seq<char>>,
    pub profile_complete: bool,
    pub profile_default: bool,
    pub profile_minimal: bool,
}

/// View of an optional string as an optional character sequence.
pub open spec fn opt_view(o: Option<String>) -> Option<Seq<char>> {
    match o {
        Some(s) => Some(s@),
        None => None,
    }
}

/// View of a target list.
pub open spec fn target_views(ts: Seq<ComponentTarget>) -> Seq<TargetV> {
    ts.map_values(|t: ComponentTarget| t@)
}

impl View for Component {
    type V = ComponentV;

    open spec fn view(&self) -> ComponentV {
        ComponentV {
            name: self.name@,
            version: self.version@,
            target: match self.target {
                Some(ts) => Some(target_views(ts@)),
                None => None,
            },
            git_commit: opt_view(self.git_commit),
            profile_complete: self.profile_complete,
            profile_default: self.profile_default,
            profile_minimal: self.profile_minimal,
        }
    }
}

/// One toolchain release as a query returns it: scalar catalog fields plus
/// the nested collections a detail query fills in.
#[derive(Debug, PartialEq, Eq)]
pub struct RustVersion {
    pub version: String,
    pub release_date: String,
    pub git_commit: Option<String>,
    pub latest_stable: bool,
    pub latest_beta: bool,
    pub latest_nightly: bool,
    pub components: Vec<Component>,
    pub profiles: Option<std::collections::HashMap<String, Vec<String>>>,
    pub renames: Option<std::collections::HashMap<String, String>>,
    pub artefacts: Option<Vec<Artefact>>,
}

/// Mathematical view of a [`RustVersion`]. The profile and rename maps are
/// not part of the view: no query of this core ever fills them, and the
/// contracts state directly that they stay absent.
pub ghost struct RustVersionV {
    pub version: Seq<char>,
    pub release_date: Seq<char>,
    pub git_commit: Option<Seq<char>>,
    pub latest_stable: bool,
    pub latest_beta: bool,
    pub latest_nightly: bool,
    pub components: Seq<ComponentV>,
    pub artefacts: Option<Seq<ArtefactV>>,
}

/// View of a component list.
pub open spec fn component_views(cs: Seq<Component>) -> Seq<ComponentV> {
    cs.map_values(|c: Component| c@)
}

/// View of an artefact list.
pub open spec fn artefact_views(arts: Seq<Artefact>) -> Seq<ArtefactV> {
    arts.map_values(|a: Artefact| a@)
}

impl View for RustVersion {
    type V = RustVersionV;

    open spec fn view(&self) -> RustVersionV {
        RustVersionV {
            version: self.version@,
            release_date: self.release_date@,
            git_commit: opt_view(self.git_commit),
            latest_stable: self.latest_stable,
            latest_beta: self.latest_beta,
            latest_nightly: self.latest_nightly,
            components: component_views(self.components@),
            artefacts: match self.artefacts {
                Some(arts) => Some(artefact_views(arts@)),
                None => None,
            },
        }
    }
}

/// The three current channel pointers, each an optional release aggregate.
pub struct RustChannelStore {
    pub stable: Option<RustVersion>,
    pub beta: Option<RustVersion>,
    pub nightly: Option<RustVersion>,
}

} // verus!
