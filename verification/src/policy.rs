//! The filter policy: which packages and which dependency edges of the
//! resolved graph are eligible for the visual graph.

use vstd::prelude::*;

use crate::color::Rgba;
use crate::errors::ConfigError;
use crate::text::{contains_string, contains_text, text_eq};

verus! {

/// The classification of a direct dependency: runtime, build-time or
/// development-only.
#[derive(Debug, Clone, Copy, PartialEq, Eq, Structural)]
pub enum DepKind {
    Normal,
    Build,
    Dev,
}

/// What a resolved graph edge stands for: a direct dependency of some kind,
/// a dependency introduced by a feature of some kind, or pure
/// feature-propagation (feature unification rather than a dependency).
#[derive(Debug, Clone, Copy, PartialEq, Eq, Structural)]
pub enum EdgeKind {
    Dep(DepKind),
    DepFeature(DepKind),
    Feature,
}

/// Which of the two node-filtering semantics the projector applies.
#[derive(Debug, Clone, Copy, PartialEq, Eq, Structural)]
pub enum FilterMode {
    /// A package is eligible iff its name is not excluded and, under
    /// `only_workspace`, it is a workspace member.
    Plain,
    /// As `Plain`, but under `only_workspace` a non-member also stays
    /// eligible when at least one workspace member has a direct edge to it
    /// that passes the kind filter.
    KindAware,
}

/// The per-run visualization configuration, immutable once built.
#[derive(Debug, Clone)]
pub struct VisualizationCfg {
    /// Fill color of workspace-member nodes.
    pub workspace_color: Rgba,
    /// Fill color of nodes whose package name resolves to several versions.
    pub duplicate_color: Rgba,
    /// Package names to omit entirely.
    pub exclude: Vec<String>,
    /// Restrict the graph to workspace members (and, in kind-aware mode,
    /// packages they connect to).
    pub only_workspace: bool,
    /// Build targets handed to the resolver.
    pub targets: Vec<String>,
    /// Manifest the resolver starts from.
    pub manifest_path: String,
    /// Where the rendered image is written.
    pub output: String,
    /// Features handed to the resolver.
    pub features: Vec<String>,
    /// Resolve with every feature enabled.
    pub all_features: bool,
    /// Dependency kinds whose edges are kept.
    pub kinds: Vec<DepKind>,
    /// The node-filtering semantics in use.
    pub mode: FilterMode,
}

/// The plain inclusion rule: the name is not excluded, and under
/// `only_workspace` the package is a workspace member.
pub open spec fn should_include_spec(cfg: VisualizationCfg, name: Seq<char>, in_workspace: bool) -> bool {
    !contains_text(cfg.exclude@, name) && (in_workspace || !cfg.only_workspace)
}

/// The edge rule: feature-propagation edges always connect; dependency
/// edges connect iff their kind is accepted.
pub open spec fn should_connect_spec(cfg: VisualizationCfg, edge: EdgeKind) -> bool {
    match edge {
        EdgeKind::Dep(k) => cfg.kinds@.contains(k),
        EdgeKind::DepFeature(k) => cfg.kinds@.contains(k),
        EdgeKind::Feature => true,
    }
}

/// Whether the accepted-kind list holds `k`.
fn contains_kind(v: &Vec<DepKind>, k: DepKind) -> (r: bool)
    ensures
        r == v@.contains(k),
{
    let mut i: usize = 0;
    while i < v.len()
        invariant
            0 <= i <= v@.len(),
            forall|j: int| 0 <= j < i ==> v@[j] != k,
        decreases v@.len() - i,
    {
        if v[i] == k {
            return true;
        }
        i += 1;
    }
    false
}

impl VisualizationCfg {
    /// Decides whether a package with this name and workspace status is
    /// eligible under the plain rule.
    ///
    /// An excluded name is never included, whatever its workspace status;
    /// and with no exclusions and `only_workspace` off, every package is
    /// included.
    pub fn should_include(&self, name: &str, in_workspace: bool) -> (r: bool)
        ensures
            r == should_include_spec(*self, name@, in_workspace),
            contains_text(self.exclude@, name@) ==> !r,
            !self.only_workspace && self.exclude@.len() == 0 ==> r,
    {
        !contains_string(&self.exclude, name) && (in_workspace || !self.only_workspace)
    }

    /// Decides whether a resolved edge passes the kind filter.
    pub fn should_connect(&self, edge: &EdgeKind) -> (r: bool)
        ensures
            r == should_connect_spec(*self, *edge),
    {
        match edge {
            EdgeKind::Dep(k) => contains_kind(&self.kinds, *k),
            EdgeKind::DepFeature(k) => contains_kind(&self.kinds, *k),
            EdgeKind::Feature => true,
        }
    }
}

impl Default for VisualizationCfg {
    /// An empty configuration: black transparent colors, nothing excluded,
    /// no kinds accepted, kind-aware filtering.
    fn default() -> (r: Self)
        ensures
            r.workspace_color == (Rgba { r: 0, g: 0, b: 0, a: 0 }),
            r.duplicate_color == (Rgba { r: 0, g: 0, b: 0, a: 0 }),
            r.exclude@.len() == 0,
            !r.only_workspace,
            r.targets@.len() == 0,
            r.manifest_path@.len() == 0,
            r.output@.len() == 0,
            r.features@.len() == 0,
            !r.all_features,
            r.kinds@.len() == 0,
            r.mode == FilterMode::KindAware,
    {
        VisualizationCfg {
            workspace_color: Rgba { r: 0, g: 0, b: 0, a: 0 },
            duplicate_color: Rgba { r: 0, g: 0, b: 0, a: 0 },
            exclude: Vec::new(),
            only_workspace: false,
            targets: Vec::new(),
            manifest_path: String::new(),
            output: String::new(),
            features: Vec::new(),
            all_features: false,
            kinds: Vec::new(),
            mode: FilterMode::KindAware,
        }
    }
}

/// The dependency kind a configuration name stands for, if any.
pub open spec fn dep_kind_of(t: Seq<char>) -> Option<DepKind> {
    if t == "normal"@ {
        Some(DepKind::Normal)
    } else if t == "build"@ {
        Some(DepKind::Build)
    } else if t == "dev"@ {
        Some(DepKind::Dev)
    } else {
        None
    }
}

/// Parses one dependency-kind name; anything but "normal", "build" or
/// "dev" is a configuration error.
pub fn parse_dep_kind(s: &str) -> (r: Result<DepKind, ConfigError>)
    ensures
        r == (match dep_kind_of(s@) {
            Some(k) => Ok::<DepKind, ConfigError>(k),
            None => Err::<DepKind, ConfigError>(ConfigError::InvalidDepKind),
        }),
{
    if text_eq(s, "normal") {
        Ok(DepKind::Normal)
    } else if text_eq(s, "build") {
        Ok(DepKind::Build)
    } else if text_eq(s, "dev") {
        Ok(DepKind::Dev)
    } else {
        Err(ConfigError::InvalidDepKind)
    }
}

/// Parses a list of dependency-kind names; the first invalid name makes
/// the whole list a configuration error.
pub fn parse_dep_kinds(names: &Vec<String>) -> (r: Result<Vec<DepKind>, ConfigError>)
    ensures
        r is Ok <==> (forall|i: int|
            0 <= i < names@.len() ==> dep_kind_of(#[trigger] names@[i]@) is Some),
        r is Ok ==> r->Ok_0@.len() == names@.len(),
        r is Ok ==> (forall|i: int|
            0 <= i < names@.len() ==> Some(#[trigger] r->Ok_0@[i]) == dep_kind_of(names@[i]@)),
        r is Err ==> r == Err::<Vec<DepKind>, ConfigError>(ConfigError::InvalidDepKind),
{
    let mut ks: Vec<DepKind> = Vec::new();
    let mut i: usize = 0;
    while i < names.len()
        invariant
            0 <= i <= names@.len(),
            ks@.len() == i,
            forall|j: int| 0 <= j < i ==> dep_kind_of(#[trigger] names@[j]@) is Some,
            forall|j: int| 0 <= j < i ==> Some(#[trigger] ks@[j]) == dep_kind_of(names@[j]@),
        decreases names@.len() - i,
    {
        match parse_dep_kind(names[i].as_str()) {
            Ok(k) => {
                ks.push(k);
            },
            Err(e) => {
                return Err(e);
            },
        }
        i += 1;
    }
    Ok(ks)
}

} // verus!
