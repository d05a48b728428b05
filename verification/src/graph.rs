//! The resolved package graph as the projector reads it: packages, their
//! workspace markers, dependency edges — and the duplicate-version scan.

use vstd::prelude::*;

use crate::policy::{should_connect_spec, EdgeKind, VisualizationCfg};
use crate::text::{contains_string, contains_text, text_eq};

verus! {

/// One resolved package: a name (not unique across versions) and a version.
/// Its id is its position in the graph's package list.
#[derive(Debug, Clone)]
pub struct Package {
    pub name: String,
    pub version: String,
}

/// One resolved dependency edge between two package ids, tagged with what
/// the edge stands for.
#[derive(Debug, Clone, Copy)]
pub struct DepEdge {
    pub from: usize,
    pub to: usize,
    pub kind: EdgeKind,
}

/// The resolved package graph handed in by the external resolver, as plain
/// values: enumerable packages, the ids of the workspace members, and the
/// direct dependency edges.
#[derive(Debug, Clone)]
pub struct PackageGraph {
    pub packages: Vec<Package>,
    pub workspace_members: Vec<usize>,
    pub edges: Vec<DepEdge>,
}

impl PackageGraph {
    /// Well-formed: every edge endpoint and every workspace marker names a
    /// package of the graph.
    pub open spec fn wf(&self) -> bool {
        &&& forall|e: int|
            0 <= e < self.edges@.len() ==> (#[trigger] self.edges@[e]).from
                < self.packages@.len() && self.edges@[e].to < self.packages@.len()
        &&& forall|k: int|
            0 <= k < self.workspace_members@.len() ==> #[trigger] self.workspace_members@[k]
                < self.packages@.len()
    }

    /// Checks well-formedness, so that an unverified caller can test it
    /// before projecting.
    pub fn is_well_formed(&self) -> (r: bool)
        ensures
            r == self.wf(),
    {
        let n = self.packages.len();
        let mut e: usize = 0;
        while e < self.edges.len()
            invariant
                n == self.packages@.len(),
                0 <= e <= self.edges@.len(),
                forall|x: int|
                    0 <= x < e ==> (#[trigger] self.edges@[x]).from < n && self.edges@[x].to < n,
            decreases self.edges@.len() - e,
        {
            if self.edges[e].from >= n || self.edges[e].to >= n {
                return false;
            }
            e += 1;
        }
        let mut k: usize = 0;
        while k < self.workspace_members.len()
            invariant
                n == self.packages@.len(),
                0 <= k <= self.workspace_members@.len(),
                forall|x: int|
                    0 <= x < self.edges@.len() ==> (#[trigger] self.edges@[x]).from < n
                        && self.edges@[x].to < n,
                forall|x: int| 0 <= x < k ==> #[trigger] self.workspace_members@[x] < n,
            decreases self.workspace_members@.len() - k,
        {
            if self.workspace_members[k] >= n {
                return false;
            }
            k += 1;
        }
        true
    }

    /// Whether package `i` is marked as a workspace member.
    pub open spec fn spec_is_member(&self, i: int) -> bool {
        exists|k: int|
            0 <= k < self.workspace_members@.len() && #[trigger] self.workspace_members@[k] as int
                == i
    }

    /// Tests the workspace marker of package `i`.
    pub fn is_member(&self, i: usize) -> (r: bool)
        ensures
            r == self.spec_is_member(i as int),
    {
        let mut k: usize = 0;
        while k < self.workspace_members.len()
            invariant
                0 <= k <= self.workspace_members@.len(),
                forall|x: int| 0 <= x < k ==> #[trigger] self.workspace_members@[x] != i,
            decreases self.workspace_members@.len() - k,
        {
            if self.workspace_members[k] == i {
                return true;
            }
            k += 1;
        }
        false
    }
}

/// Whether some workspace member has a direct edge to package `i` that
/// passes the kind filter.
pub open spec fn workspace_connected_spec(g: PackageGraph, cfg: VisualizationCfg, i: int) -> bool {
    exists|e: int|
        0 <= e < g.edges@.len() && (#[trigger] g.edges@[e]).to as int == i && g.spec_is_member(
            g.edges@[e].from as int,
        ) && should_connect_spec(cfg, g.edges@[e].kind)
}

/// Looks for a direct edge from a workspace member to package `i` that
/// passes the kind filter. A member without any qualifying edge to `i`
/// contributes nothing: at least one such edge must exist.
pub fn workspace_connected(g: &PackageGraph, cfg: &VisualizationCfg, i: usize) -> (r: bool)
    ensures
        r == workspace_connected_spec(*g, *cfg, i as int),
{
    let mut e: usize = 0;
    while e < g.edges.len()
        invariant
            0 <= e <= g.edges@.len(),
            forall|x: int|
                #![trigger g.edges@[x]]
                0 <= x < e ==> !(g.edges@[x].to as int == i as int && g.spec_is_member(
                    g.edges@[x].from as int,
                ) && should_connect_spec(*cfg, g.edges@[x].kind)),
        decreases g.edges@.len() - e,
    {
        let d = g.edges[e];
        if d.to == i && g.is_member(d.from) && cfg.should_connect(&d.kind) {
            return true;
        }
        e += 1;
    }
    false
}

/// Whether `name` resolves to more than one distinct version in the whole
/// package list.
pub open spec fn duplicate_name(pkgs: Seq<Package>, name: Seq<char>) -> bool {
    exists|i: int, j: int|
        0 <= i < pkgs.len() && 0 <= j < pkgs.len() && (#[trigger] pkgs[i]).name@ == name && (
        #[trigger] pkgs[j]).name@ == name && pkgs[i].version@ != pkgs[j].version@
}

/// The first package with this name, if any.
fn first_with_name(pkgs: &Vec<Package>, name: &str) -> (r: Option<usize>)
    ensures
        match r {
            Some(f) => f < pkgs@.len() && pkgs@[f as int].name@ == name@,
            None => forall|j: int| 0 <= j < pkgs@.len() ==> (#[trigger] pkgs@[j]).name@ != name@,
        },
{
    let mut i: usize = 0;
    while i < pkgs.len()
        invariant
            0 <= i <= pkgs@.len(),
            forall|j: int| 0 <= j < i ==> (#[trigger] pkgs@[j]).name@ != name@,
        decreases pkgs@.len() - i,
    {
        if text_eq(pkgs[i].name.as_str(), name) {
            return Some(i);
        }
        i += 1;
    }
    None
}

/// Scans the whole (unfiltered) package list for a second distinct version
/// of `name`.
pub fn has_duplicate(pkgs: &Vec<Package>, name: &str) -> (r: bool)
    ensures
        r == duplicate_name(pkgs@, name@),
{
    let f = match first_with_name(pkgs, name) {
        Some(f) => f,
        None => {
            return false;
        },
    };
    let mut j: usize = 0;
    while j < pkgs.len()
        invariant
            f < pkgs@.len(),
            pkgs@[f as int].name@ == name@,
            0 <= j <= pkgs@.len(),
            forall|x: int|
                0 <= x < j && (#[trigger] pkgs@[x]).name@ == name@ ==> pkgs@[x].version@
                    == pkgs@[f as int].version@,
        decreases pkgs@.len() - j,
    {
        if text_eq(pkgs[j].name.as_str(), name) && !text_eq(
            pkgs[j].version.as_str(),
            pkgs[f].version.as_str(),
        ) {
            return true;
        }
        j += 1;
    }
    proof {
        if duplicate_name(pkgs@, name@) {
            let (i, j2) = choose|i: int, j2: int|
                0 <= i < pkgs@.len() && 0 <= j2 < pkgs@.len() && (#[trigger] pkgs@[i]).name@
                    == name@ && (#[trigger] pkgs@[j2]).name@ == name@ && pkgs@[i].version@
                    != pkgs@[j2].version@;
            assert(pkgs@[i].version@ == pkgs@[f as int].version@);
            assert(pkgs@[j2].version@ == pkgs@[f as int].version@);
        }
    }
    false
}

/// Collects every name that resolves to more than one distinct version,
/// each name once, over the whole package list — exclusion filtering never
/// affects this scan.
pub fn compute_duplicates(pkgs: &Vec<Package>) -> (r: Vec<String>)
    ensures
        forall|k: int| 0 <= k < r@.len() ==> duplicate_name(pkgs@, #[trigger] r@[k]@),
        forall|t: Seq<char>| #[trigger] duplicate_name(pkgs@, t) ==> contains_text(r@, t),
        forall|k1: int, k2: int| 0 <= k1 < k2 < r@.len() ==> r@[k1]@ != r@[k2]@,
{
    let mut out: Vec<String> = Vec::new();
    let mut i: usize = 0;
    while i < pkgs.len()
        invariant
            0 <= i <= pkgs@.len(),
            forall|k: int| 0 <= k < out@.len() ==> duplicate_name(pkgs@, #[trigger] out@[k]@),
            forall|k1: int, k2: int| 0 <= k1 < k2 < out@.len() ==> out@[k1]@ != out@[k2]@,
            forall|j: int|
                0 <= j < i && duplicate_name(pkgs@, (#[trigger] pkgs@[j]).name@) ==> contains_text(
                    out@,
                    pkgs@[j].name@,
                ),
        decreases pkgs@.len() - i,
    {
        let ghost prev = out@;
        let nm = pkgs[i].name.clone();
        if !contains_string(&out, nm.as_str()) && has_duplicate(pkgs, nm.as_str()) {
            out.push(nm);
            proof {
                assert forall|t: Seq<char>| contains_text(prev, t) implies contains_text(
                    out@,
                    t,
                ) by {
                    let x = choose|x: int| 0 <= x < prev.len() && prev[x]@ == t;
                    assert(out@[x]@ == t);
                }
                assert(out@[prev.len() as int]@ == pkgs@[i as int].name@);
                assert(contains_text(out@, pkgs@[i as int].name@));
            }
        }
        i += 1;
    }
    proof {
        assert forall|t: Seq<char>| #[trigger] duplicate_name(pkgs@, t) implies contains_text(
            out@,
            t,
        ) by {
            let (a, b) = choose|a: int, b: int|
                0 <= a < pkgs@.len() && 0 <= b < pkgs@.len() && (#[trigger] pkgs@[a]).name@ == t && (
                #[trigger] pkgs@[b]).name@ == t && pkgs@[a].version@ != pkgs@[b].version@;
            assert(duplicate_name(pkgs@, pkgs@[a].name@));
        }
    }
    out
}

} // verus!
