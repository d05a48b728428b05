use crate_vis::graph::{compute_duplicates, has_duplicate, workspace_connected};
use crate_vis::{DepEdge, DepKind, EdgeKind, FilterMode, Package, PackageGraph, Rgba,
    VisualizationCfg};

fn pkg(name: &str, version: &str) -> Package {
    Package { name: name.to_string(), version: version.to_string() }
}

fn kind_cfg(kinds: Vec<DepKind>) -> VisualizationCfg {
    VisualizationCfg {
        workspace_color: Rgba { r: 0, g: 255, b: 0, a: 255 },
        duplicate_color: Rgba { r: 255, g: 0, b: 0, a: 255 },
        exclude: Vec::new(),
        only_workspace: true,
        targets: Vec::new(),
        manifest_path: String::new(),
        output: String::new(),
        features: Vec::new(),
        all_features: false,
        kinds,
        mode: FilterMode::KindAware,
    }
}

#[test]
fn two_versions_of_one_name_are_the_duplicate_set() {
    let pkgs = vec![pkg("A", "1.0"), pkg("A", "2.0"), pkg("B", "1.0")];
    let dups = compute_duplicates(&pkgs);
    assert_eq!(dups, vec!["A".to_string()]);
}

#[test]
fn single_versions_give_no_duplicates() {
    let pkgs = vec![pkg("A", "1.0"), pkg("B", "1.0"), pkg("C", "2.0")];
    let dups = compute_duplicates(&pkgs);
    assert!(dups.is_empty());
}

#[test]
fn same_version_twice_is_no_duplicate() {
    let pkgs = vec![pkg("A", "1.0"), pkg("A", "1.0")];
    assert!(!has_duplicate(&pkgs, "A"));
    assert!(!has_duplicate(&pkgs, "B"));
}

#[test]
fn each_duplicated_name_is_reported_once() {
    let pkgs = vec![
        pkg("A", "1.0"),
        pkg("A", "2.0"),
        pkg("A", "3.0"),
        pkg("B", "1.0"),
        pkg("B", "2.0"),
    ];
    let dups = compute_duplicates(&pkgs);
    assert_eq!(dups, vec!["A".to_string(), "B".to_string()]);
}

#[test]
fn well_formedness_checks_edge_endpoints_and_members() {
    let good = PackageGraph {
        packages: vec![pkg("a", "1"), pkg("b", "1")],
        workspace_members: vec![0],
        edges: vec![DepEdge { from: 0, to: 1, kind: EdgeKind::Dep(DepKind::Normal) }],
    };
    assert!(good.is_well_formed());
    let bad_edge = PackageGraph {
        packages: vec![pkg("a", "1")],
        workspace_members: vec![0],
        edges: vec![DepEdge { from: 0, to: 7, kind: EdgeKind::Dep(DepKind::Normal) }],
    };
    assert!(!bad_edge.is_well_formed());
    let bad_member = PackageGraph {
        packages: vec![pkg("a", "1")],
        workspace_members: vec![3],
        edges: Vec::new(),
    };
    assert!(!bad_member.is_well_formed());
}

#[test]
fn membership_follows_the_workspace_marker() {
    let g = PackageGraph {
        packages: vec![pkg("a", "1"), pkg("b", "1")],
        workspace_members: vec![1],
        edges: Vec::new(),
    };
    assert!(!g.is_member(0));
    assert!(g.is_member(1));
}

#[test]
fn a_qualifying_member_edge_connects_a_package() {
    let g = PackageGraph {
        packages: vec![pkg("root", "1.0"), pkg("leaf", "1.0")],
        workspace_members: vec![0],
        edges: vec![DepEdge { from: 0, to: 1, kind: EdgeKind::Dep(DepKind::Normal) }],
    };
    assert!(workspace_connected(&g, &kind_cfg(vec![DepKind::Normal]), 1));
}

#[test]
fn an_edge_of_a_rejected_kind_does_not_connect() {
    let g = PackageGraph {
        packages: vec![pkg("root", "1.0"), pkg("leaf", "1.0")],
        workspace_members: vec![0],
        edges: vec![DepEdge { from: 0, to: 1, kind: EdgeKind::Dep(DepKind::Dev) }],
    };
    assert!(!workspace_connected(&g, &kind_cfg(vec![DepKind::Normal]), 1));
}

#[test]
fn a_package_without_any_member_edge_is_not_connected() {
    let g = PackageGraph {
        packages: vec![pkg("root", "1.0"), pkg("stray", "2.0")],
        workspace_members: vec![0],
        edges: Vec::new(),
    };
    assert!(!workspace_connected(&g, &kind_cfg(vec![DepKind::Normal]), 1));
}

#[test]
fn an_edge_from_a_non_member_does_not_connect() {
    let g = PackageGraph {
        packages: vec![pkg("root", "1.0"), pkg("mid", "1.0"), pkg("deep", "1.0")],
        workspace_members: vec![0],
        edges: vec![DepEdge { from: 1, to: 2, kind: EdgeKind::Dep(DepKind::Normal) }],
    };
    assert!(!workspace_connected(&g, &kind_cfg(vec![DepKind::Normal]), 2));
}
