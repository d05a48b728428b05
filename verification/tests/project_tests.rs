use crate_vis::project::{node_fill, project};
use crate_vis::{DepEdge, DepKind, EdgeKind, FilterMode, Package, PackageGraph, Rgba,
    VisualizationCfg};

fn pkg(name: &str, version: &str) -> Package {
    Package { name: name.to_string(), version: version.to_string() }
}

fn cfg(only_workspace: bool, kinds: Vec<DepKind>, mode: FilterMode) -> VisualizationCfg {
    VisualizationCfg {
        workspace_color: Rgba { r: 0, g: 255, b: 0, a: 255 },
        duplicate_color: Rgba { r: 255, g: 0, b: 0, a: 255 },
        exclude: Vec::new(),
        only_workspace,
        targets: Vec::new(),
        manifest_path: String::new(),
        output: String::new(),
        features: Vec::new(),
        all_features: false,
        kinds,
        mode,
    }
}

#[test]
fn self_dependencies_never_become_edges() {
    let g = PackageGraph {
        packages: vec![pkg("solo", "1.0")],
        workspace_members: vec![0],
        edges: vec![DepEdge { from: 0, to: 0, kind: EdgeKind::Dep(DepKind::Normal) }],
    };
    let vg = project(&g, &cfg(false, vec![DepKind::Normal], FilterMode::KindAware));
    assert_eq!(vg.nodes.len(), 1);
    assert!(vg.edges.is_empty());
}

#[test]
fn node_count_matches_the_plain_inclusion_rule() {
    let g = PackageGraph {
        packages: vec![pkg("a", "1"), pkg("b", "1"), pkg("c", "1")],
        workspace_members: vec![0],
        edges: Vec::new(),
    };
    let mut c = cfg(false, vec![DepKind::Normal], FilterMode::Plain);
    c.exclude = vec!["b".to_string()];
    // Of the three packages, exactly `a` and `c` pass `should_include`.
    assert!(c.should_include("a", true));
    assert!(!c.should_include("b", false));
    assert!(c.should_include("c", false));
    let vg = project(&g, &c);
    assert_eq!(vg.nodes.len(), 2);
    assert_eq!(vg.nodes[0].package, 0);
    assert_eq!(vg.nodes[1].package, 2);
}

#[test]
fn edges_stay_inside_the_node_set_and_respect_kinds() {
    let g = PackageGraph {
        packages: vec![pkg("a", "1"), pkg("b", "1"), pkg("c", "1")],
        workspace_members: vec![0, 1, 2],
        edges: vec![
            DepEdge { from: 0, to: 1, kind: EdgeKind::Dep(DepKind::Normal) },
            DepEdge { from: 1, to: 2, kind: EdgeKind::Dep(DepKind::Dev) },
            DepEdge { from: 2, to: 0, kind: EdgeKind::Dep(DepKind::Build) },
        ],
    };
    let vg = project(&g, &cfg(false, vec![DepKind::Normal, DepKind::Build], FilterMode::KindAware));
    // The dev edge is dropped; the normal and build edges remain.
    assert_eq!(vg.edges.len(), 2);
    for e in &vg.edges {
        assert!(e.from < vg.nodes.len());
        assert!(e.to < vg.nodes.len());
        assert_ne!(e.from, e.to);
    }
    assert_eq!(vg.edges[0].from, 0);
    assert_eq!(vg.edges[0].to, 1);
    assert_eq!(vg.edges[1].from, 2);
    assert_eq!(vg.edges[1].to, 0);
}

#[test]
fn workspace_styling_beats_duplicate_styling() {
    let c = cfg(false, vec![], FilterMode::KindAware);
    assert_eq!(node_fill(&c, true, true), Some(c.workspace_color));
    assert_eq!(node_fill(&c, true, false), Some(c.workspace_color));
    assert_eq!(node_fill(&c, false, true), Some(c.duplicate_color));
    assert_eq!(node_fill(&c, false, false), None);
}

#[test]
fn a_duplicated_member_node_is_filled_with_the_workspace_color() {
    let g = PackageGraph {
        packages: vec![pkg("dup", "1.0"), pkg("dup", "2.0")],
        workspace_members: vec![0],
        edges: Vec::new(),
    };
    let vg = project(&g, &cfg(false, vec![], FilterMode::KindAware));
    assert_eq!(vg.nodes.len(), 2);
    assert_eq!(vg.nodes[0].fill, Some(Rgba { r: 0, g: 255, b: 0, a: 255 }));
    assert_eq!(vg.nodes[1].fill, Some(Rgba { r: 255, g: 0, b: 0, a: 255 }));
}

#[test]
fn nodes_are_labelled_name_dash_version() {
    let g = PackageGraph {
        packages: vec![pkg("foo", "1.2.3")],
        workspace_members: vec![],
        edges: Vec::new(),
    };
    let vg = project(&g, &cfg(false, vec![], FilterMode::KindAware));
    assert_eq!(vg.nodes[0].label, "foo-1.2.3");
}

#[test]
fn feature_propagation_edges_are_drawn_lighter() {
    let g = PackageGraph {
        packages: vec![pkg("a", "1"), pkg("b", "1")],
        workspace_members: vec![0, 1],
        edges: vec![
            DepEdge { from: 0, to: 1, kind: EdgeKind::Feature },
            DepEdge { from: 1, to: 0, kind: EdgeKind::Dep(DepKind::Normal) },
        ],
    };
    let vg = project(&g, &cfg(false, vec![DepKind::Normal], FilterMode::KindAware));
    assert_eq!(vg.edges.len(), 2);
    assert_eq!(vg.edges[0].line_color, Rgba { r: 0, g: 0, b: 0, a: 127 });
    assert_eq!(vg.edges[1].line_color, Rgba { r: 0, g: 0, b: 0, a: 255 });
}

#[test]
fn workspace_scenario_keeps_the_connected_leaf_only() {
    // A workspace member `root` depends (normal) on external `leaf@1.0`;
    // `other` resolves twice (2.0 and 3.0) but has no edge from the
    // workspace. Under only_workspace with normal edges accepted, the
    // visual graph is {root, leaf} with the one edge root -> leaf.
    let g = PackageGraph {
        packages: vec![
            pkg("root", "1.0"),
            pkg("leaf", "1.0"),
            pkg("other", "2.0"),
            pkg("other", "3.0"),
        ],
        workspace_members: vec![0],
        edges: vec![DepEdge { from: 0, to: 1, kind: EdgeKind::Dep(DepKind::Normal) }],
    };
    let vg = project(&g, &cfg(true, vec![DepKind::Normal], FilterMode::KindAware));
    assert_eq!(vg.nodes.len(), 2);
    assert_eq!(vg.nodes[0].package, 0);
    assert_eq!(vg.nodes[0].label, "root-1.0");
    assert_eq!(vg.nodes[1].package, 1);
    assert_eq!(vg.nodes[1].label, "leaf-1.0");
    assert_eq!(vg.edges.len(), 1);
    assert_eq!(vg.edges[0].from, 0);
    assert_eq!(vg.edges[0].to, 1);
}

#[test]
fn excluded_packages_lose_their_edges_too() {
    let g = PackageGraph {
        packages: vec![pkg("a", "1"), pkg("b", "1")],
        workspace_members: vec![0, 1],
        edges: vec![DepEdge { from: 0, to: 1, kind: EdgeKind::Dep(DepKind::Normal) }],
    };
    let mut c = cfg(false, vec![DepKind::Normal], FilterMode::KindAware);
    c.exclude = vec!["b".to_string()];
    let vg = project(&g, &c);
    assert_eq!(vg.nodes.len(), 1);
    assert!(vg.edges.is_empty());
}
