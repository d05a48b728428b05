//! The graph projector: walks the resolved package graph and builds the
//! visual node and edge set that the render sink draws.

use vstd::prelude::*;

use crate::color::Rgba;
use crate::graph::{
    duplicate_name, has_duplicate, workspace_connected, workspace_connected_spec, Package,
    PackageGraph,
};
use crate::policy::{
    should_connect_spec, should_include_spec, EdgeKind, FilterMode, VisualizationCfg,
};
use crate::text::{contains_string, contains_text};

verus! {

/// One visual node: it stands for exactly one resolved package, carries the
/// box label `"name-version"` and a fill color when a styling rule applies.
#[derive(Debug, Clone)]
pub struct VisualNode {
    pub package: usize,
    pub label: String,
    pub fill: Option<Rgba>,
}

/// One directed visual edge between node handles (positions in the node
/// list), with its line color.
#[derive(Debug, Clone, Copy, PartialEq, Eq, Structural)]
pub struct VisualEdge {
    pub from: usize,
    pub to: usize,
    pub line_color: Rgba,
}

/// The projected visual graph, ready for the render sink.
#[derive(Debug, Clone)]
pub struct VisualGraph {
    pub nodes: Vec<VisualNode>,
    pub edges: Vec<VisualEdge>,
}

/// One styling rule: when it applies, it sets the fill color.
#[derive(Debug, Clone, Copy)]
pub struct StyleRule {
    pub applies: bool,
    pub color: Rgba,
}

/// The color of the last applicable rule, if any: rules later in the list
/// override earlier ones.
pub open spec fn last_applied(rules: Seq<StyleRule>) -> Option<Rgba>
    decreases rules.len(),
{
    if rules.len() == 0 {
        None
    } else if rules.last().applies {
        Some(rules.last().color)
    } else {
        last_applied(rules.drop_last())
    }
}

/// Applies an ordered list of styling rules; the last applicable one wins.
pub fn apply_style_rules(rules: &Vec<StyleRule>) -> (r: Option<Rgba>)
    ensures
        r == last_applied(rules@),
{
    let mut k = rules.len();
    proof {
        assert(rules@.subrange(0, rules@.len() as int) =~= rules@);
    }
    while k > 0
        invariant
            0 <= k <= rules@.len(),
            last_applied(rules@) == last_applied(rules@.subrange(0, k as int)),
        decreases k,
    {
        k -= 1;
        proof {
            assert(rules@.subrange(0, k + 1).drop_last() =~= rules@.subrange(0, k as int));
            assert(rules@.subrange(0, k + 1).last() == rules@[k as int]);
        }
        if rules[k].applies {
            return Some(rules[k].color);
        }
    }
    proof {
        assert(rules@.subrange(0, 0) =~= Seq::<StyleRule>::empty());
    }
    None
}

/// The fill color of a node: the duplicate rule applies first, then the
/// workspace rule, and the last applicable rule wins — so workspace
/// styling takes precedence over duplicate styling.
pub open spec fn fill_spec(cfg: VisualizationCfg, member: bool, dup: bool) -> Option<Rgba> {
    if member {
        Some(cfg.workspace_color)
    } else if dup {
        Some(cfg.duplicate_color)
    } else {
        None
    }
}

/// Picks a node's fill color from the two styling rules, applied in their
/// fixed order: duplicate first, workspace second. A workspace member
/// always ends up with the workspace color, name-duplicated or not.
pub fn node_fill(cfg: &VisualizationCfg, member: bool, dup: bool) -> (r: Option<Rgba>)
    ensures
        r == fill_spec(*cfg, member, dup),
        member ==> r == Some(cfg.workspace_color),
{
    let mut rules: Vec<StyleRule> = Vec::new();
    rules.push(StyleRule { applies: dup, color: cfg.duplicate_color });
    rules.push(StyleRule { applies: member, color: cfg.workspace_color });
    let r = apply_style_rules(&rules);
    proof {
        reveal_with_fuel(last_applied, 4);
        assert(rules@.len() == 2);
        assert(rules@.last() == (StyleRule { applies: member, color: cfg.workspace_color }));
        assert(rules@.drop_last() =~= seq![rules@[0]]);
        assert(seq![rules@[0]].last() == (StyleRule { applies: dup, color: cfg.duplicate_color }));
        assert(seq![rules@[0]].drop_last() =~= Seq::<StyleRule>::empty());
    }
    r
}

/// The label of a package's node: `"name-version"`.
pub open spec fn label_of(p: Package) -> Seq<char> {
    p.name@ + seq!['-'] + p.version@
}

/// Builds the node label `"name-version"`.
pub fn make_label(p: &Package) -> (r: String)
    ensures
        r@ == label_of(*p),
{
    let mut l = p.name.clone();
    l.append("-");
    l.append(p.version.as_str());
    proof {
        reveal_strlit("-");
        assert(l@ =~= label_of(*p));
    }
    l
}

/// The projector's node rule. In plain mode this is exactly the plain
/// inclusion rule; in kind-aware mode a non-member package also stays
/// eligible under `only_workspace` when a workspace member has a direct
/// edge to it that passes the kind filter.
pub open spec fn node_included(g: PackageGraph, cfg: VisualizationCfg, i: int) -> bool {
    &&& !contains_text(cfg.exclude@, g.packages@[i].name@)
    &&& (g.spec_is_member(i) || !cfg.only_workspace || (cfg.mode == FilterMode::KindAware
        && workspace_connected_spec(g, cfg, i)))
}

/// In plain mode the projector includes a package exactly when
/// `should_include` accepts its name and workspace status.
pub proof fn lemma_plain_mode_matches_should_include(
    g: PackageGraph,
    cfg: VisualizationCfg,
    i: int,
)
    requires
        cfg.mode == FilterMode::Plain,
        0 <= i < g.packages@.len(),
    ensures
        node_included(g, cfg, i) == should_include_spec(
            cfg,
            g.packages@[i].name@,
            g.spec_is_member(i),
        ),
{
}

/// Evaluates the node rule for package `i`.
pub fn package_included(g: &PackageGraph, cfg: &VisualizationCfg, i: usize) -> (r: bool)
    requires
        i < g.packages@.len(),
    ensures
        r == node_included(*g, *cfg, i as int),
{
    if contains_string(&cfg.exclude, g.packages[i].name.as_str()) {
        return false;
    }
    if g.is_member(i) || !cfg.only_workspace {
        return true;
    }
    match cfg.mode {
        FilterMode::Plain => false,
        FilterMode::KindAware => workspace_connected(g, cfg, i),
    }
}

/// How many of the first `n` packages pass the node rule.
pub open spec fn included_count(g: PackageGraph, cfg: VisualizationCfg, n: int) -> nat
    decreases n,
{
    if n <= 0 {
        0
    } else {
        included_count(g, cfg, n - 1) + if node_included(g, cfg, n - 1) {
            1nat
        } else {
            0nat
        }
    }
}

/// The number of included packages never drops as the prefix grows.
pub proof fn lemma_included_count_mono(g: PackageGraph, cfg: VisualizationCfg, i: int, j: int)
    requires
        0 <= i <= j,
    ensures
        included_count(g, cfg, i) <= included_count(g, cfg, j),
    decreases j,
{
    if i < j {
        lemma_included_count_mono(g, cfg, i, j - 1);
    }
}

/// An included package's handle — the number of included packages before
/// it — stays below the count of any longer prefix.
pub proof fn lemma_handle_bounds(g: PackageGraph, cfg: VisualizationCfg, i: int, n: int)
    requires
        0 <= i < n,
        node_included(g, cfg, i),
    ensures
        included_count(g, cfg, i) < included_count(g, cfg, n),
{
    assert(included_count(g, cfg, i + 1) == included_count(g, cfg, i) + 1);
    lemma_included_count_mono(g, cfg, i + 1, n);
}

/// Every position in the kept-edge numbering is hit by some kept edge: a
/// visual edge can only stand where a resolved edge that passed the edge
/// rule was counted, so no edge of an unaccepted kind is ever drawn.
pub proof fn lemma_kept_surjective(g: PackageGraph, cfg: VisualizationCfg, m: int, k: int)
    requires
        0 <= m,
        0 <= k < kept_count(g, cfg, m),
    ensures
        exists|x: int|
            0 <= x < m && #[trigger] edge_kept(g, cfg, x) && kept_count(g, cfg, x) == k,
    decreases m,
{
    if m > 0 {
        if edge_kept(g, cfg, m - 1) && kept_count(g, cfg, m - 1) == k {
            assert(0 <= m - 1 < m && edge_kept(g, cfg, m - 1) && kept_count(g, cfg, m - 1) == k);
        } else {
            lemma_kept_surjective(g, cfg, m - 1, k);
        }
    }
}

/// The projector's edge rule: the edge passes the kind filter, is no
/// self-dependency, and both endpoint packages pass the node rule.
pub open spec fn edge_kept(g: PackageGraph, cfg: VisualizationCfg, e: int) -> bool {
    let d = g.edges@[e];
    &&& should_connect_spec(cfg, d.kind)
    &&& d.from != d.to
    &&& node_included(g, cfg, d.from as int)
    &&& node_included(g, cfg, d.to as int)
}

/// How many of the first `m` resolved edges pass the edge rule.
pub open spec fn kept_count(g: PackageGraph, cfg: VisualizationCfg, m: int) -> nat
    decreases m,
{
    if m <= 0 {
        0
    } else {
        kept_count(g, cfg, m - 1) + if edge_kept(g, cfg, m - 1) {
            1nat
        } else {
            0nat
        }
    }
}

/// The line color of a visual edge: feature-propagation edges are drawn
/// with halved alpha to set them apart from direct dependencies.
pub open spec fn line_color_of(kind: EdgeKind) -> Rgba {
    if kind == EdgeKind::Feature {
        Rgba { r: 0, g: 0, b: 0, a: 127 }
    } else {
        Rgba { r: 0, g: 0, b: 0, a: 255 }
    }
}

/// How resolved edge `e` appears in the visual graph: its endpoints are the
/// handles of its endpoint packages, its line color follows its kind.
pub open spec fn edge_projected(
    g: PackageGraph,
    cfg: VisualizationCfg,
    e: int,
    ve: VisualEdge,
) -> bool {
    &&& ve.from as int == included_count(g, cfg, g.edges@[e].from as int)
    &&& ve.to as int == included_count(g, cfg, g.edges@[e].to as int)
    &&& ve.line_color == line_color_of(g.edges@[e].kind)
}

/// How package `i` appears in the visual graph: its own node, labelled
/// `"name-version"`, filled by the styling rules from its workspace and
/// duplicate status.
pub open spec fn node_projected(
    g: PackageGraph,
    cfg: VisualizationCfg,
    i: int,
    vn: VisualNode,
) -> bool {
    &&& vn.package as int == i
    &&& vn.label@ == label_of(g.packages@[i])
    &&& vn.fill == fill_spec(
        cfg,
        g.spec_is_member(i),
        duplicate_name(g.packages@, g.packages@[i].name@),
    )
}

/// Projects the resolved package graph onto the visual graph.
///
/// The nodes are exactly the packages that pass the node rule, in package
/// order; the edges are exactly the resolved edges that pass the edge rule,
/// in resolved-edge order. Every visual edge runs between two present
/// visual nodes and never from a node to itself.
pub fn project(g: &PackageGraph, cfg: &VisualizationCfg) -> (vg: VisualGraph)
    requires
        g.wf(),
    ensures
        vg.nodes@.len() == included_count(*g, *cfg, g.packages@.len() as int),
        forall|i: int|
            0 <= i < g.packages@.len() && #[trigger] node_included(*g, *cfg, i) ==> included_count(
                *g,
                *cfg,
                i,
            ) < vg.nodes@.len() && node_projected(
                *g,
                *cfg,
                i,
                vg.nodes@[included_count(*g, *cfg, i) as int],
            ),
        forall|k: int|
            0 <= k < vg.nodes@.len() ==> (#[trigger] vg.nodes@[k]).package < g.packages@.len()
                && node_included(*g, *cfg, vg.nodes@[k].package as int) && included_count(
                *g,
                *cfg,
                vg.nodes@[k].package as int,
            ) == k,
        vg.edges@.len() == kept_count(*g, *cfg, g.edges@.len() as int),
        forall|e: int|
            0 <= e < g.edges@.len() && #[trigger] edge_kept(*g, *cfg, e) ==> kept_count(*g, *cfg, e)
                < vg.edges@.len() && edge_projected(
                *g,
                *cfg,
                e,
                vg.edges@[kept_count(*g, *cfg, e) as int],
            ),
        forall|k: int|
            0 <= k < vg.edges@.len() ==> (#[trigger] vg.edges@[k]).from < vg.nodes@.len()
                && vg.edges@[k].to < vg.nodes@.len() && vg.edges@[k].from != vg.edges@[k].to,
{
    let n = g.packages.len();
    let mut nodes: Vec<VisualNode> = Vec::new();
    let mut handles: Vec<Option<usize>> = Vec::new();
    let mut i: usize = 0;
    while i < n
        invariant
            g.wf(),
            n == g.packages@.len(),
            0 <= i <= n,
            handles@.len() == i,
            nodes@.len() == included_count(*g, *cfg, i as int),
            nodes@.len() <= i,
            forall|j: int|
                0 <= j < i ==> ((#[trigger] handles@[j]) is Some <==> node_included(*g, *cfg, j)),
            forall|j: int|
                0 <= j < i && handles@[j] is Some ==> (#[trigger] handles@[j])->0 as int
                    == included_count(*g, *cfg, j),
            forall|j: int|
                0 <= j < i && #[trigger] node_included(*g, *cfg, j) ==> included_count(*g, *cfg, j)
                    < nodes@.len() && node_projected(
                    *g,
                    *cfg,
                    j,
                    nodes@[included_count(*g, *cfg, j) as int],
                ),
            forall|k: int|
                0 <= k < nodes@.len() ==> (#[trigger] nodes@[k]).package < i && node_included(
                    *g,
                    *cfg,
                    nodes@[k].package as int,
                ) && included_count(*g, *cfg, nodes@[k].package as int) == k,
        decreases n - i,
    {
        let ghost old_nodes = nodes@;
        if package_included(g, cfg, i) {
            let member = g.is_member(i);
            let dup = has_duplicate(&g.packages, g.packages[i].name.as_str());
            let fill = node_fill(cfg, member, dup);
            let label = make_label(&g.packages[i]);
            handles.push(Some(nodes.len()));
            nodes.push(VisualNode { package: i, label, fill });
            proof {
                assert(node_projected(*g, *cfg, i as int, nodes@[old_nodes.len() as int]));
            }
        } else {
            handles.push(None);
        }
        proof {
            assert(included_count(*g, *cfg, i + 1) == included_count(*g, *cfg, i as int)
                + if node_included(*g, *cfg, i as int) {
                1nat
            } else {
                0nat
            });
            assert forall|j: int|
                0 <= j < i + 1 && #[trigger] node_included(*g, *cfg, j) implies included_count(
                *g,
                *cfg,
                j,
            ) < nodes@.len() && node_projected(
                *g,
                *cfg,
                j,
                nodes@[included_count(*g, *cfg, j) as int],
            ) by {
                if j < i {
                    assert(node_projected(*g, *cfg, j, old_nodes[included_count(*g, *cfg, j) as int])
                        && included_count(*g, *cfg, j) < old_nodes.len());
                    assert(nodes@[included_count(*g, *cfg, j) as int] == old_nodes[included_count(
                        *g,
                        *cfg,
                        j,
                    ) as int]);
                } else {
                    assert(node_included(*g, *cfg, i as int));
                    assert(included_count(*g, *cfg, j) == old_nodes.len());
                }
            }
        }
        i += 1;
    }
    let mut edges: Vec<VisualEdge> = Vec::new();
    let mut e: usize = 0;
    while e < g.edges.len()
        invariant
            g.wf(),
            n == g.packages@.len(),
            handles@.len() == n,
            nodes@.len() == included_count(*g, *cfg, n as int),
            0 <= e <= g.edges@.len(),
            forall|j: int|
                0 <= j < n ==> ((#[trigger] handles@[j]) is Some <==> node_included(*g, *cfg, j)),
            forall|j: int|
                0 <= j < n && handles@[j] is Some ==> (#[trigger] handles@[j])->0 as int
                    == included_count(*g, *cfg, j),
            edges@.len() == kept_count(*g, *cfg, e as int),
            forall|x: int|
                0 <= x < e && #[trigger] edge_kept(*g, *cfg, x) ==> kept_count(*g, *cfg, x)
                    < edges@.len() && edge_projected(
                    *g,
                    *cfg,
                    x,
                    edges@[kept_count(*g, *cfg, x) as int],
                ),
        decreases g.edges@.len() - e,
    {
        let ghost old_edges = edges@;
        let d = g.edges[e];
        if cfg.should_connect(&d.kind) && d.from != d.to {
            let h0 = handles[d.from];
            let h1 = handles[d.to];
            match (h0, h1) {
                (Some(a), Some(b)) => {
                    let lc = match d.kind {
                        EdgeKind::Feature => Rgba { r: 0, g: 0, b: 0, a: 127 },
                        _ => Rgba { r: 0, g: 0, b: 0, a: 255 },
                    };
                    edges.push(VisualEdge { from: a, to: b, line_color: lc });
                    proof {
                        assert(edge_kept(*g, *cfg, e as int));
                        assert(edge_projected(*g, *cfg, e as int, edges@[old_edges.len() as int]));
                    }
                },
                _ => {
                    proof {
                        assert(!edge_kept(*g, *cfg, e as int));
                    }
                },
            }
        } else {
            proof {
                assert(!edge_kept(*g, *cfg, e as int));
            }
        }
        proof {
            assert(kept_count(*g, *cfg, e + 1) == kept_count(*g, *cfg, e as int) + if edge_kept(
                *g,
                *cfg,
                e as int,
            ) {
                1nat
            } else {
                0nat
            });
            assert forall|x: int|
                0 <= x < e + 1 && #[trigger] edge_kept(*g, *cfg, x) implies kept_count(*g, *cfg, x)
                < edges@.len() && edge_projected(
                *g,
                *cfg,
                x,
                edges@[kept_count(*g, *cfg, x) as int],
            ) by {
                if x < e {
                    assert(edge_projected(*g, *cfg, x, old_edges[kept_count(*g, *cfg, x) as int])
                        && kept_count(*g, *cfg, x) < old_edges.len());
                    assert(edges@[kept_count(*g, *cfg, x) as int] == old_edges[kept_count(
                        *g,
                        *cfg,
                        x,
                    ) as int]);
                } else {
                    assert(edge_kept(*g, *cfg, e as int));
                    assert(kept_count(*g, *cfg, x) == old_edges.len());
                }
            }

        }
        e += 1;
    }
    let vg = VisualGraph { nodes, edges };
    proof {
        assert forall|k: int| 0 <= k < vg.edges@.len() implies (#[trigger] vg.edges@[k]).from
            < vg.nodes@.len() && vg.edges@[k].to < vg.nodes@.len() && vg.edges@[k].from
            != vg.edges@[k].to by {
            lemma_kept_surjective(*g, *cfg, g.edges@.len() as int, k);
            let x = choose|x: int|
                0 <= x < g.edges@.len() && #[trigger] edge_kept(*g, *cfg, x) && kept_count(
                    *g,
                    *cfg,
                    x,
                ) == k;
            assert(edge_projected(*g, *cfg, x, vg.edges@[kept_count(*g, *cfg, x) as int]));
            let d = g.edges@[x];
            lemma_handle_bounds(*g, *cfg, d.from as int, n as int);
            lemma_handle_bounds(*g, *cfg, d.to as int, n as int);
            if (d.from as int) < (d.to as int) {
                lemma_handle_bounds(*g, *cfg, d.from as int, d.to as int);
            } else {
                lemma_handle_bounds(*g, *cfg, d.to as int, d.from as int);
            }
        }
    }
    vg
}

} // verus!
