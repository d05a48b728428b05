//! Dependency-graph visualization core: the decision logic that turns a
//! resolved package graph into the visual graph handed to a render sink.
//!
//! The library owns the filtering policy (exclusions, workspace-only mode,
//! dependency-kind selection), duplicate-version detection, node/edge styling
//! and the projection from a resolved package graph to a visual graph. The
//! external collaborators — the dependency resolver that produces the package
//! graph and the layout engine that draws the visual graph — stay outside;
//! they exchange plain values with this crate.

pub mod color;
pub mod errors;
pub mod graph;
pub mod policy;
pub mod project;
pub mod retained;
pub mod text;

pub use color::Rgba;
pub use errors::ConfigError;
pub use graph::{DepEdge, Package, PackageGraph};
pub use policy::{DepKind, EdgeKind, FilterMode, VisualizationCfg};
pub use project::{StyleRule, VisualEdge, VisualGraph, VisualNode};
pub use retained::Crate;
