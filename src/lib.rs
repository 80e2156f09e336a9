//! Procedural geometry: vertex layouts, buffer views, interleaved packing,
//! face adjacency, mesh topologies and a transform hierarchy.

pub mod buffer_view;
pub mod config;
pub mod generator;
pub mod input;
pub mod mesh;
pub mod program;
pub mod scene_graph;
pub mod shapes;
pub mod terrain;
pub mod texture;
pub mod vertex;
pub mod warning;
