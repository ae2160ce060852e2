//! A verified engine that turns heterogeneous source trees (Delphi/Object
//! Pascal units, Laravel PHP applications) into one language-agnostic
//! property graph: project-type detection, per-framework lexical extraction,
//! and graph assembly with deterministic, content-addressed identities.

pub mod text;
pub mod hash;
pub mod project_type;
pub mod source_file;
pub mod detection;
pub mod facts;
pub mod graph;
pub mod php;
pub mod pascal;
pub mod strategy;
pub mod registry;
pub mod delphi;
pub mod routes;
pub mod controller;
pub mod eloquent;
pub mod migration;
pub mod blade;
pub mod inertia;
pub mod laravel;
