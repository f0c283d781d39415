//! An entity-relationship diagram as data: the schema types, the repair
//! pass that brings a loaded diagram up to date, the two name policies, and
//! the renderers that turn a diagram into Markdown and Mermaid text.
pub mod entity_map;
pub mod laws;
pub mod load;
pub mod markdown;
pub mod measure;
pub mod mermaid;
pub mod model;
pub mod normalize;
pub mod order;
pub mod render;
pub mod sanitize;
pub mod text;
