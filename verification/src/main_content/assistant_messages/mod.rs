//! Assistant messages: the markdown event stream, inline content, tables,
//! diagrams and code highlighting.

pub mod cmark;
pub mod accumulator;
pub mod assoc;
pub mod inline;
pub mod items;
pub mod table;
pub mod blocks;
pub mod mermaid;
pub mod diagram_parse;
pub mod diagram_layers;
pub mod diagram_layout;
pub mod markdown;
pub mod assistant;
