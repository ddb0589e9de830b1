//! Project scaffolding library: decides which parts of a firmware template
//! archive are materialised, how archive entry paths map onto the
//! destination tree, how placeholder tokens are rewritten, and in which order
//! the pipeline stages run.

pub mod archive;
pub mod chip;
pub mod error;
pub mod overlay;
pub mod pipeline;
pub mod placeholder;
pub mod source;
pub mod text;
