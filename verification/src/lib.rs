//! Column statistics over delimited text: the quote-aware field tokenizer,
//! the per-source extraction state machine, and the integer side of the
//! descriptive statistics and one-way ANOVA computations.

pub mod anova;
pub mod bisect;
pub mod extract;
pub mod field_laws;
pub mod logging;
pub mod stats;
pub mod text;
pub mod tokenizer;
pub mod utils;
