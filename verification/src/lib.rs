//! Query expansion: a query is split into terms and a template, the terms are
//! handed to expansion modules, and the template is filled in again with the
//! disjunction of what they found.
//!
//! * [`lexer`] splits a query into its terms and its template.
//! * [`params`] holds the parameters that come with a query.
//! * [`modules`] holds the modules: a lookup table and a fuzzy search in a
//!   lexicon, which the expander asks itself, and the modules over a variant
//!   model and over word embeddings, which are asked after them; with them
//!   the settings of a variant model, as plain values.
//! * [`expander`] asks the modules and puts their answers together.
//! * [`template`] fills the template with the expansions.
//!
//! The library reads no files: its caller reads the lexicons and hands their
//! text over, and it builds the variant models and reads the word
//! embeddings. The library holds no floating-point numbers either: a score
//! is kept by its bits, and the searches in a variant model and among word
//! embeddings, which compute with such numbers, are made by the caller, who
//! hands over what was found.

pub mod api;
pub mod chars;
pub mod config;
pub mod error;
pub mod expander;
pub mod expansion;
pub mod lexer;
pub mod modules;
pub mod params;
pub mod template;
pub mod text;

pub use config::{Config, Sources};
pub use error::Error;
pub use expander::QueryExpander;
pub use expansion::{Score, TermExpansion, TermExpansions};
pub use lexer::Term;
pub use modules::analiticcl::{
    AnaliticclConfig, AnaliticclModule, Lexicon, SearchOverrides, VariantList, VariantSearch,
};
pub use modules::finalfusion::{FinalFusionConfig, FinalFusionModule, NeighbourSearch};
pub use modules::fst::{FstConfig, FstModule};
pub use modules::settings::{
    DistanceThreshold, FrequencyHandling, SearchParameters, StopCriterion, VocabParams, Weights,
};
pub use modules::lookup::{LookupConfig, LookupData, LookupModule};
pub use modules::{Module, Provider};
pub use params::{Number, ParamValue, QueryParam, QueryParams};
