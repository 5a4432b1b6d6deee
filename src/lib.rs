//! Query-evaluation core of a metrics backend: label sets, step alignment,
//! grouping and top-k selection, vector matching, the vocabularies of PromQL
//! functions and operators, selector parsing, and the store predicates that
//! selectors, filters, searches and retention rules become.
pub mod text;
pub mod labels;
pub mod grouping;
pub mod matching;
pub mod window;
pub mod functions;
pub mod selector;
pub mod config;
pub mod usage;
pub mod api;
pub mod search;
pub mod retention;
pub mod parser;
pub mod filters;
