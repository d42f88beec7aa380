//! A small line-oriented text search library.
//!
//! Given a query string and a block of text, `search` and
//! `search_case_insenstive` return, in original order, every line of the text
//! that contains the query, comparing either exactly or under a simple
//! per-character lowercase mapping.  `Config` resolves the case-sensitivity
//! policy from the command-line tokens and the presence of an environment
//! override.

mod config;
mod lines;
mod search;
mod text;

pub use config::Config;
pub use config::ConfigError;
pub use config::default_case_sensitive;
pub use config::lemma_case_default_sensitive;
pub use config::lemma_env_override_insensitive;
pub use config::lemma_fourth_token_wins;
pub use config::resolved_case_sensitive;
pub use lines::first_newline;
pub use lines::lines_of;
pub use lines::split_lines;
pub use lines::strip_cr;
pub use search::is_subseq_of;
pub use search::lemma_empty_query_matches_all;
pub use search::lemma_search_deterministic;
pub use search::lemma_search_preserves_order;
pub use search::line_matches;
pub use search::matching_lines;
pub use search::run_on_contents;
pub use search::search;
pub use search::search_case_insenstive;
pub use search::search_results;
pub use search::subseq_witness;
pub use text::contains_at;
pub use text::contains_seq;
pub use text::fold_case;
pub use text::lower_char;
pub use text::lower_seq;
