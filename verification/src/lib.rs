//! Locate a single cheatsheet file near the executable by fuzzy name match,
//! optionally render it from markup to a displayable format, and report what
//! should be opened.
//!
//! The heart of the library is the resolver: given a directory listing and a
//! search pattern, it decides deterministically which file (if any) the user
//! meant, including the tie-break rules that apply when several files match.

mod candidate;
mod render;
mod report;
mod resolver;
mod text;

pub use candidate::CandidateFile;
pub use candidate::CandidateView;
pub use candidate::candidate_matches;
pub use candidate::contains_pattern_ignore_case;
pub use candidate::is_markup;
pub use candidate::is_render;
pub use candidate::markup_ext;
pub use candidate::needs_render;
pub use candidate::render_ext;
pub use candidate::stem_is_exactly;
pub use render::html_of;
pub use render::lemma_render_deterministic;
pub use render::render_markup;
pub use render::render_output_name;
pub use report::empty_message;
pub use report::multi_file_error;
pub use report::multi_file_error_text;
pub use report::opened_message;
pub use report::usage_message;
pub use resolver::Resolution;
pub use resolver::check_markup_condition;
pub use resolver::contains_exact_string;
pub use resolver::lemma_match_indices_upto_complete;
pub use resolver::lemma_match_indices_upto_no_dup;
pub use resolver::lemma_match_indices_upto_props;
pub use resolver::lemma_no_match_is_empty;
pub use resolver::lemma_resolve_deterministic;
pub use resolver::lemma_unique_match_is_chosen;
pub use resolver::resolve;
pub use resolver::SpecOutcome;
pub use resolver::exact_choice;
pub use resolver::exact_positions_upto;
pub use resolver::exts_ok_upto;
pub use resolver::ints_of;
pub use resolver::markup_choice;
pub use resolver::markup_positions_upto;
pub use resolver::match_indices;
pub use resolver::match_indices_upto;
pub use resolver::names_of;
pub use resolver::resolve_spec;
pub use resolver::strs_of;
pub use resolver::views_of;
pub use text::contains_substring;
pub use text::is_substring_of;
pub use text::lower_of;
pub use text::lowercase;
pub use text::matches_at;
pub use text::str_eq;
