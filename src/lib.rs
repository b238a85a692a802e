//! Consistency checks for a game's mode-map document.
//!
//! The document is a tagged tree ([`Value`]); the checks produce an ordered
//! list of diagnostic lines, each starting with a severity marker:
//! `[!?!]` fatal, `[!!]` critical, `[!]` warning.

mod bounds;
mod check;
mod decimal;
mod entries;
mod laws;
mod text;
mod value;

pub use bounds::check_boundaries;
pub use check::{check_document, perform_checks, Document};
pub use decimal::decimal_sum_sign;
pub use entries::{check_modes, number_as_i32};
pub use text::decimal_string;
pub use value::{has_key, lemma_find_push, lemma_find_some_key, lookup, Decimal, Number, Value};
pub use laws::{
    lemma_adding_missing_key, lemma_checks_repeatable, lemma_empty_document_is_clean,
    lemma_malformed_modes_stop, lemma_non_mapping_root_is_fatal, lemma_one_dangling_reference,
    lemma_one_shape_out_of_range,
};
