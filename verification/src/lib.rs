//! Descriptive statistics over a textual dataset of floating-point samples.
//!
//! The library covers the two components with real semantics: the
//! format-aware tokenizer (with its malformed-input tolerance policy) and
//! the aggregation engine's discrete parts.  IEEE-754 doubles are carried
//! through the verified code as their 64-bit representations; the
//! floating-point arithmetic itself (sum, mean, deviations) is performed by
//! the unverified shell around the library, which hands the results back as
//! bit patterns.
#![verifier::loop_isolation(false)]

use vstd::prelude::*;

mod format;
mod float_bits;
mod tokenize;
mod stats;

pub use format::Format;
pub use format::StatsError;
pub use format::parse_format_tag;
pub use format::is_txt_tag;
pub use format::is_csv_tag;
pub use float_bits::abs_bits;
pub use float_bits::is_nan_bits;
pub use float_bits::rank;
pub use float_bits::bits_gt;
pub use float_bits::bits_lt;
pub use float_bits::bits_le;
pub use float_bits::bits_is_nan;
pub use float_bits::f64_bits_gt;
pub use float_bits::f64_bits_lt;
pub use tokenize::is_whitespace_char;
pub use tokenize::normalize_char;
pub use tokenize::normalize;
pub use tokenize::ws_fold;
pub use tokenize::ws_tokens;
pub use tokenize::spec_tokens;
pub use tokenize::has_comma_token;
pub use tokenize::tokenize;
pub use tokenize::token_wf;
pub use tokenize::lemma_tokens_wf;
pub use tokenize::lemma_csv_tokens_comma_free;
pub use tokenize::lemma_csv_normalization;
pub use stats::Dataset;
pub use stats::StatData;
pub use stats::parsed_values;
pub use stats::spec_min;
pub use stats::spec_max;
pub use stats::lemma_count_is_parsed_tokens;
pub use stats::lemma_min_max_membership;
pub use stats::lemma_min_max_bounds;
