//! A static place-name lookup: classifies a name as a country, a U.S. state,
//! or neither, and returns its capital when the name is known.
//!
//! A [`PlaceDetector`] holds two immutable name-to-capital tables, one for
//! countries and one for U.S. states, loaded once from two flat JSON
//! string-to-string objects.  Lookups normalize the queried name by
//! lowercasing its ASCII letters, check the country table first, and format
//! a found capital by uppercasing the first letter of each of its
//! whitespace-separated words.

mod detector;
mod json;
mod tables;
mod text;

pub use detector::capital_of;
pub use detector::distinct_lowered;
pub use detector::lemma_capital_iff_known;
pub use detector::lemma_case_insensitive;
pub use detector::lemma_country_key;
pub use detector::lemma_loaded_country_key;
pub use detector::lemma_loaded_state_key;
pub use detector::lemma_state_key;
pub use detector::lemma_unknown_name;
pub use detector::loads_table;
pub use detector::place_type_of;
pub use detector::DataLoadError;
pub use detector::PlaceDetector;
pub use detector::PlaceTables;
pub use detector::PlaceType;
pub use json::json_string_map;
pub use tables::normalized_table_of;
pub use text::capitalize_words;
pub use text::lemma_title_case_idempotent;
pub use text::lower_seq;
pub use text::normalize_key;
pub use text::title_case;
