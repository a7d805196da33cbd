//! Derives the sorted, deduplicated list of feature names that a pipeline
//! configuration needs: one for each enabled top-level capability and one for
//! each kind of component configured under `sources`, `transforms` and `sinks`.

pub mod config;
pub mod order;
pub mod feature_set;
pub mod tables;
pub mod features;
pub mod format;

pub use config::{Component, Section, SingerConfig};
pub use feature_set::FeatureSet;
pub use features::{add_option, from_config, get_features};
pub use format::{format_for_extension, format_for_lowered, Format, InvalidInput, LoadError};
