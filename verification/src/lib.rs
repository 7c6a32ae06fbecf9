//! Semantic convention model, validation and conversion.

pub mod any_value;
pub mod attribute;
pub mod deprecated;
pub mod error;
pub mod signal_requirement_level;
pub mod stability;
pub mod style;
pub mod text;
pub mod yaml_value;
pub mod entity_association;
pub mod v2;
pub mod vec_util;
pub mod group;
pub mod v1;
pub mod convert;
pub mod convert_laws;
pub mod schema_url;
pub mod manifest;
pub mod path_text;
pub mod provenance;
pub mod semconv;
pub mod registry_repo;
pub mod body;
pub mod metric;
pub mod documentation;
pub mod registry_path;
pub mod aggregation;
pub mod stats;
pub mod registry;
pub mod source;
pub mod search;
pub mod laws;
pub mod validation_laws;
pub mod template_laws;
pub mod suggest;
pub mod unexpected_fields;
pub mod registry_search;
