//! Arrow arrays and record batches for kernel scalars, schemas and expressions.
pub mod append;
pub mod append_laws;
pub mod apply_laws;
pub mod apply_schema;
pub mod arrow_arrays;
pub mod arrow_builders;
pub mod arrow_types;
pub mod building;
pub mod cache_laws;
pub mod conversion;
pub mod conversion_laws;
pub mod create_one;
pub mod data_types;
pub mod error;
pub mod evaluate;
pub mod evaluate_laws;
pub mod evaluators;
pub mod fit_laws;
pub mod growth;
pub mod handler;
pub mod identity;
pub mod message_laws;
pub mod messages;
pub mod metadata;
pub mod metadata_laws;
pub mod model;
pub mod nest_laws;
pub mod predicate_laws;
pub mod predicates;
pub mod row_laws;
pub mod rows;
pub mod scalar_laws;
pub mod scalars;
pub mod schema;
pub mod schema_laws;
pub mod sizes;
pub mod table_laws;
pub mod tables;
pub mod text;
pub mod text_laws;
pub mod to_array;
pub mod transform_laws;
