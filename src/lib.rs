// Query compilation for a multi-backend data-access engine: filter trees,
// ordering and pagination, joins, grouping and aggregation are compiled into
// either one direct read or an ordered pipeline of stages. Schema texts are
// read into blocks, validated and rendered back.

pub mod aggregation;
pub mod connector;
pub mod datamodel;
pub mod error;
pub mod filter;
pub mod joins;
pub mod laws;
pub mod pagination;
pub mod plan;
pub mod schema_ast;
pub mod schemas;
