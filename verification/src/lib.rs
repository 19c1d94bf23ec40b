//! From what a HelixDB database reports of itself to a typed TypeScript client.
//!
//! A report names the nodes, vectors, edges and queries of a database, and gives the type of
//! each property and parameter as a descriptor. [`introspector`] reads the descriptors and
//! builds the [`HelixSchema`]; [`TypeScriptGenerator`] writes the artifact for it, whose text
//! [`artifact`] defines. The entries of every kind are kept in the order of their names, so
//! that the same schema always gives the same text.

pub mod artifact;
pub mod connection;
pub mod error;
pub mod introspector;
pub mod name_order;
pub mod ordered_map;
pub mod schema;
pub mod text;
pub mod ts_generator;
pub mod utils;

pub use connection::HelixDBConnection;
pub use error::{DimensionFault, Error};
pub use ordered_map::OrderedMap;
pub use schema::{
    DescriptorMap, EdgeDefinition, EdgeInfo, FieldType, HelixSchema, IntrospectionResponse,
    NodeDefinition, NodeInfo, PropertyMap, QueryDefinition, QueryInfo, SchemaData,
    VectorDefinition, VectorInfo,
};
pub use ts_generator::TypeScriptGenerator;
