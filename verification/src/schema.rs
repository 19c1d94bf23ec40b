//! The schema of a database, and the report that it is built from.

use crate::ordered_map::{strictly_ordered, OrderedMap};
use vstd::prelude::*;

verus! {

/// The type of a property of a node, a vector or an edge, or of a parameter of a query.
#[derive(Debug, PartialEq, Eq)]
pub enum FieldType {
    String,
    Integer,
    Float,
    Boolean,
    ID,
    /// A vector of numbers of a fixed dimension.
    Vector(usize),
    Array(Box<FieldType>),
    Optional(Box<FieldType>),
    /// A type that is known by its name only.
    Custom(String),
}

/// What a `FieldType` stands for.
pub enum FieldTypeView {
    String,
    Integer,
    Float,
    Boolean,
    ID,
    Vector(nat),
    Array(Box<FieldTypeView>),
    Optional(Box<FieldTypeView>),
    Custom(Seq<char>),
}

/// What `t` stands for.
pub open spec fn field_type_view(t: FieldType) -> FieldTypeView
    decreases t,
{
    match t {
        FieldType::String => FieldTypeView::String,
        FieldType::Integer => FieldTypeView::Integer,
        FieldType::Float => FieldTypeView::Float,
        FieldType::Boolean => FieldTypeView::Boolean,
        FieldType::ID => FieldTypeView::ID,
        FieldType::Vector(dim) => FieldTypeView::Vector(dim as nat),
        FieldType::Array(inner) => FieldTypeView::Array(Box::new(field_type_view(*inner))),
        FieldType::Optional(inner) => FieldTypeView::Optional(Box::new(field_type_view(*inner))),
        FieldType::Custom(name) => FieldTypeView::Custom(name@),
    }
}

impl View for FieldType {
    type V = FieldTypeView;

    open spec fn view(&self) -> FieldTypeView {
        field_type_view(*self)
    }
}

impl Clone for FieldType {
    fn clone(&self) -> (copy: Self)
        ensures
            copy@ == self@,
        decreases self,
    {
        match self {
            FieldType::String => FieldType::String,
            FieldType::Integer => FieldType::Integer,
            FieldType::Float => FieldType::Float,
            FieldType::Boolean => FieldType::Boolean,
            FieldType::ID => FieldType::ID,
            FieldType::Vector(dim) => FieldType::Vector(*dim),
            FieldType::Array(inner) => FieldType::Array(Box::new((&**inner).clone())),
            FieldType::Optional(inner) => FieldType::Optional(Box::new((&**inner).clone())),
            FieldType::Custom(name) => FieldType::Custom(name.clone()),
        }
    }
}

/// The properties of an entity, or the parameters of a query, by name.
pub type PropertyMap = OrderedMap<FieldType>;

/// What a `PropertyMap` stands for: its entries in the order of their names.
pub type PropertiesView = Seq<(Seq<char>, FieldTypeView)>;

/// A kind of node: its name and its properties.
#[derive(Debug, Clone, PartialEq, Eq)]
pub struct NodeDefinition {
    pub name: String,
    pub properties: PropertyMap,
}

/// What a `NodeDefinition` stands for.
pub struct NodeDefinitionView {
    pub name: Seq<char>,
    pub properties: PropertiesView,
}

impl View for NodeDefinition {
    type V = NodeDefinitionView;

    open spec fn view(&self) -> NodeDefinitionView {
        NodeDefinitionView { name: self.name@, properties: self.properties@ }
    }
}

/// A kind of vector: its name and its properties.
#[derive(Debug, Clone, PartialEq, Eq)]
pub struct VectorDefinition {
    pub name: String,
    pub properties: PropertyMap,
}

/// What a `VectorDefinition` stands for.
pub struct VectorDefinitionView {
    pub name: Seq<char>,
    pub properties: PropertiesView,
}

impl View for VectorDefinition {
    type V = VectorDefinitionView;

    open spec fn view(&self) -> VectorDefinitionView {
        VectorDefinitionView { name: self.name@, properties: self.properties@ }
    }
}

/// An edge between two nodes. The two ends are names of nodes; nothing checks that nodes of
/// these names are defined.
#[derive(Debug, Clone, PartialEq, Eq)]
pub struct EdgeDefinition {
    pub name: String,
    pub from_node: String,
    pub to_node: String,
    pub properties: PropertyMap,
}

/// What an `EdgeDefinition` stands for.
pub struct EdgeDefinitionView {
    pub name: Seq<char>,
    pub from_node: Seq<char>,
    pub to_node: Seq<char>,
    pub properties: PropertiesView,
}

impl View for EdgeDefinition {
    type V = EdgeDefinitionView;

    open spec fn view(&self) -> EdgeDefinitionView {
        EdgeDefinitionView {
            name: self.name@,
            from_node: self.from_node@,
            to_node: self.to_node@,
            properties: self.properties@,
        }
    }
}

/// A query: its name, its parameters, and what is known of what it returns.
#[derive(Debug, Clone, PartialEq, Eq)]
pub struct QueryDefinition {
    pub name: String,
    pub parameters: PropertyMap,
    /// A description of what the query returns. It is kept for readers and never interpreted.
    pub returns: String,
    pub description: Option<String>,
}

/// What a `QueryDefinition` stands for.
pub struct QueryDefinitionView {
    pub name: Seq<char>,
    pub parameters: PropertiesView,
    pub returns: Seq<char>,
    pub description: Option<Seq<char>>,
}

impl View for QueryDefinition {
    type V = QueryDefinitionView;

    open spec fn view(&self) -> QueryDefinitionView {
        QueryDefinitionView {
            name: self.name@,
            parameters: self.parameters@,
            returns: self.returns@,
            description: match self.description {
                Some(text) => Some(text@),
                None => None,
            },
        }
    }
}

/// The schema of a database: its nodes, vectors, queries and edges, each kind by name. A name
/// may occur in more than one kind.
#[derive(Debug, Clone, PartialEq, Eq)]
pub struct HelixSchema {
    pub nodes: OrderedMap<NodeDefinition>,
    pub vectors: OrderedMap<VectorDefinition>,
    pub queries: OrderedMap<QueryDefinition>,
    pub edges: OrderedMap<EdgeDefinition>,
}

/// What a `HelixSchema` stands for.
pub struct HelixSchemaView {
    pub nodes: Seq<(Seq<char>, NodeDefinitionView)>,
    pub vectors: Seq<(Seq<char>, VectorDefinitionView)>,
    pub queries: Seq<(Seq<char>, QueryDefinitionView)>,
    pub edges: Seq<(Seq<char>, EdgeDefinitionView)>,
}

impl View for HelixSchema {
    type V = HelixSchemaView;

    open spec fn view(&self) -> HelixSchemaView {
        HelixSchemaView {
            nodes: self.nodes@,
            vectors: self.vectors@,
            queries: self.queries@,
            edges: self.edges@,
        }
    }
}

/// Whether each kind of `schema` has its entries in the strict order of their names, as the
/// schema of every `HelixSchema` has.
pub open spec fn well_formed(schema: HelixSchemaView) -> bool {
    &&& strictly_ordered(schema.nodes)
    &&& strictly_ordered(schema.vectors)
    &&& strictly_ordered(schema.queries)
    &&& strictly_ordered(schema.edges)
}

/// What a database reports of itself.
#[derive(Debug, Clone, PartialEq, Eq)]
pub struct IntrospectionResponse {
    pub schema: SchemaData,
    pub queries: Vec<QueryInfo>,
}

/// What an `IntrospectionResponse` stands for.
pub struct IntrospectionResponseView {
    pub schema: SchemaDataView,
    pub queries: Seq<QueryInfoView>,
}

impl View for IntrospectionResponse {
    type V = IntrospectionResponseView;

    open spec fn view(&self) -> IntrospectionResponseView {
        IntrospectionResponseView {
            schema: self.schema@,
            queries: self.queries@.map_values(|q: QueryInfo| q@),
        }
    }
}

/// The entities of a report.
#[derive(Debug, Clone, PartialEq, Eq)]
pub struct SchemaData {
    pub nodes: Vec<NodeInfo>,
    pub vectors: Vec<VectorInfo>,
    pub edges: Vec<EdgeInfo>,
}

/// What a `SchemaData` stands for.
pub struct SchemaDataView {
    pub nodes: Seq<NodeInfoView>,
    pub vectors: Seq<VectorInfoView>,
    pub edges: Seq<EdgeInfoView>,
}

impl View for SchemaData {
    type V = SchemaDataView;

    open spec fn view(&self) -> SchemaDataView {
        SchemaDataView {
            nodes: self.nodes@.map_values(|n: NodeInfo| n@),
            vectors: self.vectors@.map_values(|v: VectorInfo| v@),
            edges: self.edges@.map_values(|e: EdgeInfo| e@),
        }
    }
}

/// The properties of a reported entity, or the parameters of a reported query: each name with
/// the descriptor of its type.
pub type DescriptorMap = OrderedMap<String>;

/// What a `DescriptorMap` stands for: its entries in the order of their names.
pub type DescriptorsView = Seq<(Seq<char>, Seq<char>)>;

/// A node as it is reported.
#[derive(Debug, Clone, PartialEq, Eq)]
pub struct NodeInfo {
    pub name: String,
    pub properties: DescriptorMap,
}

/// What a `NodeInfo` stands for.
pub struct NodeInfoView {
    pub name: Seq<char>,
    pub properties: DescriptorsView,
}

impl View for NodeInfo {
    type V = NodeInfoView;

    open spec fn view(&self) -> NodeInfoView {
        NodeInfoView { name: self.name@, properties: self.properties@ }
    }
}

/// A vector as it is reported.
#[derive(Debug, Clone, PartialEq, Eq)]
pub struct VectorInfo {
    pub name: String,
    pub properties: DescriptorMap,
}

/// What a `VectorInfo` stands for.
pub struct VectorInfoView {
    pub name: Seq<char>,
    pub properties: DescriptorsView,
}

impl View for VectorInfo {
    type V = VectorInfoView;

    open spec fn view(&self) -> VectorInfoView {
        VectorInfoView { name: self.name@, properties: self.properties@ }
    }
}

/// An edge as it is reported.
#[derive(Debug, Clone, PartialEq, Eq)]
pub struct EdgeInfo {
    pub name: String,
    pub from: String,
    pub to: String,
    pub properties: DescriptorMap,
}

/// What an `EdgeInfo` stands for.
pub struct EdgeInfoView {
    pub name: Seq<char>,
    pub from: Seq<char>,
    pub to: Seq<char>,
    pub properties: DescriptorsView,
}

impl View for EdgeInfo {
    type V = EdgeInfoView;

    open spec fn view(&self) -> EdgeInfoView {
        EdgeInfoView {
            name: self.name@,
            from: self.from@,
            to: self.to@,
            properties: self.properties@,
        }
    }
}

/// A query as it is reported.
#[derive(Debug, Clone, PartialEq, Eq)]
pub struct QueryInfo {
    pub name: String,
    pub parameters: DescriptorMap,
    /// The names of the fields that the query returns.
    pub returns: Vec<String>,
}

/// What a `QueryInfo` stands for.
pub struct QueryInfoView {
    pub name: Seq<char>,
    pub parameters: DescriptorsView,
    pub returns: Seq<Seq<char>>,
}

impl View for QueryInfo {
    type V = QueryInfoView;

    open spec fn view(&self) -> QueryInfoView {
        QueryInfoView {
            name: self.name@,
            parameters: self.parameters@,
            returns: self.returns@.map_values(|s: String| s@),
        }
    }
}

} // verus!
