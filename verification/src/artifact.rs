//! What the artifact for a schema is: its text, part by part, as a function of the schema.

use crate::name_order::{lemma_precedes_irreflexive, precedes};
use crate::ordered_map::{as_map, lemma_ordered_unique, strictly_ordered};
use crate::schema::{
    well_formed, EdgeDefinitionView, FieldTypeView, HelixSchemaView, NodeDefinitionView,
    PropertiesView, QueryDefinitionView, VectorDefinitionView,
};
use crate::text::{decimal, joined};
use crate::utils::{pascal_case, snake_case, uppercase_text};
use vstd::prelude::*;

verus! {

/// The comment at the head of the artifact, and the import of the client.
pub const HEADER: &'static str =
    "// Generated TypeScript types for HelixDB schema\n// This file is auto-generated. Do not edit manually.\n// Generated with helix-ts-gen from introspection endpoint\n\nimport HelixDB from 'helix-ts';\n\n";

/// The types that every artifact declares: the aliases, and the base of each kind of entity.
pub const UTILITY_TYPES: &'static str = r#"// Utility types
export type Vector = number[];
export type Optional<T> = T | null | undefined;
export type HelixID = bigint;

export interface BaseNode {
  id: HelixID;
  created_at?: number;
  updated_at?: number;
}

export interface BaseVector {
  id: HelixID;
}

export interface BaseEdge {
  id?: HelixID;
  created_at?: number;
}

"#;

/// The types of the client, which its package does not export by name.
pub const HELIX_TYPES: &'static str = r#"// HelixDB types (extracted from runtime since not exported)
export type HelixDBClient = HelixDB;
export type HelixDBResponse = Awaited<ReturnType<HelixDB['query']>>;
export type HelixDBInput = Parameters<HelixDB['query']>[1];

"#;

/// The one operation of the client for a schema without queries.
pub const GENERIC_OPERATION: &'static str =
    "  query(endpoint: string, params: HelixDBInput): Promise<HelixDBResponse>;\n";

/// The one operation of the client that the factory makes for a schema without queries.
pub const GENERIC_BINDING: &'static str = r#"    async query(endpoint: string, params: HelixDBInput): Promise<HelixDBResponse> {
      return await client.query(endpoint, params);
    },
"#;

/// What stands in front of the operations of the client that the factory makes.
pub const FACTORY_HEAD: &'static str = r#"/**
 * Create a type-safe HelixDB client wrapper
 * Usage:
 *   const client = new HelixDB();
 *   const typedClient = createTypedClient(client);
 */
export function createTypedClient(client: HelixDB): TypedHelixDBClient {
  return {
"#;

/// What stands behind the operations of the client that the factory makes.
pub const FACTORY_TAIL: &'static str = "  };\n}\n\n";

/// What tells a value of an entity from other values: that it is an object with an
/// identifier. The properties of the entity are not looked at.
pub const GUARD_BODY: &'static str =
    "  return obj && typeof obj === 'object' && typeof obj.id === 'bigint';\n";

/// The function that takes the data out of a response.
pub const EXTRACT_HELPER: &'static str = r#"/**
 * Helper to extract data from HelixDB response with basic type assertion
 * Usage: const users = extractData<User[]>(response, 'users');
 */
export function extractData<T>(response: HelixDBResponse, key?: string): T {
  if (key) {
    return response[key] as T;
  }
  return response as T;
}

"#;

/// The name of the type `t` in the artifact.
pub open spec fn field_type_text(t: FieldTypeView) -> Seq<char>
    decreases t,
{
    match t {
        FieldTypeView::String => "string"@,
        FieldTypeView::Integer => "number"@,
        FieldTypeView::Float => "number"@,
        FieldTypeView::Boolean => "boolean"@,
        FieldTypeView::ID => "HelixID"@,
        FieldTypeView::Vector(dim) => "number["@ + decimal(dim) + "]"@,
        FieldTypeView::Array(inner) => field_type_text(*inner) + "[]"@,
        FieldTypeView::Optional(inner) => "Optional<"@ + field_type_text(*inner) + ">"@,
        FieldTypeView::Custom(name) => name,
    }
}

/// What each of `items` gives, one after the other.
pub open spec fn each<T>(items: Seq<T>, piece: spec_fn(T) -> Seq<char>) -> Seq<char>
    decreases items.len(),
{
    if items.len() == 0 {
        Seq::empty()
    } else {
        each(items.drop_last(), piece) + piece(items.last())
    }
}

/// The names of `entries`, in their order.
pub open spec fn names<T>(entries: Seq<(Seq<char>, T)>) -> Seq<Seq<char>> {
    entries.map_values(|e: (Seq<char>, T)| e.0)
}

/// The field that declares one property.
pub open spec fn property_line(property: (Seq<char>, FieldTypeView)) -> Seq<char> {
    "  "@ + property.0 + ": "@ + field_type_text(property.1) + ";\n"@
}

/// The fields that declare `properties`.
pub open spec fn property_lines(properties: PropertiesView) -> Seq<char> {
    each(properties, |property: (Seq<char>, FieldTypeView)| property_line(property))
}

/// The declaration of the type `alias` that is any of the types `names`; nothing if there
/// is none.
pub open spec fn union_text(alias: Seq<char>, names: Seq<Seq<char>>) -> Seq<char> {
    if names.len() == 0 {
        Seq::empty()
    } else {
        "export type "@ + alias + " = "@ + joined(names, " | "@) + ";\n\n"@
    }
}

/// The declaration of one node.
pub open spec fn node_text(node: (Seq<char>, NodeDefinitionView)) -> Seq<char> {
    "export interface "@ + node.0 + " extends BaseNode {\n"@ + property_lines(node.1.properties)
        + "}\n\n"@
}

/// The part of the artifact on the nodes: the declaration of each, then the type that is
/// any of them.
pub open spec fn node_types_text(nodes: Seq<(Seq<char>, NodeDefinitionView)>) -> Seq<char> {
    "// Node types\n"@ + each(nodes, |node: (Seq<char>, NodeDefinitionView)| node_text(node))
        + union_text("AnyNode"@, names(nodes))
}

/// The declaration of one vector.
pub open spec fn vector_text(vector: (Seq<char>, VectorDefinitionView)) -> Seq<char> {
    "export interface "@ + vector.0 + " extends BaseVector {\n"@ + property_lines(
        vector.1.properties,
    ) + "}\n\n"@
}

/// The part of the artifact on the vectors: the declaration of each, then the type that is
/// any of them.
pub open spec fn vector_types_text(vectors: Seq<(Seq<char>, VectorDefinitionView)>) -> Seq<
    char,
> {
    "// Vector types\n"@ + each(
        vectors,
        |vector: (Seq<char>, VectorDefinitionView)| vector_text(vector),
    ) + union_text("AnyVector"@, names(vectors))
}

/// The declaration of one edge: its two ends, which are there whatever its properties, then
/// its properties.
pub open spec fn edge_text(edge: (Seq<char>, EdgeDefinitionView)) -> Seq<char> {
    "export interface "@ + edge.0 + " extends BaseEdge {\n"@ + "  from: "@ + edge.1.from_node
        + ";\n"@ + "  to: "@ + edge.1.to_node + ";\n"@ + property_lines(edge.1.properties)
        + "}\n\n"@
}

/// The part of the artifact on the edges: the declaration of each, then the type that is
/// any of them.
pub open spec fn edge_types_text(edges: Seq<(Seq<char>, EdgeDefinitionView)>) -> Seq<char> {
    "// Edge types\n"@ + each(edges, |edge: (Seq<char>, EdgeDefinitionView)| edge_text(edge))
        + union_text("AnyEdge"@, names(edges))
}

/// The name of the type of the parameters of the query `name`.
pub open spec fn params_name(name: Seq<char>) -> Seq<char> {
    pascal_case(name) + "Params"@
}

/// The declaration of a type of parameters under the name `interface`.
pub open spec fn params_text(interface: Seq<char>, parameters: PropertiesView) -> Seq<char> {
    "export interface "@ + interface + " {\n"@ + property_lines(parameters) + "}\n\n"@
}

/// The declaration of the type of the parameters of one query.
pub open spec fn query_text(query: (Seq<char>, QueryDefinitionView)) -> Seq<char> {
    params_text(params_name(query.0), query.1.parameters)
}

/// The part of the artifact on the parameters of the queries. What a query returns is not
/// declared.
pub open spec fn query_types_text(queries: Seq<(Seq<char>, QueryDefinitionView)>) -> Seq<char> {
    "// Query parameter types\n"@
        + "// Note: Return types are not generated as they cannot be inferred from schema introspection\n\n"@
        + each(queries, |query: (Seq<char>, QueryDefinitionView)| query_text(query))
}

/// The comment that describes an operation, if it has a description.
pub open spec fn description_text(description: Option<Seq<char>>) -> Seq<char> {
    match description {
        Some(text) => "  /**\n   * "@ + text + "\n   */\n"@,
        None => Seq::empty(),
    }
}

/// The operation `name` of the client, which takes parameters of the type `param_type`.
pub open spec fn operation_text(
    name: Seq<char>,
    param_type: Seq<char>,
    description: Option<Seq<char>>,
) -> Seq<char> {
    description_text(description) + "  "@ + name + "(params: "@ + param_type
        + "): Promise<HelixDBResponse>;\n"@
}

/// The operation of the client for one query.
pub open spec fn query_operation_text(query: (Seq<char>, QueryDefinitionView)) -> Seq<char> {
    operation_text(query.0, params_name(query.0), query.1.description)
}

/// The operations of the client: one for each query, under the name of the query, or the
/// one generic operation if there is no query.
pub open spec fn operations_text(queries: Seq<(Seq<char>, QueryDefinitionView)>) -> Seq<char> {
    if queries.len() == 0 {
        GENERIC_OPERATION@
    } else {
        each(queries, |query: (Seq<char>, QueryDefinitionView)| query_operation_text(query))
    }
}

/// The remark that a schema without queries gets.
pub open spec fn no_queries_text(queries: Seq<(Seq<char>, QueryDefinitionView)>) -> Seq<char> {
    if queries.len() == 0 {
        "// No queries found in schema\n"@
    } else {
        Seq::empty()
    }
}

/// The part of the artifact that declares the client.
pub open spec fn client_interface_text(queries: Seq<(Seq<char>, QueryDefinitionView)>) -> Seq<
    char,
> {
    "// Client interface for type-safe HelixDB operations\n"@ + no_queries_text(queries)
        + "export interface TypedHelixDBClient {\n"@ + operations_text(queries) + "}\n\n"@
}

/// The operation `name` of the client that the factory makes: a call of the query of that
/// name.
pub open spec fn binding_text(name: Seq<char>) -> Seq<char> {
    "    async "@ + name + "(params) {\n"@ + "      return await client.query('"@ + name
        + "', params);\n"@ + "    },\n"@
}

/// The operations of the client that the factory makes: one for each query, or the one
/// generic operation if there is no query.
pub open spec fn bindings_text(queries: Seq<(Seq<char>, QueryDefinitionView)>) -> Seq<char> {
    if queries.len() == 0 {
        GENERIC_BINDING@
    } else {
        each(queries, |query: (Seq<char>, QueryDefinitionView)| binding_text(query.0))
    }
}

/// The name of the constant that holds the name of the query `name`.
pub open spec fn endpoint_key(name: Seq<char>) -> Seq<char> {
    uppercase_text(snake_case(name))
}

/// The constant `key` with the name of the query `name`.
pub open spec fn endpoint_text(key: Seq<char>, name: Seq<char>) -> Seq<char> {
    "  "@ + key + ": '"@ + name + "',\n"@
}

/// The constants that hold the names of the queries; nothing if there is no query.
pub open spec fn endpoints_text(queries: Seq<(Seq<char>, QueryDefinitionView)>) -> Seq<char> {
    if queries.len() == 0 {
        Seq::empty()
    } else {
        "// Query endpoint constants\n"@ + "export const QueryEndpoints = {\n"@ + each(
            queries,
            |query: (Seq<char>, QueryDefinitionView)| endpoint_text(endpoint_key(query.0), query.0),
        ) + "} as const;\n\n"@
    }
}

/// The function that tells whether a value is an entity of the type `name`.
pub open spec fn guard_text(name: Seq<char>) -> Seq<char> {
    "export function is"@ + name + "(obj: any): obj is "@ + name + " {\n"@ + GUARD_BODY@
        + "}\n\n"@
}

/// A guard for each of the types that `entries` name.
pub open spec fn guards_text<T>(entries: Seq<(Seq<char>, T)>) -> Seq<char> {
    each(entries, |e: (Seq<char>, T)| guard_text(e.0))
}

/// The part of the artifact that helps to use the client: the factory, the constants, a
/// guard for each node and each vector, and the function that takes the data out of a
/// response.
pub open spec fn sdk_helpers_text(schema: HelixSchemaView) -> Seq<char> {
    "// SDK Integration Helpers\n"@ + FACTORY_HEAD@ + bindings_text(schema.queries)
        + FACTORY_TAIL@ + endpoints_text(schema.queries)
        + "// Type guards and validation helpers\n"@ + guards_text(schema.nodes) + guards_text(
        schema.vectors,
    ) + EXTRACT_HELPER@
}

/// The artifact for `schema`.
pub open spec fn artifact(schema: HelixSchemaView) -> Seq<char> {
    HEADER@ + UTILITY_TYPES@ + HELIX_TYPES@ + node_types_text(schema.nodes) + vector_types_text(
        schema.vectors,
    ) + edge_types_text(schema.edges) + query_types_text(schema.queries) + client_interface_text(
        schema.queries,
    ) + sdk_helpers_text(schema)
}

/// What each of `items` gives, one after the other, is the list of what they give, made
/// flat: there is one piece for each item, in the order of the items, and nothing else.
pub proof fn lemma_each_flattens<T>(items: Seq<T>, piece: spec_fn(T) -> Seq<char>)
    ensures
        each(items, piece) == items.map_values(piece).flatten(),
    decreases items.len(),
{
    if items.len() == 0 {
        assert(items.map_values(piece) =~= Seq::<Seq<char>>::empty());
    } else {
        lemma_each_flattens(items.drop_last(), piece);
        assert(items.map_values(piece) =~= items.drop_last().map_values(piece).push(
            piece(items.last()),
        ));
        items.drop_last().map_values(piece).lemma_flatten_push(piece(items.last()));
    }
}

/// The operations of the client for `queries`, as a list.
pub open spec fn operations(queries: Seq<(Seq<char>, QueryDefinitionView)>) -> Seq<Seq<char>> {
    queries.map_values(|query: (Seq<char>, QueryDefinitionView)| query_operation_text(query))
}

/// The client for a schema without queries has the one generic operation. The client for a
/// schema with queries has one operation for each query, under the name of that query, and
/// no other.
pub proof fn lemma_client_operations(queries: Seq<(Seq<char>, QueryDefinitionView)>)
    ensures
        queries.len() == 0 ==> client_interface_text(queries)
            == "// Client interface for type-safe HelixDB operations\n"@
            + "// No queries found in schema\n"@ + "export interface TypedHelixDBClient {\n"@
            + GENERIC_OPERATION@ + "}\n\n"@,
        queries.len() > 0 ==> client_interface_text(queries)
            == "// Client interface for type-safe HelixDB operations\n"@
            + "export interface TypedHelixDBClient {\n"@ + operations(queries).flatten()
            + "}\n\n"@,
        operations(queries).len() == queries.len(),
        forall|i: int|
            0 <= i < queries.len() ==> (#[trigger] operations(queries)[i]) == description_text(
                queries[i].1.description,
            ) + "  "@ + queries[i].0 + "(params: "@ + (pascal_case(queries[i].0) + "Params"@)
                + "): Promise<HelixDBResponse>;\n"@,
{
    lemma_each_flattens(
        queries,
        |query: (Seq<char>, QueryDefinitionView)| query_operation_text(query),
    );
    if queries.len() > 0 {
        let head = "// Client interface for type-safe HelixDB operations\n"@;
    }
}

/// Strictly ordered entries name each of their names once.
pub proof fn lemma_names_once<T>(entries: Seq<(Seq<char>, T)>)
    requires
        strictly_ordered(entries),
    ensures
        names(entries).len() == entries.len(),
        forall|i: int| 0 <= i < entries.len() ==> (#[trigger] names(entries)[i]) == entries[i].0,
        names(entries).no_duplicates(),
{
    assert forall|i: int, j: int|
        0 <= i < entries.len() && 0 <= j < entries.len() && i != j implies names(entries)[i]
        != names(entries)[j] by {
        lemma_precedes_irreflexive(entries[i].0);
        if i < j {
            assert(precedes(entries[i].0, entries[j].0));
        } else {
            assert(precedes(entries[j].0, entries[i].0));
        }
    }
}

/// For a schema without nodes no type of any node is declared. For a schema with nodes the
/// type of any node is declared after the nodes, and it lists the name of every node once.
pub proof fn lemma_node_union(nodes: Seq<(Seq<char>, NodeDefinitionView)>)
    requires
        strictly_ordered(nodes),
    ensures
        nodes.len() == 0 ==> node_types_text(nodes) == "// Node types\n"@,
        nodes.len() > 0 ==> node_types_text(nodes) == "// Node types\n"@ + each(
            nodes,
            |node: (Seq<char>, NodeDefinitionView)| node_text(node),
        ) + ("export type "@ + "AnyNode"@ + " = "@ + joined(names(nodes), " | "@) + ";\n\n"@),
        names(nodes).len() == nodes.len(),
        forall|i: int| 0 <= i < nodes.len() ==> (#[trigger] names(nodes)[i]) == nodes[i].0,
        names(nodes).no_duplicates(),
{
    lemma_names_once(nodes);
    if nodes.len() == 0 {
        assert(node_types_text(nodes) =~= "// Node types\n"@);
    }
}

/// The artifact depends on the mappings of the schema only: two schemas in which every
/// kind maps the same names to the same definitions have the same artifact.
pub proof fn lemma_artifact_of_mappings(a: HelixSchemaView, b: HelixSchemaView)
    requires
        well_formed(a),
        well_formed(b),
        as_map(a.nodes) == as_map(b.nodes),
        as_map(a.vectors) == as_map(b.vectors),
        as_map(a.queries) == as_map(b.queries),
        as_map(a.edges) == as_map(b.edges),
    ensures
        artifact(a) == artifact(b),
{
    lemma_ordered_unique(a.nodes, b.nodes);
    lemma_ordered_unique(a.vectors, b.vectors);
    lemma_ordered_unique(a.queries, b.queries);
    lemma_ordered_unique(a.edges, b.edges);
}

} // verus!
