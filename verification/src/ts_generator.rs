//! The generator, which writes the artifact for a schema.

use crate::artifact::{
    artifact, binding_text, bindings_text, client_interface_text, description_text, each,
    edge_text, edge_types_text, endpoint_key, endpoint_text, endpoints_text, field_type_text,
    guard_text, guards_text, names, no_queries_text, node_text, node_types_text,
    operation_text, operations_text, params_text, property_line, property_lines,
    query_operation_text, query_text, query_types_text, sdk_helpers_text, union_text,
    vector_text, vector_types_text, EXTRACT_HELPER, FACTORY_HEAD, FACTORY_TAIL,
    GENERIC_BINDING, GENERIC_OPERATION, GUARD_BODY, HEADER, HELIX_TYPES, UTILITY_TYPES,
};
use crate::ordered_map::OrderedMap;
use crate::schema::{
    well_formed, EdgeDefinition, EdgeDefinitionView, FieldType, FieldTypeView, HelixSchema,
    HelixSchemaView, NodeDefinition, NodeDefinitionView, PropertyMap, QueryDefinitionView,
    VectorDefinition, VectorDefinitionView,
};
use crate::text::{joined, push_decimal};
use crate::utils::{to_pascal_case, to_snake_case};
use vstd::prelude::*;
use vstd::string::StringExecFns;

verus! {

/// The name of the type `field_type` in the artifact.
pub fn field_type_to_typescript(field_type: &FieldType) -> (r: String)
    ensures
        r@ == field_type_text(field_type@),
    decreases field_type,
{
    match field_type {
        FieldType::String => String::from_str("string"),
        FieldType::Integer => String::from_str("number"),
        FieldType::Float => String::from_str("number"),
        FieldType::Boolean => String::from_str("boolean"),
        FieldType::ID => String::from_str("HelixID"),
        FieldType::Vector(dim) => {
            let mut r = String::from_str("number[");
            push_decimal(&mut r, *dim);
            r.append("]");
            r
        },
        FieldType::Array(inner) => {
            let mut r = field_type_to_typescript(inner);
            r.append("[]");
            r
        },
        FieldType::Optional(inner) => {
            let mut r = String::from_str("Optional<");
            let element = field_type_to_typescript(inner);
            r.append(element.as_str());
            r.append(">");
            r
        },
        FieldType::Custom(name) => name.clone(),
    }
}

/// The field that declares the property `name` of the type `field_type`.
pub fn property_declaration(name: &str, field_type: &FieldType) -> (r: String)
    ensures
        r@ == property_line((name@, field_type@)),
{
    let ts_type = field_type_to_typescript(field_type);
    let mut r = String::from_str("  ");
    r.append(name);
    r.append(": ");
    r.append(ts_type.as_str());
    r.append(";\n");
    r
}

/// The fields that declare `properties`.
pub fn properties_declaration(properties: &PropertyMap) -> (r: String)
    ensures
        r@ == property_lines(properties@),
{
    let ghost piece = |property: (Seq<char>, FieldTypeView)| property_line(property);
    let mut r = String::new();
    let n = properties.len();
    let mut i: usize = 0;
    while i < n
        invariant
            i <= n == properties@.len(),
            piece == |property: (Seq<char>, FieldTypeView)| property_line(property),
            r@ == each(properties@.take(i as int), piece),
        decreases n - i,
    {
        let (name, field_type) = properties.entry(i);
        proof {
            assert(properties@.take(i + 1).drop_last() =~= properties@.take(i as int));
        }
        let line = property_declaration(name.as_str(), field_type);
        r.append(line.as_str());
        i = i + 1;
    }
    assert(properties@.take(i as int) =~= properties@);
    r
}

/// The names of `entries` with `separator` between each two of them.
pub fn joined_names<V: View>(entries: &OrderedMap<V>, separator: &str) -> (r: String)
    ensures
        r@ == joined(names(entries@), separator@),
{
    let mut r = String::new();
    let n = entries.len();
    let mut k: usize = 0;
    while k < n
        invariant
            k <= n == entries@.len(),
            r@ == joined(names(entries@).take(k as int), separator@),
        decreases n - k,
    {
        let (name, _) = entries.entry(k);
        proof {
            assert(names(entries@).take(k + 1).drop_last() =~= names(entries@).take(k as int));
        }
        if k > 0 {
            r.append(separator);
        }
        r.append(name.as_str());
        k = k + 1;
    }
    assert(names(entries@).take(k as int) =~= names(entries@));
    r
}

/// The declaration of the type `alias` that is any of the types that `entries` name;
/// nothing if there is no entry.
pub fn union_declaration<V: View>(alias: &str, entries: &OrderedMap<V>) -> (r: String)
    ensures
        r@ == union_text(alias@, names(entries@)),
{
    if entries.is_empty() {
        String::new()
    } else {
        let list = joined_names(entries, " | ");
        let mut r = String::from_str("export type ");
        r.append(alias);
        r.append(" = ");
        r.append(list.as_str());
        r.append(";\n\n");
        r
    }
}

/// The declaration of the node `node` under the name `name`.
pub fn node_declaration(name: &str, node: &NodeDefinition) -> (r: String)
    ensures
        r@ == node_text((name@, node@)),
{
    let fields = properties_declaration(&node.properties);
    let mut r = String::from_str("export interface ");
    r.append(name);
    r.append(" extends BaseNode {\n");
    r.append(fields.as_str());
    r.append("}\n\n");
    r
}

/// The declaration of the vector `vector` under the name `name`.
pub fn vector_declaration(name: &str, vector: &VectorDefinition) -> (r: String)
    ensures
        r@ == vector_text((name@, vector@)),
{
    let fields = properties_declaration(&vector.properties);
    let mut r = String::from_str("export interface ");
    r.append(name);
    r.append(" extends BaseVector {\n");
    r.append(fields.as_str());
    r.append("}\n\n");
    r
}

/// The declaration of the edge `edge` under the name `name`.
pub fn edge_declaration(name: &str, edge: &EdgeDefinition) -> (r: String)
    ensures
        r@ == edge_text((name@, edge@)),
{
    let fields = properties_declaration(&edge.properties);
    let mut r = String::from_str("export interface ");
    r.append(name);
    r.append(" extends BaseEdge {\n");
    r.append("  from: ");
    r.append(edge.from_node.as_str());
    r.append(";\n");
    r.append("  to: ");
    r.append(edge.to_node.as_str());
    r.append(";\n");
    r.append(fields.as_str());
    r.append("}\n\n");
    r
}

/// The name of the type of the parameters of a query, from the capitalized name of the
/// query.
pub fn params_type(capitalized: &str) -> (r: String)
    ensures
        r@ == capitalized@ + "Params"@,
{
    let mut r = String::from_str(capitalized);
    r.append("Params");
    r
}

/// The declaration of a type of parameters under the name `interface`.
pub fn params_declaration(interface: &str, parameters: &PropertyMap) -> (r: String)
    ensures
        r@ == params_text(interface@, parameters@),
{
    let fields = properties_declaration(parameters);
    let mut r = String::from_str("export interface ");
    r.append(interface);
    r.append(" {\n");
    r.append(fields.as_str());
    r.append("}\n\n");
    r
}

/// What an optional text stands for.
pub open spec fn optional_text(text: Option<String>) -> Option<Seq<char>> {
    match text {
        Some(t) => Some(t@),
        None => None,
    }
}

/// The operation `name` of the client, which takes parameters of the type `param_type`.
pub fn operation(name: &str, param_type: &str, description: &Option<String>) -> (r: String)
    ensures
        r@ == operation_text(name@, param_type@, optional_text(*description)),
{
    let mut r = String::new();
    match description {
        Some(text) => {
            r.append("  /**\n   * ");
            r.append(text.as_str());
            r.append("\n   */\n");
        },
        None => {},
    }
    r.append("  ");
    r.append(name);
    r.append("(params: ");
    r.append(param_type);
    r.append("): Promise<HelixDBResponse>;\n");
    r
}

/// The operation `name` of the client that the factory makes.
pub fn binding(name: &str) -> (r: String)
    ensures
        r@ == binding_text(name@),
{
    let mut r = String::from_str("    async ");
    r.append(name);
    r.append("(params) {\n");
    r.append("      return await client.query('");
    r.append(name);
    r.append("', params);\n");
    r.append("    },\n");
    r
}

/// The constant `key` with the name of the query `name`.
pub fn endpoint_constant(key: &str, name: &str) -> (r: String)
    ensures
        r@ == endpoint_text(key@, name@),
{
    let mut r = String::from_str("  ");
    r.append(key);
    r.append(": '");
    r.append(name);
    r.append("',\n");
    r
}

/// The function that tells whether a value is an entity of the type `name`.
pub fn guard(name: &str) -> (r: String)
    ensures
        r@ == guard_text(name@),
{
    let mut r = String::from_str("export function is");
    r.append(name);
    r.append("(obj: any): obj is ");
    r.append(name);
    r.append(" {\n");
    r.append(GUARD_BODY);
    r.append("}\n\n");
    r
}

/// A guard for each of the types that `entries` name.
pub fn guards<V: View>(entries: &OrderedMap<V>) -> (r: String)
    ensures
        r@ == guards_text(entries@),
{
    let ghost piece = |e: (Seq<char>, V::V)| guard_text(e.0);
    let mut r = String::new();
    let n = entries.len();
    let mut i: usize = 0;
    while i < n
        invariant
            i <= n == entries@.len(),
            piece == |e: (Seq<char>, V::V)| guard_text(e.0),
            r@ == each(entries@.take(i as int), piece),
        decreases n - i,
    {
        let (name, _) = entries.entry(i);
        proof {
            assert(entries@.take(i + 1).drop_last() =~= entries@.take(i as int));
        }
        let one = guard(name.as_str());
        r.append(one.as_str());
        i = i + 1;
    }
    assert(entries@.take(i as int) =~= entries@);
    r
}

/// Writes the artifact for a schema.
pub struct TypeScriptGenerator {
    schema: HelixSchema,
}

impl View for TypeScriptGenerator {
    type V = HelixSchemaView;

    closed spec fn view(&self) -> HelixSchemaView {
        self.schema@
    }
}

impl TypeScriptGenerator {
    /// A generator for `schema`.
    pub fn new(schema: HelixSchema) -> (generator: Self)
        ensures
            generator@ == schema@,
            well_formed(generator@),
    {
        let _ = schema.nodes.len();
        let _ = schema.vectors.len();
        let _ = schema.queries.len();
        let _ = schema.edges.len();
        TypeScriptGenerator { schema }
    }

    /// The artifact for the schema: the same text at every call.
    pub fn generate(&self) -> (output: String)
        ensures
            output@ == artifact(self@),
    {
        let mut output = String::from_str(HEADER);
        output.append(self.generate_utility_types().as_str());
        output.append(self.generate_helix_types().as_str());
        output.append(self.generate_node_types().as_str());
        output.append(self.generate_vector_types().as_str());
        output.append(self.generate_edge_types().as_str());
        output.append(self.generate_query_types().as_str());
        output.append(self.generate_client_interface().as_str());
        output.append(self.generate_sdk_helpers().as_str());
        output
    }

    /// The types of the client.
    pub fn generate_helix_types(&self) -> (output: String)
        ensures
            output@ == HELIX_TYPES@,
    {
        String::from_str(HELIX_TYPES)
    }

    /// The types that every artifact declares.
    pub fn generate_utility_types(&self) -> (output: String)
        ensures
            output@ == UTILITY_TYPES@,
    {
        String::from_str(UTILITY_TYPES)
    }

    /// The part of the artifact on the nodes.
    pub fn generate_node_types(&self) -> (output: String)
        ensures
            output@ == node_types_text(self@.nodes),
    {
        let ghost nodes = self@.nodes;
        let ghost piece = |node: (Seq<char>, NodeDefinitionView)| node_text(node);
        let mut declarations = String::new();
        let n = self.schema.nodes.len();
        let mut i: usize = 0;
        while i < n
            invariant
                i <= n == nodes.len(),
                nodes == self.schema.nodes@,
                piece == |node: (Seq<char>, NodeDefinitionView)| node_text(node),
                declarations@ == each(nodes.take(i as int), piece),
            decreases n - i,
        {
            let (name, node) = self.schema.nodes.entry(i);
            proof {
                assert(nodes.take(i + 1).drop_last() =~= nodes.take(i as int));
            }
            let declaration = node_declaration(name.as_str(), node);
            declarations.append(declaration.as_str());
            i = i + 1;
        }
        assert(nodes.take(i as int) =~= nodes);
        let any = union_declaration("AnyNode", &self.schema.nodes);
        let mut output = String::from_str("// Node types\n");
        output.append(declarations.as_str());
        output.append(any.as_str());
        output
    }

    /// The part of the artifact on the vectors.
    pub fn generate_vector_types(&self) -> (output: String)
        ensures
            output@ == vector_types_text(self@.vectors),
    {
        let ghost vectors = self@.vectors;
        let ghost piece = |vector: (Seq<char>, VectorDefinitionView)| vector_text(vector);
        let mut declarations = String::new();
        let n = self.schema.vectors.len();
        let mut i: usize = 0;
        while i < n
            invariant
                i <= n == vectors.len(),
                vectors == self.schema.vectors@,
                piece == |vector: (Seq<char>, VectorDefinitionView)| vector_text(vector),
                declarations@ == each(vectors.take(i as int), piece),
            decreases n - i,
        {
            let (name, vector) = self.schema.vectors.entry(i);
            proof {
                assert(vectors.take(i + 1).drop_last() =~= vectors.take(i as int));
            }
            let declaration = vector_declaration(name.as_str(), vector);
            declarations.append(declaration.as_str());
            i = i + 1;
        }
        assert(vectors.take(i as int) =~= vectors);
        let any = union_declaration("AnyVector", &self.schema.vectors);
        let mut output = String::from_str("// Vector types\n");
        output.append(declarations.as_str());
        output.append(any.as_str());
        output
    }

    /// The part of the artifact on the edges.
    pub fn generate_edge_types(&self) -> (output: String)
        ensures
            output@ == edge_types_text(self@.edges),
    {
        let ghost edges = self@.edges;
        let ghost piece = |edge: (Seq<char>, EdgeDefinitionView)| edge_text(edge);
        let mut declarations = String::new();
        let n = self.schema.edges.len();
        let mut i: usize = 0;
        while i < n
            invariant
                i <= n == edges.len(),
                edges == self.schema.edges@,
                piece == |edge: (Seq<char>, EdgeDefinitionView)| edge_text(edge),
                declarations@ == each(edges.take(i as int), piece),
            decreases n - i,
        {
            let (name, edge) = self.schema.edges.entry(i);
            proof {
                assert(edges.take(i + 1).drop_last() =~= edges.take(i as int));
            }
            let declaration = edge_declaration(name.as_str(), edge);
            declarations.append(declaration.as_str());
            i = i + 1;
        }
        assert(edges.take(i as int) =~= edges);
        let any = union_declaration("AnyEdge", &self.schema.edges);
        let mut output = String::from_str("// Edge types\n");
        output.append(declarations.as_str());
        output.append(any.as_str());
        output
    }

    /// The part of the artifact on the parameters of the queries.
    pub fn generate_query_types(&self) -> (output: String)
        ensures
            output@ == query_types_text(self@.queries),
    {
        let ghost queries = self@.queries;
        let ghost piece = |query: (Seq<char>, QueryDefinitionView)| query_text(query);
        let mut declarations = String::new();
        let n = self.schema.queries.len();
        let mut i: usize = 0;
        while i < n
            invariant
                i <= n == queries.len(),
                queries == self.schema.queries@,
                piece == |query: (Seq<char>, QueryDefinitionView)| query_text(query),
                declarations@ == each(queries.take(i as int), piece),
            decreases n - i,
        {
            let (name, query) = self.schema.queries.entry(i);
            proof {
                assert(queries.take(i + 1).drop_last() =~= queries.take(i as int));
            }
            let capitalized = to_pascal_case(name.as_str());
            let param_type = params_type(capitalized.as_str());
            let declaration = params_declaration(param_type.as_str(), &query.parameters);
            declarations.append(declaration.as_str());
            i = i + 1;
        }
        assert(queries.take(i as int) =~= queries);
        let mut output = String::from_str("// Query parameter types\n");
        output.append(
            "// Note: Return types are not generated as they cannot be inferred from schema introspection\n\n",
        );
        output.append(declarations.as_str());
        output
    }

    /// The operations of the client.
    pub fn generate_operations(&self) -> (output: String)
        ensures
            output@ == operations_text(self@.queries),
    {
        let ghost queries = self@.queries;
        let ghost piece = |query: (Seq<char>, QueryDefinitionView)| query_operation_text(query);
        let n = self.schema.queries.len();
        if n == 0 {
            return String::from_str(GENERIC_OPERATION);
        }
        let mut output = String::new();
        let mut i: usize = 0;
        while i < n
            invariant
                i <= n == queries.len(),
                queries == self.schema.queries@,
                piece == |query: (Seq<char>, QueryDefinitionView)| query_operation_text(query),
                output@ == each(queries.take(i as int), piece),
            decreases n - i,
        {
            let (name, query) = self.schema.queries.entry(i);
            proof {
                assert(queries.take(i + 1).drop_last() =~= queries.take(i as int));
            }
            let capitalized = to_pascal_case(name.as_str());
            let param_type = params_type(capitalized.as_str());
            let line = operation(name.as_str(), param_type.as_str(), &query.description);
            output.append(line.as_str());
            i = i + 1;
        }
        assert(queries.take(i as int) =~= queries);
        output
    }

    /// The part of the artifact that declares the client.
    pub fn generate_client_interface(&self) -> (output: String)
        ensures
            output@ == client_interface_text(self@.queries),
    {
        let operations = self.generate_operations();
        let mut output = String::from_str("// Client interface for type-safe HelixDB operations\n");
        if self.schema.queries.is_empty() {
            output.append("// No queries found in schema\n");
        } else {
            assert(output@ =~= output@ + no_queries_text(self@.queries));
        }
        output.append("export interface TypedHelixDBClient {\n");
        output.append(operations.as_str());
        output.append("}\n\n");
        output
    }

    /// The operations of the client that the factory makes.
    pub fn generate_bindings(&self) -> (output: String)
        ensures
            output@ == bindings_text(self@.queries),
    {
        let ghost queries = self@.queries;
        let ghost piece = |query: (Seq<char>, QueryDefinitionView)| binding_text(query.0);
        let n = self.schema.queries.len();
        if n == 0 {
            return String::from_str(GENERIC_BINDING);
        }
        let mut output = String::new();
        let mut i: usize = 0;
        while i < n
            invariant
                i <= n == queries.len(),
                queries == self.schema.queries@,
                piece == |query: (Seq<char>, QueryDefinitionView)| binding_text(query.0),
                output@ == each(queries.take(i as int), piece),
            decreases n - i,
        {
            let (name, _) = self.schema.queries.entry(i);
            proof {
                assert(queries.take(i + 1).drop_last() =~= queries.take(i as int));
            }
            let one = binding(name.as_str());
            output.append(one.as_str());
            i = i + 1;
        }
        assert(queries.take(i as int) =~= queries);
        output
    }

    /// The constants that hold the names of the queries.
    pub fn generate_endpoints(&self) -> (output: String)
        ensures
            output@ == endpoints_text(self@.queries),
    {
        let ghost queries = self@.queries;
        let ghost piece = |query: (Seq<char>, QueryDefinitionView)|
            endpoint_text(endpoint_key(query.0), query.0);
        let n = self.schema.queries.len();
        if n == 0 {
            return String::new();
        }
        let mut constants = String::new();
        let mut i: usize = 0;
        while i < n
            invariant
                i <= n == queries.len(),
                queries == self.schema.queries@,
                piece == |query: (Seq<char>, QueryDefinitionView)|
                    endpoint_text(endpoint_key(query.0), query.0),
                constants@ == each(queries.take(i as int), piece),
            decreases n - i,
        {
            let (name, _) = self.schema.queries.entry(i);
            proof {
                assert(queries.take(i + 1).drop_last() =~= queries.take(i as int));
            }
            let key = to_snake_case(name.as_str()).as_str().to_uppercase();
            let one = endpoint_constant(key.as_str(), name.as_str());
            constants.append(one.as_str());
            i = i + 1;
        }
        assert(queries.take(i as int) =~= queries);
        let mut output = String::from_str("// Query endpoint constants\n");
        output.append("export const QueryEndpoints = {\n");
        output.append(constants.as_str());
        output.append("} as const;\n\n");
        output
    }

    /// The part of the artifact that helps to use the client.
    pub fn generate_sdk_helpers(&self) -> (output: String)
        ensures
            output@ == sdk_helpers_text(self@),
    {
        let bindings = self.generate_bindings();
        let endpoints = self.generate_endpoints();
        let node_guards = guards(&self.schema.nodes);
        let vector_guards = guards(&self.schema.vectors);
        let mut output = String::from_str("// SDK Integration Helpers\n");
        output.append(FACTORY_HEAD);
        output.append(bindings.as_str());
        output.append(FACTORY_TAIL);
        output.append(endpoints.as_str());
        output.append("// Type guards and validation helpers\n");
        output.append(node_guards.as_str());
        output.append(vector_guards.as_str());
        output.append(EXTRACT_HELPER);
        output
    }
}

} // verus!
