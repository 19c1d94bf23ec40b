use helix_ts_gen::introspector::build_schema;
use helix_ts_gen::ts_generator::{
    binding, endpoint_constant, field_type_to_typescript, guard, operation, params_declaration,
    params_type, property_declaration, union_declaration,
};
use helix_ts_gen::{
    EdgeDefinition, EdgeInfo, FieldType, HelixSchema, IntrospectionResponse, NodeDefinition,
    NodeInfo, OrderedMap, PropertyMap, QueryDefinition, QueryInfo, SchemaData,
    TypeScriptGenerator, VectorDefinition,
};

const HEAD: &str = "// Generated TypeScript types for HelixDB schema
// This file is auto-generated. Do not edit manually.
// Generated with helix-ts-gen from introspection endpoint

import HelixDB from 'helix-ts';

// Utility types
export type Vector = number[];
export type Optional<T> = T | null | undefined;
export type HelixID = bigint;

export interface BaseNode {
  id: HelixID;
  created_at?: number;
  updated_at?: number;
}

export interface BaseVector {
  id: HelixID;
}

export interface BaseEdge {
  id?: HelixID;
  created_at?: number;
}

// HelixDB types (extracted from runtime since not exported)
export type HelixDBClient = HelixDB;
export type HelixDBResponse = Awaited<ReturnType<HelixDB['query']>>;
export type HelixDBInput = Parameters<HelixDB['query']>[1];

";

const QUERY_TYPES_HEAD: &str = "// Query parameter types
// Note: Return types are not generated as they cannot be inferred from schema introspection

";

const FACTORY_HEAD: &str = "// SDK Integration Helpers
/**
 * Create a type-safe HelixDB client wrapper
 * Usage:
 *   const client = new HelixDB();
 *   const typedClient = createTypedClient(client);
 */
export function createTypedClient(client: HelixDB): TypedHelixDBClient {
  return {
";

const EXTRACT: &str = "/**
 * Helper to extract data from HelixDB response with basic type assertion
 * Usage: const users = extractData<User[]>(response, 'users');
 */
export function extractData<T>(response: HelixDBResponse, key?: string): T {
  if (key) {
    return response[key] as T;
  }
  return response as T;
}

";

fn properties(pairs: Vec<(&str, FieldType)>) -> PropertyMap {
    let mut map = OrderedMap::new();
    for (name, field_type) in pairs {
        map.insert(name.to_string(), field_type);
    }
    map
}

fn empty_schema() -> HelixSchema {
    HelixSchema {
        nodes: OrderedMap::new(),
        vectors: OrderedMap::new(),
        queries: OrderedMap::new(),
        edges: OrderedMap::new(),
    }
}

fn node(name: &str, pairs: Vec<(&str, FieldType)>) -> NodeDefinition {
    NodeDefinition { name: name.to_string(), properties: properties(pairs) }
}

fn query(name: &str, pairs: Vec<(&str, FieldType)>) -> QueryDefinition {
    QueryDefinition {
        name: name.to_string(),
        parameters: properties(pairs),
        returns: "x".to_string(),
        description: None,
    }
}

fn count(text: &str, part: &str) -> usize {
    text.matches(part).count()
}

#[test]
fn every_field_type_has_its_name() {
    assert_eq!(field_type_to_typescript(&FieldType::String), "string");
    assert_eq!(field_type_to_typescript(&FieldType::Integer), "number");
    assert_eq!(field_type_to_typescript(&FieldType::Float), "number");
    assert_eq!(field_type_to_typescript(&FieldType::Boolean), "boolean");
    assert_eq!(field_type_to_typescript(&FieldType::ID), "HelixID");
    assert_eq!(field_type_to_typescript(&FieldType::Custom("User".to_string())), "User");
    assert_eq!(field_type_to_typescript(&FieldType::Custom("".to_string())), "");
}

#[test]
fn a_vector_is_named_with_its_dimension() {
    assert_eq!(field_type_to_typescript(&FieldType::Vector(0)), "number[0]");
    assert_eq!(field_type_to_typescript(&FieldType::Vector(7)), "number[7]");
    assert_eq!(field_type_to_typescript(&FieldType::Vector(10)), "number[10]");
    assert_eq!(field_type_to_typescript(&FieldType::Vector(1536)), "number[1536]");
    assert_eq!(
        field_type_to_typescript(&FieldType::Vector(usize::MAX)),
        format!("number[{}]", usize::MAX)
    );
}

#[test]
fn arrays_and_optionals_wrap_the_name_of_their_inside() {
    let strings = FieldType::Array(Box::new(FieldType::String));
    assert_eq!(field_type_to_typescript(&strings), "string[]");
    let nested = FieldType::Array(Box::new(FieldType::Array(Box::new(FieldType::ID))));
    assert_eq!(field_type_to_typescript(&nested), "HelixID[][]");
    let optional = FieldType::Optional(Box::new(strings));
    assert_eq!(field_type_to_typescript(&optional), "Optional<string[]>");
    let vectors = FieldType::Array(Box::new(FieldType::Optional(Box::new(FieldType::Vector(3)))));
    assert_eq!(field_type_to_typescript(&vectors), "Optional<number[3]>[]");
}

#[test]
fn the_pieces_of_the_artifact_have_their_texts() {
    assert_eq!(property_declaration("age", &FieldType::Integer), "  age: number;\n");
    assert_eq!(params_type("GetUser"), "GetUserParams");
    assert_eq!(
        params_declaration("GetUserParams", &properties(vec![("user_id", FieldType::ID)])),
        "export interface GetUserParams {\n  user_id: HelixID;\n}\n\n"
    );
    assert_eq!(
        operation("GetUser", "GetUserParams", &None),
        "  GetUser(params: GetUserParams): Promise<HelixDBResponse>;\n"
    );
    assert_eq!(
        operation("GetUser", "P", &Some("Finds a user".to_string())),
        "  /**\n   * Finds a user\n   */\n  GetUser(params: P): Promise<HelixDBResponse>;\n"
    );
    assert_eq!(
        binding("GetUser"),
        "    async GetUser(params) {\n      return await client.query('GetUser', params);\n    },\n"
    );
    assert_eq!(endpoint_constant("GET_USER", "GetUser"), "  GET_USER: 'GetUser',\n");
    assert_eq!(
        guard("User"),
        "export function isUser(obj: any): obj is User {\n  return obj && typeof obj === 'object' && typeof obj.id === 'bigint';\n}\n\n"
    );
}

#[test]
fn the_union_lists_the_names_in_their_order() {
    let mut map: OrderedMap<String> = OrderedMap::new();
    assert_eq!(union_declaration("Any", &map), "");
    map.insert("B".to_string(), "".to_string());
    assert_eq!(union_declaration("Any", &map), "export type Any = B;\n\n");
    map.insert("A".to_string(), "".to_string());
    map.insert("C".to_string(), "".to_string());
    assert_eq!(union_declaration("Any", &map), "export type Any = A | B | C;\n\n");
}

#[test]
fn the_artifact_for_an_empty_schema() {
    let generator = TypeScriptGenerator::new(empty_schema());
    let mut expected = String::new();
    expected.push_str(HEAD);
    expected.push_str("// Node types\n");
    expected.push_str("// Vector types\n");
    expected.push_str("// Edge types\n");
    expected.push_str(QUERY_TYPES_HEAD);
    expected.push_str("// Client interface for type-safe HelixDB operations\n");
    expected.push_str("// No queries found in schema\n");
    expected.push_str("export interface TypedHelixDBClient {\n");
    expected.push_str("  query(endpoint: string, params: HelixDBInput): Promise<HelixDBResponse>;\n");
    expected.push_str("}\n\n");
    expected.push_str(FACTORY_HEAD);
    expected.push_str("    async query(endpoint: string, params: HelixDBInput): Promise<HelixDBResponse> {\n");
    expected.push_str("      return await client.query(endpoint, params);\n");
    expected.push_str("    },\n");
    expected.push_str("  };\n");
    expected.push_str("}\n\n");
    expected.push_str("// Type guards and validation helpers\n");
    expected.push_str(EXTRACT);
    assert_eq!(generator.generate(), expected);
}

#[test]
fn the_artifact_for_a_schema_of_every_kind() {
    let mut schema = empty_schema();
    schema.nodes.insert(
        "User".to_string(),
        node("User", vec![("name", FieldType::String), ("age", FieldType::Integer)]),
    );
    schema.nodes.insert("Post".to_string(), node("Post", vec![]));
    schema.vectors.insert(
        "Embedding".to_string(),
        VectorDefinition {
            name: "Embedding".to_string(),
            properties: properties(vec![("values", FieldType::Vector(3))]),
        },
    );
    schema.edges.insert(
        "Wrote".to_string(),
        EdgeDefinition {
            name: "Wrote".to_string(),
            from_node: "User".to_string(),
            to_node: "Post".to_string(),
            properties: properties(vec![("since", FieldType::Integer)]),
        },
    );
    schema.queries.insert(
        "get_user".to_string(),
        QueryDefinition {
            name: "get_user".to_string(),
            parameters: properties(vec![("user_id", FieldType::ID)]),
            returns: "user".to_string(),
            description: Some("Finds a user".to_string()),
        },
    );
    schema.queries.insert(
        "addPost".to_string(),
        query("addPost", vec![("tags", FieldType::Array(Box::new(FieldType::String)))]),
    );

    let mut expected = String::new();
    expected.push_str(HEAD);
    expected.push_str("// Node types\n");
    expected.push_str("export interface Post extends BaseNode {\n}\n\n");
    expected.push_str("export interface User extends BaseNode {\n  age: number;\n  name: string;\n}\n\n");
    expected.push_str("export type AnyNode = Post | User;\n\n");
    expected.push_str("// Vector types\n");
    expected.push_str("export interface Embedding extends BaseVector {\n  values: number[3];\n}\n\n");
    expected.push_str("export type AnyVector = Embedding;\n\n");
    expected.push_str("// Edge types\n");
    expected.push_str("export interface Wrote extends BaseEdge {\n  from: User;\n  to: Post;\n  since: number;\n}\n\n");
    expected.push_str("export type AnyEdge = Wrote;\n\n");
    expected.push_str(QUERY_TYPES_HEAD);
    expected.push_str("export interface AddPostParams {\n  tags: string[];\n}\n\n");
    expected.push_str("export interface GetUserParams {\n  user_id: HelixID;\n}\n\n");
    expected.push_str("// Client interface for type-safe HelixDB operations\n");
    expected.push_str("export interface TypedHelixDBClient {\n");
    expected.push_str("  addPost(params: AddPostParams): Promise<HelixDBResponse>;\n");
    expected.push_str("  /**\n   * Finds a user\n   */\n");
    expected.push_str("  get_user(params: GetUserParams): Promise<HelixDBResponse>;\n");
    expected.push_str("}\n\n");
    expected.push_str(FACTORY_HEAD);
    expected.push_str("    async addPost(params) {\n");
    expected.push_str("      return await client.query('addPost', params);\n");
    expected.push_str("    },\n");
    expected.push_str("    async get_user(params) {\n");
    expected.push_str("      return await client.query('get_user', params);\n");
    expected.push_str("    },\n");
    expected.push_str("  };\n");
    expected.push_str("}\n\n");
    expected.push_str("// Query endpoint constants\n");
    expected.push_str("export const QueryEndpoints = {\n");
    expected.push_str("  ADD_POST: 'addPost',\n");
    expected.push_str("  GET_USER: 'get_user',\n");
    expected.push_str("} as const;\n\n");
    expected.push_str("// Type guards and validation helpers\n");
    expected.push_str("export function isPost(obj: any): obj is Post {\n");
    expected.push_str("  return obj && typeof obj === 'object' && typeof obj.id === 'bigint';\n");
    expected.push_str("}\n\n");
    expected.push_str("export function isUser(obj: any): obj is User {\n");
    expected.push_str("  return obj && typeof obj === 'object' && typeof obj.id === 'bigint';\n");
    expected.push_str("}\n\n");
    expected.push_str("export function isEmbedding(obj: any): obj is Embedding {\n");
    expected.push_str("  return obj && typeof obj === 'object' && typeof obj.id === 'bigint';\n");
    expected.push_str("}\n\n");
    expected.push_str(EXTRACT);

    let generator = TypeScriptGenerator::new(schema);
    assert_eq!(generator.generate(), expected);
}

#[test]
fn the_artifact_is_its_parts_in_their_order() {
    let mut schema = empty_schema();
    schema.nodes.insert("User".to_string(), node("User", vec![("name", FieldType::String)]));
    schema.queries.insert("GetUser".to_string(), query("GetUser", vec![]));
    let generator = TypeScriptGenerator::new(schema);
    let mut expected = String::new();
    expected.push_str("// Generated TypeScript types for HelixDB schema\n");
    expected.push_str("// This file is auto-generated. Do not edit manually.\n");
    expected.push_str("// Generated with helix-ts-gen from introspection endpoint\n\n");
    expected.push_str("import HelixDB from 'helix-ts';\n\n");
    expected.push_str(&generator.generate_utility_types());
    expected.push_str(&generator.generate_helix_types());
    expected.push_str(&generator.generate_node_types());
    expected.push_str(&generator.generate_vector_types());
    expected.push_str(&generator.generate_edge_types());
    expected.push_str(&generator.generate_query_types());
    expected.push_str(&generator.generate_client_interface());
    expected.push_str(&generator.generate_sdk_helpers());
    assert_eq!(generator.generate(), expected);
}

#[test]
fn without_queries_the_client_has_the_one_generic_operation() {
    let generator = TypeScriptGenerator::new(empty_schema());
    let interface = generator.generate_client_interface();
    assert_eq!(
        interface,
        "// Client interface for type-safe HelixDB operations\n// No queries found in schema\nexport interface TypedHelixDBClient {\n  query(endpoint: string, params: HelixDBInput): Promise<HelixDBResponse>;\n}\n\n"
    );
    assert_eq!(count(&interface, "Promise<HelixDBResponse>;"), 1);
    assert_eq!(
        generator.generate_operations(),
        "  query(endpoint: string, params: HelixDBInput): Promise<HelixDBResponse>;\n"
    );
    assert_eq!(generator.generate_endpoints(), "");
}

#[test]
fn with_queries_the_client_has_one_operation_for_each() {
    let mut schema = empty_schema();
    for name in ["GetUser", "create_user", "listPosts"] {
        schema.queries.insert(name.to_string(), query(name, vec![]));
    }
    let generator = TypeScriptGenerator::new(schema);
    let interface = generator.generate_client_interface();
    assert_eq!(
        interface,
        "// Client interface for type-safe HelixDB operations\nexport interface TypedHelixDBClient {\n  GetUser(params: GetUserParams): Promise<HelixDBResponse>;\n  create_user(params: CreateUserParams): Promise<HelixDBResponse>;\n  listPosts(params: ListPostsParams): Promise<HelixDBResponse>;\n}\n\n"
    );
    assert_eq!(count(&interface, "Promise<HelixDBResponse>;"), 3);
    assert_eq!(count(&interface, "  GetUser(params: "), 1);
    assert_eq!(count(&interface, "  create_user(params: "), 1);
    assert_eq!(count(&interface, "  listPosts(params: "), 1);
    assert_eq!(count(&interface, "query(endpoint"), 0);
    assert_eq!(
        generator.generate_bindings(),
        "    async GetUser(params) {\n      return await client.query('GetUser', params);\n    },\n    async create_user(params) {\n      return await client.query('create_user', params);\n    },\n    async listPosts(params) {\n      return await client.query('listPosts', params);\n    },\n"
    );
    assert_eq!(
        generator.generate_endpoints(),
        "// Query endpoint constants\nexport const QueryEndpoints = {\n  GET_USER: 'GetUser',\n  CREATE_USER: 'create_user',\n  LIST_POSTS: 'listPosts',\n} as const;\n\n"
    );
}

#[test]
fn without_nodes_no_type_of_any_node_is_declared() {
    let generator = TypeScriptGenerator::new(empty_schema());
    assert_eq!(generator.generate_node_types(), "// Node types\n");
    assert_eq!(generator.generate_vector_types(), "// Vector types\n");
    assert_eq!(generator.generate_edge_types(), "// Edge types\n");
    assert_eq!(count(&generator.generate(), "AnyNode"), 0);
}

#[test]
fn with_nodes_the_type_of_any_node_lists_each_once() {
    let mut schema = empty_schema();
    for name in ["User", "Post", "Comment", "User"] {
        schema.nodes.insert(name.to_string(), node(name, vec![]));
    }
    let generator = TypeScriptGenerator::new(schema);
    let nodes = generator.generate_node_types();
    assert_eq!(
        nodes,
        "// Node types\nexport interface Comment extends BaseNode {\n}\n\nexport interface Post extends BaseNode {\n}\n\nexport interface User extends BaseNode {\n}\n\nexport type AnyNode = Comment | Post | User;\n\n"
    );
    let union = nodes.lines().find(|line| line.starts_with("export type AnyNode")).unwrap();
    for name in ["User", "Post", "Comment"] {
        assert_eq!(count(union, name), 1);
    }
}

#[test]
fn a_node_is_declared_under_the_name_of_its_entry() {
    let mut schema = empty_schema();
    schema.nodes.insert("Key".to_string(), node("Other", vec![("a", FieldType::Boolean)]));
    let generator = TypeScriptGenerator::new(schema);
    assert_eq!(
        generator.generate_node_types(),
        "// Node types\nexport interface Key extends BaseNode {\n  a: boolean;\n}\n\nexport type AnyNode = Key;\n\n"
    );
}

#[test]
fn one_node_and_one_query_from_report_to_artifact() {
    let mut node_properties = OrderedMap::new();
    node_properties.insert("Name".to_string(), "String".to_string());
    node_properties.insert("Age".to_string(), "I32".to_string());
    let mut parameters = OrderedMap::new();
    parameters.insert("UserId".to_string(), "ID".to_string());
    let report = IntrospectionResponse {
        schema: SchemaData {
            nodes: vec![NodeInfo { name: "User".to_string(), properties: node_properties }],
            vectors: vec![],
            edges: vec![],
        },
        queries: vec![QueryInfo {
            name: "GetUser".to_string(),
            parameters,
            returns: vec!["user".to_string()],
        }],
    };
    let schema = build_schema(&report).unwrap();
    let artifact = TypeScriptGenerator::new(schema).generate();
    assert!(artifact.contains(
        "export interface User extends BaseNode {\n  age: number;\n  name: string;\n}\n\n"
    ));
    assert!(artifact.contains("export type AnyNode = User;\n\n"));
    assert!(artifact.contains("export interface GetUserParams {\n  user_id: HelixID;\n}\n\n"));
    assert!(artifact.contains("  GetUser(params: GetUserParams): Promise<HelixDBResponse>;\n"));
    assert!(artifact.contains("  GET_USER: 'GetUser',\n"));
    assert!(artifact.contains("export function isUser(obj: any): obj is User {\n"));
}

#[test]
fn an_edge_from_report_to_artifact() {
    let report = IntrospectionResponse {
        schema: SchemaData {
            nodes: vec![],
            vectors: vec![],
            edges: vec![EdgeInfo {
                name: "Follows".to_string(),
                from: "User".to_string(),
                to: "User".to_string(),
                properties: OrderedMap::new(),
            }],
        },
        queries: vec![],
    };
    let schema = build_schema(&report).unwrap();
    let generator = TypeScriptGenerator::new(schema);
    assert_eq!(
        generator.generate_edge_types(),
        "// Edge types\nexport interface Follows extends BaseEdge {\n  from: User;\n  to: User;\n}\n\nexport type AnyEdge = Follows;\n\n"
    );
}

#[test]
fn edges_get_no_guard() {
    let mut schema = empty_schema();
    schema.edges.insert(
        "Follows".to_string(),
        EdgeDefinition {
            name: "Follows".to_string(),
            from_node: "A".to_string(),
            to_node: "B".to_string(),
            properties: OrderedMap::new(),
        },
    );
    let helpers = TypeScriptGenerator::new(schema).generate_sdk_helpers();
    assert_eq!(count(&helpers, "export function is"), 0);
}

#[test]
fn the_same_schema_gives_the_same_artifact() {
    let mut schema = empty_schema();
    for name in ["b", "a", "c"] {
        schema.nodes.insert(name.to_string(), node(name, vec![("x", FieldType::Float)]));
        schema.queries.insert(name.to_string(), query(name, vec![("y", FieldType::ID)]));
    }
    let mut again = empty_schema();
    for name in ["c", "b", "a"] {
        again.nodes.insert(name.to_string(), node(name, vec![("x", FieldType::Float)]));
        again.queries.insert(name.to_string(), query(name, vec![("y", FieldType::ID)]));
    }
    let generator = TypeScriptGenerator::new(schema);
    let first = generator.generate();
    let second = generator.generate();
    assert_eq!(first, second);
    assert_eq!(TypeScriptGenerator::new(again).generate(), first);
}
