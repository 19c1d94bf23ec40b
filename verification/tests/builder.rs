use helix_ts_gen::introspector::{build_schema, convert_properties, describe_returns};
use helix_ts_gen::{
    DescriptorMap, DimensionFault, EdgeInfo, Error, FieldType, HelixDBConnection,
    IntrospectionResponse, NodeInfo, OrderedMap, PropertyMap, QueryInfo, SchemaData, VectorInfo,
};

fn descriptors(pairs: &[(&str, &str)]) -> DescriptorMap {
    let mut map = OrderedMap::new();
    for (name, descriptor) in pairs {
        map.insert(name.to_string(), descriptor.to_string());
    }
    map
}

fn properties(pairs: Vec<(&str, FieldType)>) -> PropertyMap {
    let mut map = OrderedMap::new();
    for (name, field_type) in pairs {
        map.insert(name.to_string(), field_type);
    }
    map
}

fn report(
    nodes: Vec<NodeInfo>,
    vectors: Vec<VectorInfo>,
    edges: Vec<EdgeInfo>,
    queries: Vec<QueryInfo>,
) -> IntrospectionResponse {
    IntrospectionResponse { schema: SchemaData { nodes, vectors, edges }, queries }
}

fn user_report() -> IntrospectionResponse {
    report(
        vec![NodeInfo {
            name: "User".to_string(),
            properties: descriptors(&[("Name", "String"), ("Age", "I32")]),
        }],
        vec![],
        vec![],
        vec![QueryInfo {
            name: "GetUser".to_string(),
            parameters: descriptors(&[("UserId", "ID")]),
            returns: vec!["user".to_string()],
        }],
    )
}

#[test]
fn properties_are_renamed_and_resolved() {
    let converted = convert_properties(&descriptors(&[
        ("Name", "String"),
        ("Age", "I32"),
        ("createdAt", "U64"),
        ("Embedding", "Vector<3>"),
        ("Tags", "Array(String)"),
        ("Owner", "User"),
    ]));
    assert_eq!(
        converted,
        Ok(properties(vec![
            ("name", FieldType::String),
            ("age", FieldType::Integer),
            ("created_at", FieldType::Integer),
            ("embedding", FieldType::Vector(3)),
            ("tags", FieldType::Array(Box::new(FieldType::String))),
            ("owner", FieldType::Custom("User".to_string())),
        ]))
    );
}

#[test]
fn no_properties_give_no_properties() {
    assert_eq!(convert_properties(&descriptors(&[])), Ok(properties(vec![])));
}

#[test]
fn of_two_properties_with_one_new_name_the_later_stays() {
    let converted = convert_properties(&descriptors(&[("UserId", "ID"), ("userId", "String")]));
    assert_eq!(converted, Ok(properties(vec![("user_id", FieldType::String)])));
}

#[test]
fn a_bad_dimension_fails_the_properties() {
    let converted = convert_properties(&descriptors(&[("a", "String"), ("b", "Vector<x>")]));
    assert_eq!(
        converted,
        Err(Error::InvalidDimension { text: "x".to_string(), fault: DimensionFault::InvalidDigit })
    );
}

#[test]
fn the_first_bad_dimension_in_the_order_of_names_is_reported() {
    let converted = convert_properties(&descriptors(&[
        ("z", "Vector<>"),
        ("m", "Vector<q>"),
        ("a", "I8"),
    ]));
    assert_eq!(
        converted,
        Err(Error::InvalidDimension { text: "q".to_string(), fault: DimensionFault::InvalidDigit })
    );
}

#[test]
fn returns_are_described() {
    assert_eq!(describe_returns(&vec!["user".to_string()]), "user");
    assert_eq!(describe_returns(&vec!["a".to_string(), "b".to_string()]), "{ a, b }");
    assert_eq!(
        describe_returns(&vec!["a".to_string(), "b".to_string(), "c".to_string()]),
        "{ a, b, c }"
    );
    assert_eq!(describe_returns(&vec![]), "{  }");
}

#[test]
fn one_node_and_one_query_give_their_definitions() {
    let schema = build_schema(&user_report()).unwrap();
    assert_eq!(schema.nodes.len(), 1);
    assert_eq!(schema.vectors.len(), 0);
    assert_eq!(schema.edges.len(), 0);
    assert_eq!(schema.queries.len(), 1);

    let user = schema.nodes.get("User").unwrap();
    assert_eq!(user.name, "User");
    assert_eq!(
        user.properties,
        properties(vec![("name", FieldType::String), ("age", FieldType::Integer)])
    );

    let get_user = schema.queries.get("GetUser").unwrap();
    assert_eq!(get_user.name, "GetUser");
    assert_eq!(get_user.parameters, properties(vec![("user_id", FieldType::ID)]));
    assert_eq!(get_user.returns, "user");
    assert_eq!(get_user.description, None);
}

#[test]
fn an_edge_keeps_its_ends_as_they_are() {
    let schema = build_schema(&report(
        vec![],
        vec![],
        vec![EdgeInfo {
            name: "Follows".to_string(),
            from: "User".to_string(),
            to: "User".to_string(),
            properties: descriptors(&[]),
        }],
        vec![],
    ))
    .unwrap();
    assert_eq!(schema.nodes.len(), 0);
    let follows = schema.edges.get("Follows").unwrap();
    assert_eq!(follows.name, "Follows");
    assert_eq!(follows.from_node, "User");
    assert_eq!(follows.to_node, "User");
    assert!(follows.properties.is_empty());
}

#[test]
fn a_vector_gives_its_definition() {
    let schema = build_schema(&report(
        vec![],
        vec![VectorInfo {
            name: "Embedding".to_string(),
            properties: descriptors(&[("Values", "Vector<1536>"), ("Model", "String")]),
        }],
        vec![],
        vec![],
    ))
    .unwrap();
    let embedding = schema.vectors.get("Embedding").unwrap();
    assert_eq!(embedding.name, "Embedding");
    assert_eq!(
        embedding.properties,
        properties(vec![("values", FieldType::Vector(1536)), ("model", FieldType::String)])
    );
}

#[test]
fn one_name_may_stand_in_more_than_one_kind() {
    let schema = build_schema(&report(
        vec![NodeInfo { name: "Item".to_string(), properties: descriptors(&[("a", "I8")]) }],
        vec![VectorInfo { name: "Item".to_string(), properties: descriptors(&[("b", "F64")]) }],
        vec![EdgeInfo {
            name: "Item".to_string(),
            from: "Item".to_string(),
            to: "Nowhere".to_string(),
            properties: descriptors(&[]),
        }],
        vec![QueryInfo { name: "Item".to_string(), parameters: descriptors(&[]), returns: vec![] }],
    ))
    .unwrap();
    assert_eq!(
        schema.nodes.get("Item").unwrap().properties,
        properties(vec![("a", FieldType::Integer)])
    );
    assert_eq!(
        schema.vectors.get("Item").unwrap().properties,
        properties(vec![("b", FieldType::Float)])
    );
    assert_eq!(schema.edges.get("Item").unwrap().to_node, "Nowhere");
    assert_eq!(schema.queries.get("Item").unwrap().returns, "{  }");
}

#[test]
fn of_two_reports_of_one_name_the_later_stays() {
    let schema = build_schema(&report(
        vec![
            NodeInfo { name: "User".to_string(), properties: descriptors(&[("a", "I8")]) },
            NodeInfo { name: "Post".to_string(), properties: descriptors(&[]) },
            NodeInfo { name: "User".to_string(), properties: descriptors(&[("b", "String")]) },
        ],
        vec![],
        vec![],
        vec![],
    ))
    .unwrap();
    assert_eq!(schema.nodes.len(), 2);
    assert_eq!(
        schema.nodes.get("User").unwrap().properties,
        properties(vec![("b", FieldType::String)])
    );
    assert_eq!(schema.nodes.entry(0).0, "Post");
    assert_eq!(schema.nodes.entry(1).0, "User");
}

#[test]
fn a_bad_dimension_anywhere_fails_the_schema() {
    let bad = descriptors(&[("v", "Vector<1.5>")]);
    let error =
        Error::InvalidDimension { text: "1.5".to_string(), fault: DimensionFault::InvalidDigit };

    let in_node = report(
        vec![NodeInfo { name: "N".to_string(), properties: bad.clone() }],
        vec![],
        vec![],
        vec![],
    );
    assert_eq!(build_schema(&in_node), Err(error.clone()));

    let in_vector = report(
        vec![],
        vec![VectorInfo { name: "V".to_string(), properties: bad.clone() }],
        vec![],
        vec![],
    );
    assert_eq!(build_schema(&in_vector), Err(error.clone()));

    let in_edge = report(
        vec![],
        vec![],
        vec![EdgeInfo {
            name: "E".to_string(),
            from: "A".to_string(),
            to: "B".to_string(),
            properties: bad.clone(),
        }],
        vec![],
    );
    assert_eq!(build_schema(&in_edge), Err(error.clone()));

    let in_query = report(
        vec![],
        vec![],
        vec![],
        vec![QueryInfo { name: "Q".to_string(), parameters: bad.clone(), returns: vec![] }],
    );
    assert_eq!(build_schema(&in_query), Err(error));
}

#[test]
fn the_error_of_the_nodes_comes_before_the_error_of_the_queries() {
    let both = report(
        vec![NodeInfo { name: "N".to_string(), properties: descriptors(&[("v", "Vector<>")]) }],
        vec![],
        vec![],
        vec![QueryInfo {
            name: "Q".to_string(),
            parameters: descriptors(&[("v", "Vector<x>")]),
            returns: vec![],
        }],
    );
    assert_eq!(
        build_schema(&both),
        Err(Error::InvalidDimension { text: "".to_string(), fault: DimensionFault::Empty })
    );
}

#[test]
fn an_empty_report_gives_an_empty_schema() {
    let schema = build_schema(&report(vec![], vec![], vec![], vec![])).unwrap();
    assert!(schema.nodes.is_empty());
    assert!(schema.vectors.is_empty());
    assert!(schema.edges.is_empty());
    assert!(schema.queries.is_empty());
}

#[test]
fn the_schema_is_asked_for_under_the_address_of_the_database() {
    let connection = HelixDBConnection { url: "http://localhost:6969".to_string() };
    assert_eq!(connection.introspect_url(), "http://localhost:6969/introspect");
    let bare = HelixDBConnection { url: "".to_string() };
    assert_eq!(bare.introspect_url(), "/introspect");
}
