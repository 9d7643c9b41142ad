use sqlite_connector::resolver::{
    count_of_row, decode_rows, first_connected_id, first_id, first_row, ids_of_rows, int_of_row,
    lookup_result, point_lookup,
};
use sqlite_connector::rows::{
    group_scalar_list, many_nodes, related_nodes, scalar_list_pairs, strip_relation_row,
};
use sqlite_connector::{
    ConnectorError, GraphqlId, NodeSelectorInfo, PrismaRow, PrismaValue, RawValue, TypeIdentifier,
};

fn id(s: &str) -> GraphqlId {
    GraphqlId::String(s.to_string())
}

fn row(values: Vec<PrismaValue>) -> PrismaRow {
    PrismaRow { values }
}

fn selector() -> NodeSelectorInfo {
    NodeSelectorInfo {
        model: "User".to_string(),
        field: "email".to_string(),
        value: PrismaValue::String("a@b.c".to_string()),
    }
}

#[test]
fn relation_row_is_stripped_of_join_and_parent() {
    let r = row(vec![
        PrismaValue::String("name".to_string()),
        PrismaValue::Int(30),
        PrismaValue::GraphqlId(id("join")),
        PrismaValue::GraphqlId(id("parent")),
    ]);
    let node = strip_relation_row(r).unwrap();
    assert_eq!(node.values, vec![PrismaValue::String("name".to_string()), PrismaValue::Int(30)]);
    assert_eq!(node.parent_id, Some(id("parent")));
}

#[test]
fn relation_row_of_width_two_leaves_nothing() {
    let r = row(vec![PrismaValue::GraphqlId(id("join")), PrismaValue::Int(4)]);
    let node = strip_relation_row(r).unwrap();
    assert!(node.values.is_empty());
    assert_eq!(node.parent_id, Some(GraphqlId::Int(4)));
}

#[test]
fn relation_row_errors() {
    assert!(matches!(strip_relation_row(row(vec![])), Err(ConnectorError::MissingColumn)));
    let r = row(vec![PrismaValue::Int(1), PrismaValue::Int(2), PrismaValue::Boolean(true)]);
    assert!(matches!(strip_relation_row(r), Err(ConnectorError::ConversionFailure)));
}

#[test]
fn related_nodes_keep_order_and_names() {
    let rows = vec![
        row(vec![PrismaValue::Int(1), PrismaValue::Null, PrismaValue::GraphqlId(id("p1"))]),
        row(vec![PrismaValue::Int(2), PrismaValue::Null, PrismaValue::GraphqlId(id("p2"))]),
    ];
    let m = related_nodes(rows, vec!["age".to_string()]).unwrap();
    assert_eq!(m.field_names, vec!["age".to_string()]);
    assert_eq!(m.nodes.len(), 2);
    assert_eq!(m.nodes[0].values, vec![PrismaValue::Int(1)]);
    assert_eq!(m.nodes[1].parent_id, Some(id("p2")));
}

#[test]
fn many_nodes_share_field_names() {
    let rows = vec![row(vec![PrismaValue::Int(1)]), row(vec![PrismaValue::Int(2)])];
    let m = many_nodes(rows, vec!["n".to_string()]);
    assert_eq!(m.nodes.len(), 2);
    assert_eq!(m.nodes[1].values, vec![PrismaValue::Int(2)]);
    assert_eq!(m.nodes[0].parent_id, None);
}

#[test]
fn list_grouping_follows_contiguous_runs() {
    let pairs = vec![
        (id("A"), PrismaValue::Int(1)),
        (id("A"), PrismaValue::Int(2)),
        (id("B"), PrismaValue::Int(3)),
        (id("A"), PrismaValue::Int(4)),
    ];
    let groups = group_scalar_list(pairs);
    assert_eq!(groups.len(), 3);
    assert_eq!(groups[0].node_id, id("A"));
    assert_eq!(groups[0].values, vec![PrismaValue::Int(1), PrismaValue::Int(2)]);
    assert_eq!(groups[1].node_id, id("B"));
    assert_eq!(groups[1].values, vec![PrismaValue::Int(3)]);
    assert_eq!(groups[2].node_id, id("A"));
    assert_eq!(groups[2].values, vec![PrismaValue::Int(4)]);
}

#[test]
fn list_grouping_of_nothing_is_empty() {
    assert!(group_scalar_list(vec![]).is_empty());
}

#[test]
fn first_row_or_not_found() {
    assert!(matches!(first_row(vec![]), Err(ConnectorError::NodeDoesNotExist)));
    let r = first_row(vec![row(vec![PrismaValue::Int(1)]), row(vec![PrismaValue::Int(2)])]).unwrap();
    assert_eq!(r.values, vec![PrismaValue::Int(1)]);
}

#[test]
fn scalar_int_and_count() {
    assert_eq!(int_of_row(row(vec![PrismaValue::Int(-3)])).unwrap(), -3);
    assert!(matches!(int_of_row(row(vec![PrismaValue::Null])), Err(ConnectorError::ConversionFailure)));
    assert_eq!(count_of_row(row(vec![PrismaValue::Int(12)])).unwrap(), 12);
    assert!(matches!(count_of_row(row(vec![PrismaValue::Int(-1)])), Err(ConnectorError::ConversionFailure)));
}

#[test]
fn identifiers_of_rows_in_order() {
    let rows = vec![
        row(vec![PrismaValue::GraphqlId(id("x"))]),
        row(vec![PrismaValue::Int(2), PrismaValue::String("y".to_string())]),
    ];
    let ids = ids_of_rows(rows).unwrap();
    assert_eq!(ids, vec![id("x"), GraphqlId::Int(2), id("y")]);
    let bad = vec![row(vec![PrismaValue::Int(1)]), row(vec![PrismaValue::Boolean(false)])];
    assert!(matches!(ids_of_rows(bad), Err(ConnectorError::ConversionFailure)));
}

#[test]
fn first_id_reports_the_searched_key() {
    assert_eq!(first_id(vec![id("a"), id("b")], selector()).unwrap(), id("a"));
    match first_id(vec![], selector()) {
        Err(ConnectorError::NodeNotFoundForWhere(info)) => {
            assert_eq!(info.model, "User");
            assert_eq!(info.field, "email");
        }
        other => panic!("unexpected {:?}", other),
    }
}

#[test]
fn missing_child_is_not_connected_error() {
    let r = first_connected_id(vec![], "Posts".to_string(), "User".to_string(), "Post".to_string(), None);
    match r {
        Err(ConnectorError::NodesNotConnected { relation_name, parent_name, parent_where, child_name, child_where }) => {
            assert_eq!(relation_name, "Posts");
            assert_eq!(parent_name, "User");
            assert_eq!(child_name, "Post");
            assert!(parent_where.is_none());
            assert!(child_where.is_none());
        }
        other => panic!("unexpected {:?}", other),
    }
    let ok = first_connected_id(vec![GraphqlId::Int(3)], "R".to_string(), "P".to_string(), "C".to_string(), Some(selector()));
    assert_eq!(ok.unwrap(), GraphqlId::Int(3));
}

#[test]
fn point_lookup_translates_not_found() {
    let names = vec!["id".to_string()];
    assert!(matches!(lookup_result(Err(ConnectorError::NodeDoesNotExist), names.clone()), Ok(None)));
    assert!(matches!(lookup_result(Err(ConnectorError::NodeNotFoundForWhere(selector())), names.clone()), Ok(None)));
    assert!(matches!(lookup_result(Err(ConnectorError::ConversionFailure), names.clone()), Err(ConnectorError::ConversionFailure)));
    let found = lookup_result(Ok(row(vec![PrismaValue::Int(1)])), names.clone()).unwrap().unwrap();
    assert_eq!(found.field_names, names);
    assert_eq!(found.node.values, vec![PrismaValue::Int(1)]);
}

#[test]
fn point_lookup_over_raw_rows() {
    let tags = [TypeIdentifier::GraphQLID, TypeIdentifier::String];
    assert!(matches!(point_lookup(vec![], &tags, vec![]), Ok(None)));
    let raw = vec![vec![RawValue::Text("u1".to_string()), RawValue::Text("Ann".to_string())]];
    let n = point_lookup(raw, &tags, vec!["id".to_string(), "name".to_string()]).unwrap().unwrap();
    assert_eq!(n.node.values, vec![PrismaValue::GraphqlId(id("u1")), PrismaValue::String("Ann".to_string())]);
    let bad = vec![vec![RawValue::Integer(1), RawValue::Integer(2)]];
    assert!(matches!(point_lookup(bad, &tags, vec![]), Err(ConnectorError::ColumnDecode { column: 1 })));
}

#[test]
fn decode_rows_all_or_nothing() {
    let tags = [TypeIdentifier::Int];
    let rows = decode_rows(vec![vec![RawValue::Integer(1)], vec![RawValue::Integer(2)]], &tags).unwrap();
    assert_eq!(rows[1].values, vec![PrismaValue::Int(2)]);
    assert!(decode_rows(vec![vec![RawValue::Integer(1)], vec![]], &tags).is_err());
}

#[test]
fn scalar_list_pairs_from_rows() {
    let rows = vec![
        row(vec![PrismaValue::GraphqlId(id("A")), PrismaValue::Int(1)]),
        row(vec![PrismaValue::GraphqlId(id("B")), PrismaValue::String("x".to_string()), PrismaValue::Null]),
    ];
    let pairs = scalar_list_pairs(rows).unwrap();
    assert_eq!(pairs.len(), 2);
    assert_eq!(pairs[0].0, id("A"));
    assert_eq!(pairs[0].1, PrismaValue::Int(1));
    assert_eq!(pairs[1].0, id("B"));
    assert_eq!(pairs[1].1, PrismaValue::String("x".to_string()));
}

#[test]
fn scalar_list_pairs_errors() {
    let short = vec![row(vec![PrismaValue::GraphqlId(id("A"))])];
    assert!(matches!(scalar_list_pairs(short), Err(ConnectorError::MissingColumn)));
    let not_id = vec![
        row(vec![PrismaValue::GraphqlId(id("A")), PrismaValue::Int(1)]),
        row(vec![PrismaValue::Int(5), PrismaValue::Int(2)]),
    ];
    assert!(matches!(scalar_list_pairs(not_id), Err(ConnectorError::ConversionFailure)));
}
