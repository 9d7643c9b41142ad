use sqlite_connector::rows::{decode_row, id_of_value};
use sqlite_connector::value::{decode_value, encode_value};
use sqlite_connector::{ConnectorError, GraphqlId, PrismaValue, RawValue, TypeIdentifier};

fn uuid_bytes() -> Vec<u8> {
    (0u8..16).collect()
}

fn round_trip(v: PrismaValue, tag: TypeIdentifier) {
    let raw = encode_value(&v);
    let back = decode_value(&raw, tag);
    assert_eq!(back, Some(v));
}

#[test]
fn round_trip_every_tag() {
    round_trip(PrismaValue::String("abc".to_string()), TypeIdentifier::String);
    round_trip(PrismaValue::Enum("RED".to_string()), TypeIdentifier::Enum);
    round_trip(PrismaValue::Json("{\"a\":1}".to_string()), TypeIdentifier::Json);
    round_trip(PrismaValue::Int(-42), TypeIdentifier::Int);
    round_trip(PrismaValue::Int(i64::MAX), TypeIdentifier::Int);
    round_trip(PrismaValue::Boolean(true), TypeIdentifier::Boolean);
    round_trip(PrismaValue::Boolean(false), TypeIdentifier::Boolean);
    round_trip(PrismaValue::Uuid(uuid_bytes()), TypeIdentifier::UUID);
    round_trip(PrismaValue::GraphqlId(GraphqlId::String("cjx1".to_string())), TypeIdentifier::GraphQLID);
    round_trip(PrismaValue::GraphqlId(GraphqlId::Int(7)), TypeIdentifier::Relation);
    round_trip(PrismaValue::GraphqlId(GraphqlId::Uuid(uuid_bytes())), TypeIdentifier::GraphQLID);
    round_trip(PrismaValue::Null, TypeIdentifier::Int);
}

#[test]
fn encode_exact_values() {
    assert_eq!(encode_value(&PrismaValue::Boolean(true)), RawValue::Integer(1));
    assert_eq!(encode_value(&PrismaValue::Boolean(false)), RawValue::Integer(0));
    assert_eq!(encode_value(&PrismaValue::GraphqlId(GraphqlId::Int(9))), RawValue::Integer(9));
    assert_eq!(encode_value(&PrismaValue::Enum("A".to_string())), RawValue::Text("A".to_string()));
}

#[test]
fn boolean_decodes_any_nonzero_as_true() {
    assert_eq!(decode_value(&RawValue::Integer(5), TypeIdentifier::Boolean), Some(PrismaValue::Boolean(true)));
    assert_eq!(decode_value(&RawValue::Integer(0), TypeIdentifier::Boolean), Some(PrismaValue::Boolean(false)));
}

#[test]
fn uuid_needs_sixteen_bytes() {
    let short: Vec<u8> = (0u8..15).collect();
    assert_eq!(decode_value(&RawValue::Blob(short), TypeIdentifier::UUID), None);
    let long: Vec<u8> = (0u8..17).collect();
    assert_eq!(decode_value(&RawValue::Blob(long), TypeIdentifier::GraphQLID), None);
    assert_eq!(
        decode_value(&RawValue::Blob(uuid_bytes()), TypeIdentifier::UUID),
        Some(PrismaValue::Uuid(uuid_bytes()))
    );
}

#[test]
fn mismatched_tag_is_rejected() {
    assert_eq!(decode_value(&RawValue::Text("x".to_string()), TypeIdentifier::Int), None);
    assert_eq!(decode_value(&RawValue::Integer(1), TypeIdentifier::String), None);
    assert_eq!(decode_value(&RawValue::Integer(-1), TypeIdentifier::GraphQLID), None);
    assert_eq!(decode_value(&RawValue::Null, TypeIdentifier::UUID), Some(PrismaValue::Null));
}

#[test]
fn decode_row_positionally() {
    let raw = vec![RawValue::Text("a".to_string()), RawValue::Integer(3), RawValue::Null];
    let tags = [TypeIdentifier::String, TypeIdentifier::Int, TypeIdentifier::Boolean];
    let row = decode_row(&raw, &tags).unwrap();
    assert_eq!(row.values, vec![PrismaValue::String("a".to_string()), PrismaValue::Int(3), PrismaValue::Null]);
}

#[test]
fn decode_row_column_count_mismatch() {
    let raw = vec![RawValue::Integer(3)];
    let tags = [TypeIdentifier::Int, TypeIdentifier::Int];
    match decode_row(&raw, &tags) {
        Err(ConnectorError::ColumnCountMismatch { columns, tags }) => {
            assert_eq!(columns, 1);
            assert_eq!(tags, 2);
        }
        other => panic!("unexpected {:?}", other),
    }
}

#[test]
fn decode_row_reports_first_bad_column() {
    let raw = vec![RawValue::Integer(3), RawValue::Integer(4), RawValue::Text("x".to_string())];
    let tags = [TypeIdentifier::Int, TypeIdentifier::String, TypeIdentifier::Int];
    assert!(matches!(decode_row(&raw, &tags), Err(ConnectorError::ColumnDecode { column: 1 })));
}

#[test]
fn id_conversion() {
    assert_eq!(id_of_value(PrismaValue::Int(5)).unwrap(), GraphqlId::Int(5));
    assert_eq!(id_of_value(PrismaValue::String("k".to_string())).unwrap(), GraphqlId::String("k".to_string()));
    assert!(matches!(id_of_value(PrismaValue::Int(-5)), Err(ConnectorError::ConversionFailure)));
    assert!(matches!(id_of_value(PrismaValue::Boolean(true)), Err(ConnectorError::ConversionFailure)));
}

#[test]
fn identifiers_compare_by_content() {
    assert!(GraphqlId::Uuid(uuid_bytes()) == GraphqlId::Uuid(uuid_bytes()));
    assert!(GraphqlId::Int(1) != GraphqlId::String("1".to_string()));
    assert!(GraphqlId::String("a".to_string()).duplicate() == GraphqlId::String("a".to_string()));
}
