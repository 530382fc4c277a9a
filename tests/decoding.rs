use graph_tables::value::{decode_nodes, decode_triple, decode_triples, QueryValue, TryCast};

fn num(i: i64) -> QueryValue {
    QueryValue::Int64(i)
}

#[test]
fn casts_ids_and_text() {
    let r: Result<i32, String> = num(7).try_cast();
    assert_eq!(r, Ok(7));
    let r: Result<i32, String> = num(1i64 << 40).try_cast();
    assert!(r.is_err());
    let r: Result<i32, String> = QueryValue::String("x".to_string()).try_cast();
    assert!(r.is_err());
    let r: Result<String, String> = QueryValue::String("x".to_string()).try_cast();
    assert_eq!(r, Ok("x".to_string()));
    let r: Result<String, String> = QueryValue::Other.try_cast();
    assert!(r.is_err());
}

#[test]
fn decodes_triples_skipping_bad_rows() {
    let rows = vec![
        vec![num(1), num(10), num(2)],
        vec![num(1), QueryValue::Other, num(2)],
        vec![num(3)],
        vec![num(4), num(11), num(5)],
    ];
    let t = decode_triples(&rows);
    let flat: Vec<(i32, i32, i32)> = t.iter().map(|t| (t.subject_id, t.predicate_id, t.object_id)).collect();
    assert_eq!(flat, vec![(1, 10, 2), (4, 11, 5)]);
    assert!(decode_triple(&vec![num(1), num(2)]).is_none());
}

#[test]
fn decodes_nodes_with_missing_labels() {
    let rows = vec![
        vec![num(1), QueryValue::String("A".to_string())],
        vec![num(2), QueryValue::Other],
        vec![num(3)],
    ];
    let nodes = decode_nodes(&rows).unwrap();
    let flat: Vec<(i32, String)> = nodes.iter().map(|n| (n.node_id, n.label.clone())).collect();
    assert_eq!(flat, vec![(1, "A".to_string()), (2, String::new()), (3, String::new())]);
    assert!(decode_nodes(&vec![vec![QueryValue::String("A".to_string())]]).is_none());
}
