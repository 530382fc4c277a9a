use graph_tables::graph::{EdgeTuple, GraphSnapshot, TraversalDirection};
use graph_tables::model::{
    ColumnDefinition, ColumnFilter, Filter, GraphDirection, Node, RowResponse, TableDefinition,
    Triple,
};
use graph_tables::table::{assemble_rows, classify_columns};

fn node(id: i32, label: &str) -> Node {
    Node { node_id: id, label: label.to_string() }
}

fn triple(s: i32, p: i32, o: i32) -> Triple {
    Triple { subject_id: s, predicate_id: p, object_id: o }
}

fn column(id: i32, direction: Option<GraphDirection>, predicate_id: Option<i32>) -> ColumnDefinition {
    ColumnDefinition { id, filter: ColumnFilter { direction, predicate_id } }
}

fn open_filter() -> Filter {
    Filter { node_id: None, predicate: None, direction: None }
}

fn table(filter: Filter, columns: Vec<ColumnDefinition>) -> TableDefinition {
    TableDefinition { label: "t".to_string(), filter, columns }
}

fn abc_graph() -> GraphSnapshot {
    GraphSnapshot {
        nodes: vec![node(1, "A"), node(2, "B"), node(3, "C")],
        triples: vec![triple(1, 10, 2), triple(1, 10, 3)],
    }
}

fn cells(row: &RowResponse) -> Vec<(i32, Vec<i32>)> {
    row.columns.iter().map(|c| (c.id, c.values.clone())).collect()
}

#[test]
fn scenario_outgoing_column_over_all_nodes() {
    let g = abc_graph();
    let def = table(open_filter(), vec![column(1, Some(GraphDirection::Out), Some(10))]);
    let rows = g.table_rows(def);
    assert_eq!(rows.len(), 3);
    assert_eq!(rows[0].node_id, 1);
    assert_eq!(cells(&rows[0]), vec![(1, vec![2, 3])]);
    assert_eq!(rows[1].node_id, 2);
    assert_eq!(cells(&rows[1]), vec![(1, vec![])]);
    assert_eq!(rows[2].node_id, 3);
    assert_eq!(cells(&rows[2]), vec![(1, vec![])]);
}

#[test]
fn scenario_root_filter_from_node() {
    let g = abc_graph();
    let f = Filter { node_id: Some(1), predicate: Some(10), direction: Some(GraphDirection::Out) };
    assert_eq!(g.filter_values(f), vec![2, 3]);
    let rows = g.table_rows(table(f, vec![]));
    let ids: Vec<i32> = rows.iter().map(|r| r.node_id).collect();
    assert_eq!(ids, vec![2, 3]);
}

#[test]
fn rows_follow_ascending_anchor_order() {
    let g = GraphSnapshot {
        nodes: vec![node(3, "C"), node(1, "A"), node(2, "B"), node(1, "A")],
        triples: vec![],
    };
    let rows = g.table_rows(table(open_filter(), vec![column(7, None, None)]));
    let ids: Vec<i32> = rows.iter().map(|r| r.node_id).collect();
    assert_eq!(ids, vec![1, 2, 3]);
}

#[test]
fn every_row_has_every_column_without_edges() {
    let g = GraphSnapshot { nodes: vec![node(5, "x"), node(4, "y")], triples: vec![] };
    let def = table(
        open_filter(),
        vec![column(9, Some(GraphDirection::In), Some(1)), column(2, None, Some(3)), column(5, None, None)],
    );
    let rows = g.table_rows(def);
    assert_eq!(rows.len(), 2);
    for r in &rows {
        assert_eq!(cells(r), vec![(9, vec![]), (2, vec![]), (5, vec![])]);
    }
}

#[test]
fn open_column_keeps_every_fetched_edge() {
    let g = GraphSnapshot {
        nodes: vec![node(1, "a"), node(2, "b"), node(3, "c")],
        triples: vec![triple(1, 10, 2), triple(3, 11, 1)],
    };
    let def = table(
        Filter { node_id: Some(1), predicate: None, direction: None },
        vec![
            column(1, Some(GraphDirection::Out), Some(10)),
            column(2, Some(GraphDirection::In), Some(11)),
            column(3, None, None),
        ],
    );
    let rows = g.table_rows(def);
    assert_eq!(rows.len(), 1);
    assert_eq!(cells(&rows[0]), vec![(1, vec![2]), (2, vec![3]), (3, vec![2, 3])]);
}

#[test]
fn column_without_predicate_alone_is_empty() {
    let g = abc_graph();
    let rows = g.table_rows(table(open_filter(), vec![column(4, None, None)]));
    assert_eq!(rows.len(), 3);
    for r in &rows {
        assert_eq!(cells(r), vec![(4, vec![])]);
    }
}

#[test]
fn empty_bucket_fetches_no_edges() {
    let g = abc_graph();
    assert!(g.fetch_edges(&vec![1, 2, 3], &vec![], TraversalDirection::Any).is_empty());
    assert!(g.fetch_edges(&vec![1, 2, 3], &vec![], TraversalDirection::Out).is_empty());
}

#[test]
fn parallel_edges_repeat_neighbour() {
    let g = GraphSnapshot {
        nodes: vec![node(1, "a"), node(2, "b")],
        triples: vec![triple(1, 5, 2), triple(1, 5, 2)],
    };
    let rows = g.table_rows(table(open_filter(), vec![column(1, Some(GraphDirection::Out), Some(5))]));
    assert_eq!(cells(&rows[0]), vec![(1, vec![2, 2])]);
    assert_eq!(cells(&rows[1]), vec![(1, vec![])]);
}

#[test]
fn undirected_column_sees_both_ends() {
    let g = GraphSnapshot {
        nodes: vec![node(1, "a"), node(2, "b"), node(3, "c")],
        triples: vec![triple(1, 5, 2), triple(3, 5, 1), triple(1, 5, 1)],
    };
    let rows = g.table_rows(table(open_filter(), vec![column(1, None, Some(5))]));
    assert_eq!(cells(&rows[0]), vec![(1, vec![1, 2, 3])]);
    assert_eq!(cells(&rows[1]), vec![(1, vec![1])]);
    assert_eq!(cells(&rows[2]), vec![(1, vec![1])]);
}

#[test]
fn dangling_node_id_gives_empty_row() {
    let g = abc_graph();
    let f = Filter { node_id: Some(42), predicate: None, direction: None };
    let rows = g.table_rows(table(f, vec![column(1, Some(GraphDirection::Out), Some(10))]));
    assert_eq!(rows.len(), 1);
    assert_eq!(rows[0].node_id, 42);
    assert_eq!(cells(&rows[0]), vec![(1, vec![])]);
}

#[test]
fn empty_anchor_set_gives_no_rows() {
    let g = abc_graph();
    let f = Filter { node_id: None, predicate: Some(99), direction: None };
    assert!(g.filter_values(f).is_empty());
    assert!(g.table_rows(table(f, vec![column(1, None, None)])).is_empty());
}

#[test]
fn traversal_filters_without_node() {
    let g = GraphSnapshot {
        nodes: vec![node(1, "a"), node(2, "b"), node(3, "c"), node(4, "d")],
        triples: vec![triple(2, 10, 1), triple(3, 11, 4), triple(1, 10, 3)],
    };
    let out = Filter { node_id: None, predicate: Some(10), direction: Some(GraphDirection::Out) };
    assert_eq!(g.filter_values(out), vec![1, 2]);
    let inward = Filter { node_id: None, predicate: Some(10), direction: Some(GraphDirection::In) };
    assert_eq!(g.filter_values(inward), vec![1, 3]);
    let either = Filter { node_id: None, predicate: Some(10), direction: None };
    assert_eq!(g.filter_values(either), vec![1, 2, 3]);
    let any_in = Filter { node_id: None, predicate: None, direction: Some(GraphDirection::In) };
    assert_eq!(g.filter_values(any_in), vec![1, 3, 4]);
}

#[test]
fn traversal_filters_from_node() {
    let g = GraphSnapshot {
        nodes: vec![node(1, "a"), node(2, "b"), node(3, "c")],
        triples: vec![triple(2, 10, 1), triple(1, 10, 3), triple(1, 11, 2)],
    };
    let inward = Filter { node_id: Some(1), predicate: Some(10), direction: Some(GraphDirection::In) };
    assert_eq!(g.filter_values(inward), vec![2]);
    let either = Filter { node_id: Some(1), predicate: Some(10), direction: None };
    assert_eq!(g.filter_values(either), vec![2, 3]);
    let any_out = Filter { node_id: Some(1), predicate: None, direction: Some(GraphDirection::Out) };
    assert_eq!(g.filter_values(any_out), vec![2, 3]);
    let only_node = Filter { node_id: Some(1), predicate: None, direction: None };
    assert_eq!(g.filter_values(only_node), vec![1]);
}

#[test]
fn classify_puts_each_predicate_in_one_bucket() {
    let cols = vec![
        column(1, Some(GraphDirection::Out), Some(10)),
        column(2, Some(GraphDirection::In), Some(11)),
        column(3, None, Some(12)),
        column(4, None, None),
        column(5, Some(GraphDirection::Out), Some(13)),
    ];
    let b = classify_columns(&cols);
    assert_eq!(b.out_ids, vec![10, 13]);
    assert_eq!(b.in_ids, vec![11]);
    assert_eq!(b.any_ids, vec![12]);
}

#[test]
fn assemble_fills_missing_anchors_and_sorts_values() {
    let t = |a: i32, n: i32, p: i32, d: TraversalDirection| EdgeTuple { anchor: a, neighbor: n, predicate: p, direction: d };
    let tuples = vec![
        t(5, 9, 1, TraversalDirection::Out),
        t(5, 3, 1, TraversalDirection::Out),
        t(5, 4, 1, TraversalDirection::Any),
        t(8, 1, 2, TraversalDirection::In),
        t(6, 7, 1, TraversalDirection::Out),
    ];
    let cols = vec![column(1, Some(GraphDirection::Out), Some(1)), column(2, None, None)];
    let rows = assemble_rows(&vec![2, 5, 8], &tuples, &cols);
    assert_eq!(rows.len(), 3);
    assert_eq!(rows[0].node_id, 2);
    assert_eq!(cells(&rows[0]), vec![(1, vec![]), (2, vec![])]);
    assert_eq!(cells(&rows[1]), vec![(1, vec![3, 9]), (2, vec![3, 4, 9])]);
    assert_eq!(cells(&rows[2]), vec![(1, vec![]), (2, vec![1])]);
}

#[test]
fn direction_names() {
    assert_eq!(GraphDirection::In.to_string(), "in");
    assert_eq!(GraphDirection::Out.to_string(), "out");
}
