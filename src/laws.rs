use vstd::prelude::*;
use vstd::seq_lib::lemma_multiset_commutative;

use crate::graph::{edge, fetched, selects_node, triple_tuples, EdgeTuple, TraversalDirection};
use crate::model::{
    ColumnDefinition, ColumnFilter, Filter, GraphDirection, Node, RowResponse, Triple,
};
use crate::ordered::{lemma_ascending_same_elements, strictly_ascending};
use crate::table::{
    anchor_tuples, bucket_ids, cell_holds, cell_neighbors, column_admits, column_bucket, row_holds,
    row_ids, table_tuples,
};

verus! {

/// Anchor coverage and order: rows that meet the contract of `table_rows` carry exactly the
/// anchors that `filter_values` resolves for the same filter, one row each, in the same order.
pub proof fn lemma_rows_follow_anchors(
    nodes: Seq<Node>,
    triples: Seq<Triple>,
    filter: Filter,
    anchors: Seq<i32>,
    rows: Seq<RowResponse>,
)
    requires
        strictly_ascending(anchors),
        forall|n: i32| anchors.contains(n) <==> selects_node(nodes, triples, filter, n),
        strictly_ascending(row_ids(rows)),
        forall|n: i32| row_ids(rows).contains(n) <==> selects_node(nodes, triples, filter, n),
    ensures
        rows.len() == anchors.len(),
        forall|i: int| 0 <= i < rows.len() ==> #[trigger] rows[i].node_id == anchors[i],
        forall|i: int, j: int| 0 <= i < j < rows.len() ==> rows[i].node_id != rows[j].node_id,
{
    lemma_ascending_same_elements(row_ids(rows), anchors);
    assert forall|i: int| 0 <= i < rows.len() implies #[trigger] rows[i].node_id == anchors[i] by {
        assert(row_ids(rows)[i] == rows[i].node_id);
    }
    assert forall|i: int, j: int| 0 <= i < j < rows.len() implies rows[i].node_id
        != rows[j].node_id by {
        assert(row_ids(rows)[i] < row_ids(rows)[j]);
    }
}

/// Column completeness: a row that meets the contract carries one cell per declared column,
/// with the declared ids in declared order; when no tuple was fetched, every cell is empty.
pub proof fn lemma_columns_complete(
    row: RowResponse,
    anchor: i32,
    columns: Seq<ColumnDefinition>,
    tuples: Seq<EdgeTuple>,
)
    requires
        row_holds(row, anchor, columns, tuples),
    ensures
        row.columns@.len() == columns.len(),
        forall|j: int| 0 <= j < columns.len() ==> #[trigger] row.columns@[j].id == columns[j].id,
        tuples.len() == 0 ==> forall|j: int|
            0 <= j < columns.len() ==> (#[trigger] row.columns@[j]).values@.len() == 0,
{
    assert forall|j: int| 0 <= j < columns.len() implies #[trigger] row.columns@[j].id
        == columns[j].id by {
        assert(cell_holds(row.columns@[j], columns[j], tuples, anchor));
    }
    if tuples.len() == 0 {
        assert forall|j: int| 0 <= j < columns.len() implies (
        #[trigger] row.columns@[j]).values@.len() == 0 by {
            assert(cell_holds(row.columns@[j], columns[j], tuples, anchor));
            let v = row.columns@[j].values@;
            v.to_multiset_ensures();
            cell_neighbors(tuples, anchor, columns[j].filter).to_multiset_ensures();
        }
    }
}

/// A column with neither a predicate id nor a direction keeps every fetched tuple of its
/// anchor.
pub proof fn lemma_open_column_keeps_all(tuples: Seq<EdgeTuple>, anchor: i32)
    ensures
        cell_neighbors(tuples, anchor, ColumnFilter { direction: None, predicate_id: None })
            == anchor_tuples(tuples, anchor).map_values(|t: EdgeTuple| t.neighbor),
    decreases tuples.len(),
{
    if tuples.len() > 0 {
        lemma_open_column_keeps_all(tuples.drop_last(), anchor);
        let g = anchor_tuples(tuples.drop_last(), anchor);
        assert(g.push(tuples.last()).map_values(|t: EdgeTuple| t.neighbor) =~= g.map_values(
            |t: EdgeTuple| t.neighbor,
        ).push(tuples.last().neighbor));
    }
}

/// A traversal over an empty bucket fetches no tuple, whatever the graph and the anchors.
pub proof fn lemma_empty_bucket_fetches_nothing(
    triples: Seq<Triple>,
    anchors: Seq<i32>,
    d: TraversalDirection,
)
    ensures
        fetched(triples, anchors, Seq::empty(), d) == Seq::<EdgeTuple>::empty(),
    decreases triples.len(),
{
    if triples.len() > 0 {
        lemma_empty_bucket_fetches_nothing(triples.drop_last(), anchors, d);
        assert(triple_tuples(triples.last(), anchors, Seq::empty(), d) =~= Seq::empty());
        assert(fetched(triples, anchors, Seq::empty(), d) =~= Seq::empty());
    }
}

proof fn lemma_no_predicate_ids(columns: Seq<ColumnDefinition>, d: TraversalDirection)
    requires
        forall|j: int| 0 <= j < columns.len() ==> (#[trigger] columns[j]).filter.predicate_id is None,
    ensures
        bucket_ids(columns, d) == Seq::<i32>::empty(),
    decreases columns.len(),
{
    if columns.len() > 0 {
        let c = columns.drop_last();
        assert forall|j: int| 0 <= j < c.len() implies (#[trigger] c[j]).filter.predicate_id is None by {
            assert(c[j] == columns[j]);
        }
        lemma_no_predicate_ids(c, d);
        assert(columns[columns.len() - 1].filter.predicate_id is None);
    }
}

/// A table whose columns carry no predicate id fetches no tuple, so all its cells are empty.
pub proof fn lemma_no_predicates_fetch_nothing(
    triples: Seq<Triple>,
    anchors: Seq<i32>,
    columns: Seq<ColumnDefinition>,
)
    requires
        forall|j: int| 0 <= j < columns.len() ==> (#[trigger] columns[j]).filter.predicate_id is None,
    ensures
        table_tuples(triples, anchors, columns) == Seq::<EdgeTuple>::empty(),
{
    lemma_no_predicate_ids(columns, TraversalDirection::Out);
    lemma_no_predicate_ids(columns, TraversalDirection::In);
    lemma_no_predicate_ids(columns, TraversalDirection::Any);
    lemma_empty_bucket_fetches_nothing(triples, anchors, TraversalDirection::Out);
    lemma_empty_bucket_fetches_nothing(triples, anchors, TraversalDirection::In);
    lemma_empty_bucket_fetches_nothing(triples, anchors, TraversalDirection::Any);
    assert(table_tuples(triples, anchors, columns) =~= Seq::empty());
}

/// The cell of a concatenation is the concatenation of the cells.
proof fn lemma_cell_concat(x: Seq<EdgeTuple>, y: Seq<EdgeTuple>, anchor: i32, f: ColumnFilter)
    ensures
        cell_neighbors(x + y, anchor, f) == cell_neighbors(x, anchor, f) + cell_neighbors(
            y,
            anchor,
            f,
        ),
    decreases y.len(),
{
    if y.len() == 0 {
        assert(x + y =~= x);
        assert(cell_neighbors(x, anchor, f) + cell_neighbors(y, anchor, f) =~= cell_neighbors(
            x,
            anchor,
            f,
        ));
    } else {
        lemma_cell_concat(x, y.drop_last(), anchor, f);
        assert((x + y).drop_last() =~= x + y.drop_last());
        assert((x + y).last() == y.last());
        let cx = cell_neighbors(x, anchor, f);
        let cy = cell_neighbors(y.drop_last(), anchor, f);
        assert((cx + cy).push(y.last().neighbor) =~= cx + cy.push(y.last().neighbor));
    }
}

/// How often `b` occurs in a sequence of ids.
spec fn occurrences(s: Seq<i32>, b: i32) -> nat {
    s.to_multiset().count(b)
}

proof fn lemma_occurrences_concat(x: Seq<i32>, y: Seq<i32>, b: i32)
    ensures
        occurrences(x + y, b) == occurrences(x, b) + occurrences(y, b),
{
    lemma_multiset_commutative(x, y);
}

/// Occurrences of `b` in the cell of the tuples that the first `n` triples yield.
spec fn prefix_count(
    triples: Seq<Triple>,
    n: int,
    anchors: Seq<i32>,
    bucket: Seq<i32>,
    d: TraversalDirection,
    a: i32,
    f: ColumnFilter,
    b: i32,
) -> nat {
    occurrences(cell_neighbors(fetched(triples.subrange(0, n), anchors, bucket, d), a, f), b)
}

proof fn lemma_prefix_step(
    triples: Seq<Triple>,
    n: int,
    anchors: Seq<i32>,
    bucket: Seq<i32>,
    d: TraversalDirection,
    a: i32,
    f: ColumnFilter,
    b: i32,
)
    requires
        0 <= n < triples.len(),
    ensures
        prefix_count(triples, n + 1, anchors, bucket, d, a, f, b) == prefix_count(
            triples,
            n,
            anchors,
            bucket,
            d,
            a,
            f,
            b,
        ) + occurrences(cell_neighbors(triple_tuples(triples[n], anchors, bucket, d), a, f), b),
{
    let pre = triples.subrange(0, n);
    assert(triples.subrange(0, n + 1).drop_last() =~= pre);
    assert(triples.subrange(0, n + 1).last() == triples[n]);
    let x = fetched(pre, anchors, bucket, d);
    let y = triple_tuples(triples[n], anchors, bucket, d);
    lemma_cell_concat(x, y, a, f);
    lemma_occurrences_concat(cell_neighbors(x, a, f), cell_neighbors(y, a, f), b);
}

proof fn lemma_prefix_monotone(
    triples: Seq<Triple>,
    n: int,
    m: int,
    anchors: Seq<i32>,
    bucket: Seq<i32>,
    d: TraversalDirection,
    a: i32,
    f: ColumnFilter,
    b: i32,
)
    requires
        0 <= n <= m <= triples.len(),
    ensures
        prefix_count(triples, m, anchors, bucket, d, a, f, b) >= prefix_count(
            triples,
            n,
            anchors,
            bucket,
            d,
            a,
            f,
            b,
        ),
    decreases m - n,
{
    if n < m {
        lemma_prefix_monotone(triples, n, m - 1, anchors, bucket, d, a, f, b);
        lemma_prefix_step(triples, m - 1, anchors, bucket, d, a, f, b);
    }
}

proof fn lemma_bucket_has(columns: Seq<ColumnDefinition>, c: int, p: i32)
    requires
        0 <= c < columns.len(),
        columns[c].filter.predicate_id == Some(p),
    ensures
        bucket_ids(columns, column_bucket(columns[c].filter)).contains(p),
    decreases columns.len(),
{
    let d = column_bucket(columns[c].filter);
    let rest = bucket_ids(columns.drop_last(), d);
    if c == columns.len() - 1 {
        assert(rest.push(p)[rest.len() as int] == p);
    } else {
        assert(columns.drop_last()[c] == columns[c]);
        lemma_bucket_has(columns.drop_last(), c, p);
        let k = choose|k: int| 0 <= k < rest.len() && rest[k] == p;
        let f = columns.last().filter;
        if f.predicate_id is Some && column_bucket(f) == d {
            assert(rest.push(f.predicate_id->Some_0)[k] == p);
        }
    }
}

/// Multiplicity: two equal triples `a -p-> b` make `b` occur at least twice in the cell of
/// anchor `a` for a column that asks for predicate `p` outgoing or in either direction.
pub proof fn lemma_parallel_edges_repeat(
    triples: Seq<Triple>,
    anchors: Seq<i32>,
    columns: Seq<ColumnDefinition>,
    c: int,
    i: int,
    j: int,
)
    requires
        0 <= i < j < triples.len(),
        triples[i] == triples[j],
        anchors.contains(triples[i].subject_id),
        0 <= c < columns.len(),
        columns[c].filter.predicate_id == Some(triples[i].predicate_id),
        columns[c].filter.direction != Some(GraphDirection::In),
    ensures
        cell_neighbors(
            table_tuples(triples, anchors, columns),
            triples[i].subject_id,
            columns[c].filter,
        ).to_multiset().count(triples[i].object_id) >= 2,
{
    let t = triples[i];
    let a = t.subject_id;
    let b = t.object_id;
    let f = columns[c].filter;
    let d = column_bucket(f);
    lemma_bucket_has(columns, c, t.predicate_id);
    let bucket = bucket_ids(columns, d);
    let e = edge(a, b, t.predicate_id, d);
    let yt = triple_tuples(t, anchors, bucket, d);
    assert(cell_neighbors(seq![e], a, f) =~= seq![b]) by {
        assert(seq![e].drop_last() =~= Seq::<EdgeTuple>::empty());
        assert(seq![e].last() == e);
        assert(column_admits(f, e));
        assert(cell_neighbors(Seq::<EdgeTuple>::empty(), a, f) =~= Seq::<i32>::empty());
        assert(Seq::<i32>::empty().push(b) =~= seq![b]);
    }
    if d == TraversalDirection::Out {
        assert(yt =~= seq![e]);
    } else {
        assert(yt =~= seq![e] + yt.subrange(1, yt.len() as int));
    }
    lemma_cell_concat(seq![e], yt.subrange(1, yt.len() as int), a, f);
    if d == TraversalDirection::Out {
        assert(yt.subrange(1, yt.len() as int) =~= Seq::<EdgeTuple>::empty());
    }
    lemma_occurrences_concat(
        seq![b],
        cell_neighbors(yt.subrange(1, yt.len() as int), a, f),
        b,
    );
    assert(seq![e] + yt.subrange(1, yt.len() as int) =~= yt);
    assert(occurrences(seq![b], b) == 1) by {
        assert(seq![b] =~= Seq::<i32>::empty().push(b));
        vstd::seq_lib::to_multiset_build(Seq::<i32>::empty(), b);
        Seq::<i32>::empty().to_multiset_ensures();
    }
    assert(occurrences(cell_neighbors(yt, a, f), b) >= 1);
    lemma_prefix_step(triples, i, anchors, bucket, d, a, f, b);
    lemma_prefix_monotone(triples, i + 1, j, anchors, bucket, d, a, f, b);
    lemma_prefix_step(triples, j, anchors, bucket, d, a, f, b);
    lemma_prefix_monotone(triples, j + 1, triples.len() as int, anchors, bucket, d, a, f, b);
    assert(triples.subrange(0, triples.len() as int) =~= triples);
    let fo = fetched(triples, anchors, bucket_ids(columns, TraversalDirection::Out), TraversalDirection::Out);
    let fi = fetched(triples, anchors, bucket_ids(columns, TraversalDirection::In), TraversalDirection::In);
    let fa = fetched(triples, anchors, bucket_ids(columns, TraversalDirection::Any), TraversalDirection::Any);
    lemma_cell_concat(fo + fi, fa, a, f);
    lemma_cell_concat(fo, fi, a, f);
    lemma_occurrences_concat(cell_neighbors(fo + fi, a, f), cell_neighbors(fa, a, f), b);
    lemma_occurrences_concat(cell_neighbors(fo, a, f), cell_neighbors(fi, a, f), b);
}

} // verus!
