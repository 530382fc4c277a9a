use vstd::prelude::*;

use crate::graph::{
    fetched, predicate_admits, selects_node, EdgeTuple, GraphSnapshot, TraversalDirection,
};
use crate::model::{
    CellResponse, ColumnDefinition, ColumnFilter, GraphDirection, RowResponse, TableDefinition,
    Triple,
};
use crate::ordered::{ascending, insert_sorted, position_sorted, strictly_ascending};

verus! {

/// The predicate ids of a table's columns, grouped by the traversal that serves them.
#[derive(Clone, Debug)]
pub struct PredicateBuckets {
    pub out_ids: Vec<i32>,
    pub in_ids: Vec<i32>,
    pub any_ids: Vec<i32>,
}

/// The traversal that serves a column: its declared direction, or either way when unset.
pub open spec fn column_bucket(f: ColumnFilter) -> TraversalDirection {
    match f.direction {
        Some(GraphDirection::Out) => TraversalDirection::Out,
        Some(GraphDirection::In) => TraversalDirection::In,
        None => TraversalDirection::Any,
    }
}

/// The predicate ids of the columns served by traversal `d`, in column order. A column without
/// a predicate id adds nothing.
pub open spec fn bucket_ids(columns: Seq<ColumnDefinition>, d: TraversalDirection) -> Seq<i32>
    decreases columns.len(),
{
    if columns.len() == 0 {
        Seq::empty()
    } else {
        let rest = bucket_ids(columns.drop_last(), d);
        let f = columns.last().filter;
        match f.predicate_id {
            Some(p) => if column_bucket(f) == d {
                rest.push(p)
            } else {
                rest
            },
            None => rest,
        }
    }
}

/// A column keeps a tuple whose direction tag and predicate agree with its set fields.
pub open spec fn column_admits(f: ColumnFilter, t: EdgeTuple) -> bool {
    &&& match f.direction {
        None => true,
        Some(GraphDirection::Out) => t.direction == TraversalDirection::Out,
        Some(GraphDirection::In) => t.direction == TraversalDirection::In,
    }
    &&& predicate_admits(f.predicate_id, t.predicate)
}

/// The tuples of `anchor`, in fetch order.
pub open spec fn anchor_tuples(tuples: Seq<EdgeTuple>, anchor: i32) -> Seq<EdgeTuple>
    decreases tuples.len(),
{
    if tuples.len() == 0 {
        Seq::empty()
    } else {
        let rest = anchor_tuples(tuples.drop_last(), anchor);
        if tuples.last().anchor == anchor {
            rest.push(tuples.last())
        } else {
            rest
        }
    }
}

/// The neighbours of `anchor` in the tuples that a column with filter `f` keeps, one per tuple.
pub open spec fn cell_neighbors(tuples: Seq<EdgeTuple>, anchor: i32, f: ColumnFilter) -> Seq<i32>
    decreases tuples.len(),
{
    if tuples.len() == 0 {
        Seq::empty()
    } else {
        let rest = cell_neighbors(tuples.drop_last(), anchor, f);
        let t = tuples.last();
        if t.anchor == anchor && column_admits(f, t) {
            rest.push(t.neighbor)
        } else {
            rest
        }
    }
}

/// A cell for column `col` of `anchor`: the column's id, and the kept neighbours in ascending
/// order with repeats.
pub open spec fn cell_holds(
    cell: CellResponse,
    col: ColumnDefinition,
    tuples: Seq<EdgeTuple>,
    anchor: i32,
) -> bool {
    &&& cell.id == col.id
    &&& ascending(cell.values@)
    &&& cell.values@.to_multiset() == cell_neighbors(tuples, anchor, col.filter).to_multiset()
}

/// A row for `anchor`: one cell per declared column, in declared order.
pub open spec fn row_holds(
    row: RowResponse,
    anchor: i32,
    columns: Seq<ColumnDefinition>,
    tuples: Seq<EdgeTuple>,
) -> bool {
    &&& row.node_id == anchor
    &&& row.columns@.len() == columns.len()
    &&& forall|j: int|
        0 <= j < columns.len() ==> #[trigger] cell_holds(row.columns@[j], columns[j], tuples, anchor)
}

/// The node ids of the rows, in order.
pub open spec fn row_ids(rows: Seq<RowResponse>) -> Seq<i32> {
    rows.map_values(|r: RowResponse| r.node_id)
}

/// All tuples fetched for a table: the outgoing, incoming and undirected traversals, in that
/// order, with no deduplication across them.
pub open spec fn table_tuples(
    triples: Seq<Triple>,
    anchors: Seq<i32>,
    columns: Seq<ColumnDefinition>,
) -> Seq<EdgeTuple> {
    fetched(triples, anchors, bucket_ids(columns, TraversalDirection::Out), TraversalDirection::Out)
        + fetched(triples, anchors, bucket_ids(columns, TraversalDirection::In), TraversalDirection::In)
        + fetched(triples, anchors, bucket_ids(columns, TraversalDirection::Any), TraversalDirection::Any)
}

/// Sorts the predicate id of each column into the bucket of the traversal that serves it.
pub fn classify_columns(columns: &Vec<ColumnDefinition>) -> (b: PredicateBuckets)
    ensures
        b.out_ids@ == bucket_ids(columns@, TraversalDirection::Out),
        b.in_ids@ == bucket_ids(columns@, TraversalDirection::In),
        b.any_ids@ == bucket_ids(columns@, TraversalDirection::Any),
{
    let mut out_ids: Vec<i32> = Vec::new();
    let mut in_ids: Vec<i32> = Vec::new();
    let mut any_ids: Vec<i32> = Vec::new();
    let mut i: usize = 0;
    while i < columns.len()
        invariant
            i <= columns@.len(),
            out_ids@ == bucket_ids(columns@.subrange(0, i as int), TraversalDirection::Out),
            in_ids@ == bucket_ids(columns@.subrange(0, i as int), TraversalDirection::In),
            any_ids@ == bucket_ids(columns@.subrange(0, i as int), TraversalDirection::Any),
        decreases columns@.len() - i,
    {
        let col = columns[i];
        match col.filter.predicate_id {
            Some(pid) => match col.filter.direction {
                Some(GraphDirection::Out) => out_ids.push(pid),
                Some(GraphDirection::In) => in_ids.push(pid),
                None => any_ids.push(pid),
            },
            None => {},
        }
        proof {
            assert(columns@.subrange(0, i + 1).drop_last() =~= columns@.subrange(0, i as int));
        }
        i += 1;
    }
    assert(columns@.subrange(0, i as int) =~= columns@);
    PredicateBuckets { out_ids, in_ids, any_ids }
}

fn admits_tuple(f: &ColumnFilter, t: &EdgeTuple) -> (r: bool)
    ensures
        r == column_admits(*f, *t),
{
    let direction_ok = match f.direction {
        None => true,
        Some(GraphDirection::Out) => t.direction == TraversalDirection::Out,
        Some(GraphDirection::In) => t.direction == TraversalDirection::In,
    };
    let predicate_ok = match f.predicate_id {
        None => true,
        Some(p) => t.predicate == p,
    };
    direction_ok && predicate_ok
}

/// Keeping the tuples of `anchor` first changes no cell of `anchor`.
proof fn lemma_cell_of_group(tuples: Seq<EdgeTuple>, anchor: i32, f: ColumnFilter)
    ensures
        cell_neighbors(anchor_tuples(tuples, anchor), anchor, f) == cell_neighbors(tuples, anchor, f),
    decreases tuples.len(),
{
    if tuples.len() > 0 {
        lemma_cell_of_group(tuples.drop_last(), anchor, f);
        let g = anchor_tuples(tuples.drop_last(), anchor);
        if tuples.last().anchor == anchor {
            assert(g.push(tuples.last()).drop_last() =~= g);
        }
    }
}

/// The cell of column `col` for `anchor`, from the tuples fetched for that anchor.
fn build_cell(group: &Vec<EdgeTuple>, anchor: i32, col: &ColumnDefinition) -> (c: CellResponse)
    ensures
        cell_holds(c, *col, group@, anchor),
{
    let mut values: Vec<i32> = Vec::new();
    let mut i: usize = 0;
    while i < group.len()
        invariant
            i <= group@.len(),
            ascending(values@),
            values@.to_multiset() == cell_neighbors(
                group@.subrange(0, i as int),
                anchor,
                col.filter,
            ).to_multiset(),
        decreases group@.len() - i,
    {
        let t = group[i];
        if t.anchor == anchor && admits_tuple(&col.filter, &t) {
            insert_sorted(&mut values, t.neighbor);
            proof {
                vstd::seq_lib::to_multiset_build(
                    cell_neighbors(group@.subrange(0, i as int), anchor, col.filter),
                    t.neighbor,
                );
            }
        }
        proof {
            assert(group@.subrange(0, i + 1).drop_last() =~= group@.subrange(0, i as int));
        }
        i += 1;
    }
    assert(group@.subrange(0, i as int) =~= group@);
    CellResponse { id: col.id, values }
}

/// The row of `anchor`: one cell per declared column, in declared order.
fn build_row(group: &Vec<EdgeTuple>, anchor: i32, columns: &Vec<ColumnDefinition>) -> (r:
    RowResponse)
    ensures
        row_holds(r, anchor, columns@, group@),
{
    let mut cells: Vec<CellResponse> = Vec::new();
    let mut j: usize = 0;
    while j < columns.len()
        invariant
            j <= columns@.len(),
            cells@.len() == j,
            forall|k: int|
                0 <= k < j ==> #[trigger] cell_holds(cells@[k], columns@[k], group@, anchor),
        decreases columns@.len() - j,
    {
        let c = build_cell(group, anchor, &columns[j]);
        cells.push(c);
        j += 1;
    }
    RowResponse { node_id: anchor, columns: cells }
}

/// Groups the tuples by anchor, then builds one row per anchor in the given order, with one
/// cell per column. Anchors without tuples still get a row, and columns without matches an
/// empty cell.
pub fn assemble_rows(
    anchors: &Vec<i32>,
    tuples: &Vec<EdgeTuple>,
    columns: &Vec<ColumnDefinition>,
) -> (rows: Vec<RowResponse>)
    requires
        strictly_ascending(anchors@),
    ensures
        rows@.len() == anchors@.len(),
        forall|i: int|
            0 <= i < anchors@.len() ==> #[trigger] row_holds(
                rows@[i],
                anchors@[i],
                columns@,
                tuples@,
            ),
{
    let mut groups: Vec<Vec<EdgeTuple>> = Vec::new();
    let mut k: usize = 0;
    while k < anchors.len()
        invariant
            k <= anchors@.len(),
            groups@.len() == k,
            forall|m: int| 0 <= m < k ==> (#[trigger] groups@[m])@ == Seq::<EdgeTuple>::empty(),
        decreases anchors@.len() - k,
    {
        groups.push(Vec::new());
        k += 1;
    }
    assert forall|m: int| 0 <= m < anchors@.len() implies (#[trigger] groups@[m])@ =~= anchor_tuples(
        tuples@.subrange(0, 0),
        anchors@[m],
    ) by {}
    let mut i: usize = 0;
    while i < tuples.len()
        invariant
            i <= tuples@.len(),
            strictly_ascending(anchors@),
            groups@.len() == anchors@.len(),
            forall|m: int|
                0 <= m < anchors@.len() ==> (#[trigger] groups@[m])@ == anchor_tuples(
                    tuples@.subrange(0, i as int),
                    anchors@[m],
                ),
        decreases tuples@.len() - i,
    {
        let t = tuples[i];
        let ghost g0 = groups@;
        match position_sorted(anchors, t.anchor) {
            Some(m) => {
                groups[m].push(t);
            },
            None => {},
        }
        proof {
            assert(tuples@.subrange(0, i + 1).drop_last() =~= tuples@.subrange(0, i as int));
            assert forall|m: int| 0 <= m < anchors@.len() implies (#[trigger] groups@[m])@
                == anchor_tuples(tuples@.subrange(0, i + 1), anchors@[m]) by {
                if anchors@[m] == t.anchor {
                    assert(anchors@.contains(t.anchor));
                }
            }
        }
        i += 1;
    }
    assert(tuples@.subrange(0, i as int) =~= tuples@);
    let mut rows: Vec<RowResponse> = Vec::new();
    let mut k: usize = 0;
    while k < anchors.len()
        invariant
            k <= anchors@.len(),
            groups@.len() == anchors@.len(),
            forall|m: int|
                0 <= m < anchors@.len() ==> (#[trigger] groups@[m])@ == anchor_tuples(
                    tuples@,
                    anchors@[m],
                ),
            rows@.len() == k,
            forall|m: int|
                0 <= m < k ==> #[trigger] row_holds(rows@[m], anchors@[m], columns@, tuples@),
        decreases anchors@.len() - k,
    {
        let row = build_row(&groups[k], anchors[k], columns);
        proof {
            assert forall|j: int| 0 <= j < columns@.len() implies #[trigger] cell_holds(
                row.columns@[j],
                columns@[j],
                tuples@,
                anchors@[k as int],
            ) by {
                assert(cell_holds(row.columns@[j], columns@[j], groups@[k as int]@, anchors@[k as int]));
                lemma_cell_of_group(tuples@, anchors@[k as int], columns@[j].filter);
            }
        }
        rows.push(row);
        k += 1;
    }
    rows
}

impl GraphSnapshot {
    /// Computes a table: one row per anchor of the root filter, in ascending anchor order, with
    /// one cell per declared column. Each traversal bucket is fetched once for all anchors; an
    /// empty anchor set fetches nothing and gives no rows.
    pub fn table_rows(&self, table_def: TableDefinition) -> (rows: Vec<RowResponse>)
        ensures
            strictly_ascending(row_ids(rows@)),
            forall|n: i32|
                row_ids(rows@).contains(n) <==> selects_node(
                    self.nodes@,
                    self.triples@,
                    table_def.filter,
                    n,
                ),
            forall|i: int|
                0 <= i < rows@.len() ==> #[trigger] row_holds(
                    rows@[i],
                    rows@[i].node_id,
                    table_def.columns@,
                    table_tuples(self.triples@, row_ids(rows@), table_def.columns@),
                ),
    {
        let nodes_id = self.filter_values(table_def.filter);
        if nodes_id.len() == 0 {
            let rows: Vec<RowResponse> = Vec::new();
            assert(row_ids(rows@) =~= nodes_id@);
            return rows;
        }
        let buckets = classify_columns(&table_def.columns);
        let mut tuples = self.fetch_edges(&nodes_id, &buckets.out_ids, TraversalDirection::Out);
        let mut in_tuples = self.fetch_edges(&nodes_id, &buckets.in_ids, TraversalDirection::In);
        let mut any_tuples = self.fetch_edges(&nodes_id, &buckets.any_ids, TraversalDirection::Any);
        tuples.append(&mut in_tuples);
        tuples.append(&mut any_tuples);
        let rows = assemble_rows(&nodes_id, &tuples, &table_def.columns);
        assert forall|i: int| 0 <= i < rows@.len() implies row_ids(rows@)[i] == nodes_id@[i] by {
            assert(row_holds(rows@[i], nodes_id@[i], table_def.columns@, tuples@));
        }
        assert(row_ids(rows@) =~= nodes_id@);
        assert(tuples@ == table_tuples(self.triples@, nodes_id@, table_def.columns@));
        assert forall|i: int| 0 <= i < rows@.len() implies #[trigger] row_holds(
            rows@[i],
            rows@[i].node_id,
            table_def.columns@,
            table_tuples(self.triples@, row_ids(rows@), table_def.columns@),
        ) by {
            assert(row_holds(rows@[i], nodes_id@[i], table_def.columns@, tuples@));
        }
        rows
    }
}

} // verus!
