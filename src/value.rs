use vstd::prelude::*;

use crate::graph::{EdgeTuple, TraversalDirection};
use crate::model::{Node, Triple};

verus! {

/// A value read from the graph store, as far as this library reads it.
#[derive(Clone, Debug)]
pub enum QueryValue {
    Int64(i64),
    String(String),
    Other,
}

/// A conversion out of a store value that may fail.
pub trait TryCast<T>: Sized {
    type Error;

    /// The value that the conversion yields, or `None` where it fails.
    spec fn cast_result(&self) -> Option<T>;

    fn try_cast(&self) -> (r: Result<T, Self::Error>)
        ensures
            match self.cast_result() {
                Some(v) => r == Ok::<T, Self::Error>(v),
                None => r is Err,
            },
    ;
}

/// The id that a store value holds: an integer that fits in `i32`.
pub open spec fn int_value(v: QueryValue) -> Option<i32> {
    match v {
        QueryValue::Int64(i) => if i32::MIN <= i <= i32::MAX {
            Some(i as i32)
        } else {
            None
        },
        _ => None,
    }
}

/// The text that a store value holds.
pub open spec fn text_value(v: QueryValue) -> Option<String> {
    match v {
        QueryValue::String(s) => Some(s),
        _ => None,
    }
}

impl TryCast<i32> for QueryValue {
    type Error = String;

    open spec fn cast_result(&self) -> Option<i32> {
        int_value(*self)
    }

    fn try_cast(&self) -> (r: Result<i32, String>) {
        match self {
            QueryValue::Int64(i) => {
                if i32::MIN as i64 <= *i && *i <= i32::MAX as i64 {
                    Ok(*i as i32)
                } else {
                    Err(String::from_str("value does not fit in i32"))
                }
            },
            _ => Err(String::from_str("cannot convert to i32")),
        }
    }
}

impl TryCast<String> for QueryValue {
    type Error = String;

    open spec fn cast_result(&self) -> Option<String> {
        text_value(*self)
    }

    fn try_cast(&self) -> (r: Result<String, String>) {
        match self {
            QueryValue::String(s) => Ok(s.clone()),
            _ => Err(String::from_str("cannot convert to a string")),
        }
    }
}

fn cast_id(v: &QueryValue) -> (r: Option<i32>)
    ensures
        r == int_value(*v),
{
    match <QueryValue as TryCast<i32>>::try_cast(v) {
        Ok(i) => Some(i),
        Err(_) => None,
    }
}

/// The triple that a row `subject, predicate, object` describes, if its first three values are
/// ids.
pub open spec fn triple_of(row: Seq<QueryValue>) -> Option<Triple> {
    if row.len() >= 3 && int_value(row[0]) is Some && int_value(row[1]) is Some && int_value(
        row[2],
    ) is Some {
        Some(
            Triple {
                subject_id: int_value(row[0])->Some_0,
                predicate_id: int_value(row[1])->Some_0,
                object_id: int_value(row[2])->Some_0,
            },
        )
    } else {
        None
    }
}

/// The triples of the rows that describe one, in row order.
pub open spec fn triples_of(rows: Seq<Vec<QueryValue>>) -> Seq<Triple>
    decreases rows.len(),
{
    if rows.len() == 0 {
        Seq::empty()
    } else {
        let rest = triples_of(rows.drop_last());
        match triple_of(rows.last()@) {
            Some(t) => rest.push(t),
            None => rest,
        }
    }
}

/// Reads one row `subject, predicate, object`.
pub fn decode_triple(row: &Vec<QueryValue>) -> (r: Option<Triple>)
    ensures
        r == triple_of(row@),
{
    if row.len() < 3 {
        return None;
    }
    let s = cast_id(&row[0]);
    let p = cast_id(&row[1]);
    let o = cast_id(&row[2]);
    match (s, p, o) {
        (Some(subject_id), Some(predicate_id), Some(object_id)) => Some(
            Triple { subject_id, predicate_id, object_id },
        ),
        _ => None,
    }
}

/// Reads the triples of a result set, skipping the rows that do not describe one.
pub fn decode_triples(rows: &Vec<Vec<QueryValue>>) -> (r: Vec<Triple>)
    ensures
        r@ == triples_of(rows@),
{
    let mut r: Vec<Triple> = Vec::new();
    let mut i: usize = 0;
    while i < rows.len()
        invariant
            i <= rows@.len(),
            r@ == triples_of(rows@.subrange(0, i as int)),
        decreases rows@.len() - i,
    {
        let t = decode_triple(&rows[i]);
        match t {
            Some(t) => r.push(t),
            None => {},
        }
        proof {
            assert(rows@.subrange(0, i + 1).drop_last() =~= rows@.subrange(0, i as int));
        }
        i += 1;
    }
    assert(rows@.subrange(0, i as int) =~= rows@);
    r
}

/// The label of a node row `id, label`: its second value when that is text, else empty.
pub open spec fn label_of(row: Seq<QueryValue>) -> Seq<char> {
    if row.len() >= 2 && text_value(row[1]) is Some {
        text_value(row[1])->Some_0@
    } else {
        Seq::empty()
    }
}

/// The node that a row `id, label` describes: present when its first value is an id.
pub open spec fn node_matches(n: Node, row: Seq<QueryValue>) -> bool {
    &&& row.len() >= 1
    &&& int_value(row[0]) == Some(n.node_id)
    &&& n.label@ == label_of(row)
}

/// Reads one row `id, label`. A label that is missing or not text reads as empty.
pub fn decode_node(row: &Vec<QueryValue>) -> (r: Option<Node>)
    ensures
        match r {
            Some(n) => node_matches(n, row@),
            None => row@.len() == 0 || int_value(row@[0]) is None,
        },
{
    if row.len() == 0 {
        return None;
    }
    let node_id = match cast_id(&row[0]) {
        Some(i) => i,
        None => return None,
    };
    let label = if row.len() >= 2 {
        match <QueryValue as TryCast<String>>::try_cast(&row[1]) {
            Ok(s) => s,
            Err(_) => String::new(),
        }
    } else {
        String::new()
    };
    Some(Node { node_id, label })
}

/// Reads every row of a node result set; `None` when some row holds no node id.
pub fn decode_nodes(rows: &Vec<Vec<QueryValue>>) -> (r: Option<Vec<Node>>)
    ensures
        match r {
            Some(v) => v@.len() == rows@.len() && forall|i: int|
                0 <= i < rows@.len() ==> #[trigger] node_matches(v@[i], rows@[i]@),
            None => exists|i: int|
                0 <= i < rows@.len() && (rows@[i]@.len() == 0 || int_value(
                    #[trigger] rows@[i]@[0],
                ) is None),
        },
{
    let mut v: Vec<Node> = Vec::new();
    let mut i: usize = 0;
    while i < rows.len()
        invariant
            i <= rows@.len(),
            v@.len() == i,
            forall|k: int| 0 <= k < i ==> #[trigger] node_matches(v@[k], rows@[k]@),
        decreases rows@.len() - i,
    {
        match decode_node(&rows[i]) {
            Some(n) => v.push(n),
            None => {
                assert(rows@[i as int]@.len() == 0 || int_value(rows@[i as int]@[0]) is None);
                return None;
            },
        }
        i += 1;
    }
    Some(v)
}

/// The node id that a row holds in its first value.
pub open spec fn id_of(row: Seq<QueryValue>) -> Option<i32> {
    if row.len() >= 1 {
        int_value(row[0])
    } else {
        None
    }
}

fn decode_id(row: &Vec<QueryValue>) -> (r: Option<i32>)
    ensures
        r == id_of(row@),
{
    if row.len() == 0 {
        None
    } else {
        cast_id(&row[0])
    }
}

/// Reads the first value of every row as a node id; `None` when some row holds none.
pub fn decode_ids(rows: &Vec<Vec<QueryValue>>) -> (r: Option<Vec<i32>>)
    ensures
        match r {
            Some(v) => v@.len() == rows@.len() && forall|i: int|
                0 <= i < rows@.len() ==> id_of(rows@[i]@) == Some(#[trigger] v@[i]),
            None => exists|i: int| 0 <= i < rows@.len() && (#[trigger] id_of(rows@[i]@)) is None,
        },
{
    let mut v: Vec<i32> = Vec::new();
    let mut i: usize = 0;
    while i < rows.len()
        invariant
            i <= rows@.len(),
            v@.len() == i,
            forall|k: int| 0 <= k < i ==> id_of(rows@[k]@) == Some(#[trigger] v@[k]),
        decreases rows@.len() - i,
    {
        match decode_id(&rows[i]) {
            Some(id) => v.push(id),
            None => {
                assert(id_of(rows@[i as int]@) is None);
                return None;
            },
        }
        i += 1;
    }
    Some(v)
}

/// The tuple that a row `anchor, neighbour, predicate` of a traversal in direction `d`
/// describes, if its first three values are ids.
pub open spec fn edge_of(row: Seq<QueryValue>, d: TraversalDirection) -> Option<EdgeTuple> {
    if row.len() >= 3 && int_value(row[0]) is Some && int_value(row[1]) is Some && int_value(
        row[2],
    ) is Some {
        Some(
            EdgeTuple {
                anchor: int_value(row[0])->Some_0,
                neighbor: int_value(row[1])->Some_0,
                predicate: int_value(row[2])->Some_0,
                direction: d,
            },
        )
    } else {
        None
    }
}

fn decode_edge(row: &Vec<QueryValue>, d: TraversalDirection) -> (r: Option<EdgeTuple>)
    ensures
        r == edge_of(row@, d),
{
    if row.len() < 3 {
        return None;
    }
    match (cast_id(&row[0]), cast_id(&row[1]), cast_id(&row[2])) {
        (Some(anchor), Some(neighbor), Some(predicate)) => Some(
            EdgeTuple { anchor, neighbor, predicate, direction: d },
        ),
        _ => None,
    }
}

/// Reads the rows `anchor, neighbour, predicate` of one traversal in direction `d`; `None`
/// when some row is malformed, since a partial fetch must not become a partial table.
pub fn decode_edges(rows: &Vec<Vec<QueryValue>>, d: TraversalDirection) -> (r: Option<
    Vec<EdgeTuple>,
>)
    ensures
        match r {
            Some(v) => v@.len() == rows@.len() && forall|i: int|
                0 <= i < rows@.len() ==> edge_of(rows@[i]@, d) == Some(#[trigger] v@[i]),
            None => exists|i: int| 0 <= i < rows@.len() && (#[trigger] edge_of(rows@[i]@, d)) is None,
        },
{
    let mut v: Vec<EdgeTuple> = Vec::new();
    let mut i: usize = 0;
    while i < rows.len()
        invariant
            i <= rows@.len(),
            v@.len() == i,
            forall|k: int| 0 <= k < i ==> edge_of(rows@[k]@, d) == Some(#[trigger] v@[k]),
        decreases rows@.len() - i,
    {
        match decode_edge(&rows[i], d) {
            Some(e) => v.push(e),
            None => {
                assert(edge_of(rows@[i as int]@, d) is None);
                return None;
            },
        }
        i += 1;
    }
    Some(v)
}

} // verus!
