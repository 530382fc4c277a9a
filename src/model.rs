use std::collections::HashMap;
use vstd::prelude::*;

verus! {

/// Direction of an edge as seen from a node: leaving it or entering it.
#[derive(Clone, Copy, Debug, PartialEq, Eq, Structural)]
pub enum GraphDirection {
    In,
    Out,
}

impl GraphDirection {
    /// The lower-case name of the direction.
    pub fn to_string(&self) -> (r: String)
        ensures
            r@ == (match self {
                GraphDirection::In => "in"@,
                GraphDirection::Out => "out"@,
            }),
    {
        match self {
            GraphDirection::In => String::from_str("in"),
            GraphDirection::Out => String::from_str("out"),
        }
    }
}

/// A user of the service.
#[derive(Clone, Debug)]
pub struct UserData {
    pub id: i32,
    pub name: String,
}

/// A labelled node of the graph.
#[derive(Clone, Debug)]
pub struct Node {
    pub node_id: i32,
    pub label: String,
}

/// A labelled edge kind.
#[derive(Clone, Debug)]
pub struct Predicate {
    pub id: i32,
    pub label: String,
}

/// A directed edge `subject -predicate-> object`.
#[derive(Clone, Copy, Debug, PartialEq, Eq, Structural)]
pub struct Triple {
    pub subject_id: i32,
    pub predicate_id: i32,
    pub object_id: i32,
}

/// What a column keeps of the edges fetched for its anchor. An unset field keeps everything.
#[derive(Clone, Copy, Debug, PartialEq, Eq, Structural)]
pub struct ColumnFilter {
    pub direction: Option<GraphDirection>,
    pub predicate_id: Option<i32>,
}

/// A declared column: its id, unique within its table, and its filter.
#[derive(Clone, Copy, Debug, PartialEq, Eq, Structural)]
pub struct ColumnDefinition {
    pub id: i32,
    pub filter: ColumnFilter,
}

/// The root filter that selects the anchor nodes of a table.
#[derive(Clone, Copy, Debug, PartialEq, Eq, Structural)]
pub struct Filter {
    pub node_id: Option<i32>,
    pub predicate: Option<i32>,
    pub direction: Option<GraphDirection>,
}

/// A table: a label, the root filter, and the columns in output order.
#[derive(Clone, Debug)]
pub struct TableDefinition {
    pub label: String,
    pub filter: Filter,
    pub columns: Vec<ColumnDefinition>,
}

/// One cell of a row: the column id and the neighbour ids found for it.
#[derive(Clone, Debug)]
pub struct CellResponse {
    pub id: i32,
    pub values: Vec<i32>,
}

/// One row of a table: the anchor node and one cell per declared column.
#[derive(Clone, Debug)]
pub struct RowResponse {
    pub node_id: i32,
    pub columns: Vec<CellResponse>,
}

/// The id of a node that was just created.
#[derive(Clone, Copy, Debug, PartialEq, Eq, Structural)]
pub struct NodeResponse {
    pub node_id: i32,
}

/// The label of a node to create.
#[derive(Clone, Debug)]
pub struct NewNode {
    pub label: String,
}

/// The label of a predicate to create.
#[derive(Clone, Debug)]
pub struct PostPredicate {
    pub label: String,
}

/// A node as listed in a table, with its label when known.
#[derive(Clone, Debug)]
pub struct TableRow {
    pub node_id: i32,
    pub label: Option<String>,
}

/// A stored table definition together with its computed rows.
#[derive(Clone, Debug)]
pub struct Table {
    pub id: i32,
    pub def: TableDefinition,
    pub rows: Vec<RowResponse>,
}

/// A stored setting: its tables by id, its owner and its name.
pub struct SettingData {
    pub tables: HashMap<i32, TableDefinition>,
    pub user_id: i32,
    pub name: String,
}

/// A stored workspace: its tables by id, its owner and its name.
pub struct WorkspaceData {
    pub tables: HashMap<i32, TableDefinition>,
    pub user_id: i32,
    pub name: String,
}

} // verus!
