use vstd::prelude::*;

use crate::laws::lemma_empty_bucket_fetches_nothing;
use crate::model::{Filter, GraphDirection, Node, Triple};
use crate::ordered::{
    ascending, contains_id, contains_sorted, insert_unique, sorted_unique, strictly_ascending,
};

verus! {

/// Which traversal produced an edge: outgoing, incoming, or either way.
#[derive(Clone, Copy, Debug, PartialEq, Eq, Structural)]
pub enum TraversalDirection {
    Out,
    In,
    Any,
}

/// An edge seen from an anchor: the node at its other end, its predicate, and the traversal
/// that found it.
#[derive(Clone, Copy, Debug, PartialEq, Eq, Structural)]
pub struct EdgeTuple {
    pub anchor: i32,
    pub neighbor: i32,
    pub predicate: i32,
    pub direction: TraversalDirection,
}

/// A consistent read of one workspace's graph: its nodes and its triples.
#[derive(Clone, Debug)]
pub struct GraphSnapshot {
    pub nodes: Vec<Node>,
    pub triples: Vec<Triple>,
}

/// An unset predicate admits every predicate id.
pub open spec fn predicate_admits(p: Option<i32>, id: i32) -> bool {
    match p {
        None => true,
        Some(q) => q == id,
    }
}

/// Triple `t` puts node `n` into the anchor set of a traversal filter `f`. Without a node id,
/// `Out` selects subjects and `In` objects; with one, the direction is read from that node:
/// `Out` selects the targets of its edges and `In` their sources.
pub open spec fn triple_selects(f: Filter, t: Triple, n: i32) -> bool {
    &&& predicate_admits(f.predicate, t.predicate_id)
    &&& match f.node_id {
        None => match f.direction {
            Some(GraphDirection::Out) => n == t.subject_id,
            Some(GraphDirection::In) => n == t.object_id,
            None => n == t.subject_id || n == t.object_id,
        },
        Some(x) => match f.direction {
            Some(GraphDirection::Out) => t.subject_id == x && n == t.object_id,
            Some(GraphDirection::In) => t.object_id == x && n == t.subject_id,
            None => (t.subject_id == x && n == t.object_id) || (t.object_id == x && n
                == t.subject_id),
        },
    }
}

/// A filter with a predicate or a direction is a one-hop traversal over the triples.
pub open spec fn is_traversal(f: Filter) -> bool {
    f.predicate is Some || f.direction is Some
}

/// Node `n` belongs to the anchor set of `f`: with no traversal, the given node id (whether or
/// not it exists) or else every node; with one, every node that some triple selects.
pub open spec fn selects_node(nodes: Seq<Node>, triples: Seq<Triple>, f: Filter, n: i32) -> bool {
    if is_traversal(f) {
        exists|i: int| 0 <= i < triples.len() && #[trigger] triple_selects(f, triples[i], n)
    } else {
        match f.node_id {
            Some(x) => n == x,
            None => exists|i: int| 0 <= i < nodes.len() && #[trigger] nodes[i].node_id == n,
        }
    }
}

/// The tuple for an edge seen from `anchor`.
pub open spec fn edge(anchor: i32, neighbor: i32, predicate: i32, d: TraversalDirection) -> EdgeTuple {
    EdgeTuple { anchor, neighbor, predicate, direction: d }
}

/// The tuples that one triple yields to a traversal in direction `d` over the predicates of
/// `bucket`, from the anchors in `anchors`. An undirected traversal sees an edge from each
/// anchor at its ends, and a loop once.
pub open spec fn triple_tuples(
    t: Triple,
    anchors: Seq<i32>,
    bucket: Seq<i32>,
    d: TraversalDirection,
) -> Seq<EdgeTuple> {
    let s = t.subject_id;
    let o = t.object_id;
    let p = t.predicate_id;
    if !bucket.contains(p) {
        Seq::empty()
    } else {
        match d {
            TraversalDirection::Out => if anchors.contains(s) {
                seq![edge(s, o, p, d)]
            } else {
                Seq::empty()
            },
            TraversalDirection::In => if anchors.contains(o) {
                seq![edge(o, s, p, d)]
            } else {
                Seq::empty()
            },
            TraversalDirection::Any => (if anchors.contains(s) {
                seq![edge(s, o, p, d)]
            } else {
                Seq::empty()
            }) + (if anchors.contains(o) && o != s {
                seq![edge(o, s, p, d)]
            } else {
                Seq::empty()
            }),
        }
    }
}

/// What one bulk traversal yields, triple by triple.
pub open spec fn fetched(
    triples: Seq<Triple>,
    anchors: Seq<i32>,
    bucket: Seq<i32>,
    d: TraversalDirection,
) -> Seq<EdgeTuple>
    decreases triples.len(),
{
    if triples.len() == 0 {
        Seq::empty()
    } else {
        fetched(triples.drop_last(), anchors, bucket, d) + triple_tuples(
            triples.last(),
            anchors,
            bucket,
            d,
        )
    }
}

fn admits(p: Option<i32>, id: i32) -> (r: bool)
    ensures
        r == predicate_admits(p, id),
{
    match p {
        None => true,
        Some(q) => q == id,
    }
}

fn selects(f: &Filter, t: &Triple, n: i32) -> (r: bool)
    ensures
        r == triple_selects(*f, *t, n),
{
    if !admits(f.predicate, t.predicate_id) {
        return false;
    }
    match f.node_id {
        None => match f.direction {
            Some(GraphDirection::Out) => n == t.subject_id,
            Some(GraphDirection::In) => n == t.object_id,
            None => n == t.subject_id || n == t.object_id,
        },
        Some(x) => match f.direction {
            Some(GraphDirection::Out) => t.subject_id == x && n == t.object_id,
            Some(GraphDirection::In) => t.object_id == x && n == t.subject_id,
            None => (t.subject_id == x && n == t.object_id) || (t.object_id == x && n
                == t.subject_id),
        },
    }
}

impl GraphSnapshot {
    /// Resolves a root filter into its anchor set: distinct node ids in ascending order.
    pub fn filter_values(&self, filter: Filter) -> (r: Vec<i32>)
        ensures
            strictly_ascending(r@),
            forall|n: i32| r@.contains(n) <==> selects_node(self.nodes@, self.triples@, filter, n),
    {
        if filter.predicate.is_none() && filter.direction.is_none() {
            match filter.node_id {
                Some(x) => {
                    let r = vec![x];
                    assert(r@[0] == x);
                    r
                },
                None => {
                    let mut ids: Vec<i32> = Vec::new();
                    let mut i: usize = 0;
                    while i < self.nodes.len()
                        invariant
                            i <= self.nodes@.len(),
                            ids@.len() == i,
                            forall|k: int| 0 <= k < i ==> ids@[k] == self.nodes@[k].node_id,
                        decreases self.nodes@.len() - i,
                    {
                        ids.push(self.nodes[i].node_id);
                        i += 1;
                    }
                    let r = sorted_unique(&ids);
                    assert forall|n: i32| r@.contains(n) <==> selects_node(
                        self.nodes@,
                        self.triples@,
                        filter,
                        n,
                    ) by {
                        if ids@.contains(n) {
                            let k = choose|k: int| 0 <= k < ids@.len() && ids@[k] == n;
                            assert(self.nodes@[k].node_id == n);
                        }
                        if selects_node(self.nodes@, self.triples@, filter, n) {
                            let k = choose|k: int|
                                0 <= k < self.nodes@.len() && #[trigger] self.nodes@[k].node_id
                                    == n;
                            assert(ids@[k] == n);
                        }
                    }
                    r
                },
            }
        } else {
            let mut r: Vec<i32> = Vec::new();
            let mut i: usize = 0;
            while i < self.triples.len()
                invariant
                    i <= self.triples@.len(),
                    is_traversal(filter),
                    strictly_ascending(r@),
                    forall|n: i32|
                        r@.contains(n) <==> exists|k: int|
                            0 <= k < i && #[trigger] triple_selects(filter, self.triples@[k], n),
                decreases self.triples@.len() - i,
            {
                let t = self.triples[i];
                let ghost r0 = r@;
                if selects(&filter, &t, t.subject_id) {
                    insert_unique(&mut r, t.subject_id);
                }
                if selects(&filter, &t, t.object_id) {
                    insert_unique(&mut r, t.object_id);
                }
                assert forall|n: i32|
                    r@.contains(n) <==> exists|k: int|
                        0 <= k < i + 1 && #[trigger] triple_selects(
                            filter,
                            self.triples@[k],
                            n,
                        ) by {
                    if triple_selects(filter, t, n) {
                        assert(n == t.subject_id || n == t.object_id);
                    }
                    if r0.contains(n) {
                        let k = choose|k: int|
                            0 <= k < i && #[trigger] triple_selects(filter, self.triples@[k], n);
                        assert(0 <= k < i + 1);
                    }
                    if exists|k: int|
                        0 <= k < i + 1 && #[trigger] triple_selects(filter, self.triples@[k], n) {
                        let k = choose|k: int|
                            0 <= k < i + 1 && #[trigger] triple_selects(
                                filter,
                                self.triples@[k],
                                n,
                            );
                        if k < i {
                            assert(r0.contains(n));
                        }
                    }
                }
                i += 1;
            }
            r
        }
    }

    /// One bulk traversal in direction `d` from every anchor, over the predicates of `bucket`.
    /// An empty bucket fetches nothing.
    pub fn fetch_edges(&self, anchors: &Vec<i32>, bucket: &Vec<i32>, d: TraversalDirection) -> (r:
        Vec<EdgeTuple>)
        requires
            ascending(anchors@),
        ensures
            r@ == fetched(self.triples@, anchors@, bucket@, d),
    {
        let mut r: Vec<EdgeTuple> = Vec::new();
        if bucket.len() == 0 {
            proof {
                assert(bucket@ =~= Seq::<i32>::empty());
                lemma_empty_bucket_fetches_nothing(self.triples@, anchors@, d);
            }
            return r;
        }
        let mut i: usize = 0;
        while i < self.triples.len()
            invariant
                i <= self.triples@.len(),
                ascending(anchors@),
                r@ == fetched(self.triples@.subrange(0, i as int), anchors@, bucket@, d),
            decreases self.triples@.len() - i,
        {
            let t = self.triples[i];
            let ghost r0 = r@;
            if contains_id(bucket, t.predicate_id) {
                let s = t.subject_id;
                let o = t.object_id;
                let p = t.predicate_id;
                match d {
                    TraversalDirection::Out => {
                        if contains_sorted(anchors, s) {
                            r.push(EdgeTuple { anchor: s, neighbor: o, predicate: p, direction: d });
                        }
                    },
                    TraversalDirection::In => {
                        if contains_sorted(anchors, o) {
                            r.push(EdgeTuple { anchor: o, neighbor: s, predicate: p, direction: d });
                        }
                    },
                    TraversalDirection::Any => {
                        if contains_sorted(anchors, s) {
                            r.push(EdgeTuple { anchor: s, neighbor: o, predicate: p, direction: d });
                        }
                        if o != s && contains_sorted(anchors, o) {
                            r.push(EdgeTuple { anchor: o, neighbor: s, predicate: p, direction: d });
                        }
                    },
                }
            }
            proof {
                let pre = self.triples@.subrange(0, i as int);
                let next = self.triples@.subrange(0, i + 1);
                assert(next.drop_last() =~= pre);
                assert(next.last() == t);
                assert(r@ =~= r0 + triple_tuples(t, anchors@, bucket@, d));
            }
            i += 1;
        }
        assert(self.triples@.subrange(0, i as int) =~= self.triples@);
        r
    }
}

} // verus!
