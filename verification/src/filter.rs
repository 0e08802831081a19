//! The selection: which ways are candidates, which of them a
//! barrier disqualifies, and which nodes the remaining ways need.

use std::collections::HashSet;
use vstd::prelude::*;
use crate::dataset::DataSet;
use crate::editors::Editors;
use crate::objects::{objects_of, OsmObj, Way};
use crate::tags::{has_key, has_tag};

verus! {

/// `obj` is a candidate: a way tagged `service=driveway` and
/// `access=private` whose recorded contributor is one of `editors`. A way
/// without a recorded contributor is no candidate.
pub open spec fn spec_is_candidate(obj: OsmObj, editors: Set<Seq<char>>) -> bool {
    &&& obj is Way
    &&& has_tag(obj.spec_tags()@, "service"@, "driveway"@)
    &&& has_tag(obj.spec_tags()@, "access"@, "private"@)
    &&& obj.spec_info().user matches Some(name) && editors.contains(name@)
}

/// Whether `obj` is a candidate.
pub fn is_candidate(obj: &OsmObj, editors: &Editors) -> (yes: bool)
    ensures
        yes == spec_is_candidate(*obj, editors@),
{
    obj.is_way() && obj.tags().contains("service", "driveway") && obj.tags().contains(
        "access",
        "private",
    ) && match obj.user() {
        Some(name) => editors.contains(name.as_str()),
        None => false,
    }
}

/// The number of `obj`, if `obj` is a node that carries a tag with the key
/// `barrier`, whatever the value.
pub open spec fn barrier_at(obj: OsmObj) -> Option<i64> {
    match obj {
        OsmObj::Node(node) => if has_key(node.tags@, "barrier"@) {
            Some(node.id)
        } else {
            None
        },
        _ => None,
    }
}

/// The numbers of all nodes of `objs` that carry a barrier.
pub open spec fn barrier_nodes(objs: Seq<OsmObj>) -> Set<i64> {
    Set::new(|id: i64| exists|i: int| 0 <= i < objs.len() && barrier_at(#[trigger] objs[i]) == Some(id))
}

/// `way` passes through no node of `poison`.
pub open spec fn avoids(way: Way, poison: Set<i64>) -> bool {
    forall|k: int| 0 <= k < way.nodes@.len() ==> !poison.contains(#[trigger] way.nodes@[k])
}

/// `obj` is a way that passes through no node of `poison`.
pub open spec fn is_good_way(obj: OsmObj, poison: Set<i64>) -> bool {
    obj matches OsmObj::Way(way) && avoids(way, poison)
}

/// `obj` is a way that passes through the node with the number `id`.
pub open spec fn passes_through(obj: OsmObj, id: i64) -> bool {
    obj matches OsmObj::Way(way) && way.nodes@.contains(id)
}

/// The numbers of all nodes that some way of `ways` passes through.
pub open spec fn nodes_of(ways: Seq<OsmObj>) -> Set<i64> {
    Set::new(|id: i64| exists|i: int| 0 <= i < ways.len() && passes_through(#[trigger] ways[i], id))
}

/// `obj` is a node whose number is in `ids`.
pub open spec fn is_good_node(obj: OsmObj, ids: Set<i64>) -> bool {
    obj matches OsmObj::Node(node) && ids.contains(node.id)
}

/// The ways of `objs` that pass through no node of `poison`, in the order of
/// `objs`.
pub open spec fn good_ways_of(objs: Seq<OsmObj>, poison: Set<i64>) -> Seq<OsmObj> {
    objs.filter(|obj: OsmObj| is_good_way(obj, poison))
}

/// The nodes of `objs` whose number is in `ids`, in the order of `objs`.
pub open spec fn good_nodes_of(objs: Seq<OsmObj>, ids: Set<i64>) -> Seq<OsmObj> {
    objs.filter(|obj: OsmObj| is_good_node(obj, ids))
}

/// The ways of `objs` that survive: those that pass through no node of `objs`
/// with a barrier.
pub open spec fn surviving_ways(objs: Seq<OsmObj>) -> Seq<OsmObj> {
    good_ways_of(objs, barrier_nodes(objs))
}

/// The nodes of `objs` that survive: those that a surviving way passes
/// through.
pub open spec fn surviving_nodes(objs: Seq<OsmObj>) -> Seq<OsmObj> {
    good_nodes_of(objs, nodes_of(surviving_ways(objs)))
}

/// What is handed on: the surviving nodes, then the surviving ways.
pub open spec fn good_items_of(objs: Seq<OsmObj>) -> Seq<OsmObj> {
    surviving_nodes(objs) + surviving_ways(objs)
}

proof fn lemma_filter_push<A>(s: Seq<A>, x: A, pred: spec_fn(A) -> bool)
    ensures
        s.push(x).filter(pred) == (if pred(x) {
            s.filter(pred).push(x)
        } else {
            s.filter(pred)
        }),
{
    reveal(Seq::filter);
    assert(s.push(x).drop_last() =~= s);
}

proof fn lemma_barrier_nodes_push(objs: Seq<OsmObj>, obj: OsmObj)
    ensures
        barrier_nodes(objs.push(obj)) == (match barrier_at(obj) {
            Some(id) => barrier_nodes(objs).insert(id),
            None => barrier_nodes(objs),
        }),
{
    let next = objs.push(obj);
    let rhs = match barrier_at(obj) {
        Some(id) => barrier_nodes(objs).insert(id),
        None => barrier_nodes(objs),
    };
    assert forall|id: i64| rhs.contains(id) implies barrier_nodes(next).contains(id) by {
        if barrier_nodes(objs).contains(id) {
            let i = choose|i: int| 0 <= i < objs.len() && barrier_at(#[trigger] objs[i]) == Some(id);
            assert(barrier_at(next[i]) == Some(id));
        } else {
            assert(barrier_at(next[objs.len() as int]) == Some(id));
        }
    }
    assert forall|id: i64| barrier_nodes(next).contains(id) implies rhs.contains(id) by {
        let i = choose|i: int| 0 <= i < next.len() && barrier_at(#[trigger] next[i]) == Some(id);
        if i < objs.len() {
            assert(barrier_at(objs[i]) == Some(id));
        }
    }
}

proof fn lemma_nodes_of_push(ways: Seq<OsmObj>, obj: OsmObj)
    ensures
        nodes_of(ways.push(obj)) == nodes_of(ways) + Set::new(|id: i64| passes_through(obj, id)),
{
    let next = ways.push(obj);
    let rhs = nodes_of(ways) + Set::new(|id: i64| passes_through(obj, id));
    assert forall|id: i64| rhs.contains(id) implies nodes_of(next).contains(id) by {
        if nodes_of(ways).contains(id) {
            let i = choose|i: int| 0 <= i < ways.len() && passes_through(#[trigger] ways[i], id);
            assert(passes_through(next[i], id));
        } else {
            assert(passes_through(next[ways.len() as int], id));
        }
    }
    assert forall|id: i64| nodes_of(next).contains(id) implies rhs.contains(id) by {
        let i = choose|i: int| 0 <= i < next.len() && passes_through(#[trigger] next[i], id);
        if i < ways.len() {
            assert(passes_through(ways[i], id));
        }
    }
}

/// Finds the nodes that disqualify a way: every node of the data set that
/// carries a tag with the key `barrier`, whether or not any way passes
/// through it.
pub fn poison_nodes(data: &DataSet) -> (poison: HashSet<i64>)
    ensures
        poison@ == barrier_nodes(data@),
{
    broadcast use vstd::std_specs::hash::group_hash_axioms;

    let objs = data.objs();
    let mut poison: HashSet<i64> = HashSet::new();
    let mut i: usize = 0;
    while i < objs.len()
        invariant
            i <= objs.len(),
            poison@ == barrier_nodes(objs@.take(i as int)),
        decreases objs.len() - i,
    {
        proof {
            lemma_barrier_nodes_push(objs@.take(i as int), objs@[i as int]);
            assert(objs@.take(i + 1) =~= objs@.take(i as int).push(objs@[i as int]));
        }
        if let OsmObj::Node(n) = &objs[i] {
            if n.tags.contains_key("barrier") {
                poison.insert(n.id);
            }
        }
        i += 1;
    }
    assert(objs@.take(objs.len() as int) =~= objs@);
    poison
}

/// Whether `way` passes through no node of `poison`.
pub fn way_avoids(way: &Way, poison: &HashSet<i64>) -> (yes: bool)
    ensures
        yes == avoids(*way, poison@),
{
    broadcast use vstd::std_specs::hash::group_hash_axioms;

    let mut k: usize = 0;
    while k < way.nodes.len()
        invariant
            k <= way.nodes.len(),
            forall|j: int| 0 <= j < k ==> !poison@.contains(#[trigger] way.nodes@[j]),
        decreases way.nodes.len() - k,
    {
        if poison.contains(&way.nodes[k]) {
            return false;
        }
        k += 1;
    }
    true
}

/// Keeps the ways that pass through no node of `poison`. A way that passes
/// through one is dropped whole.
pub fn good_ways<'a>(data: &'a DataSet, poison: &HashSet<i64>) -> (ways: Vec<&'a OsmObj>)
    ensures
        objects_of(ways@) == good_ways_of(data@, poison@),
{
    let objs = data.objs();
    let ghost keep = |obj: OsmObj| is_good_way(obj, poison@);
    let mut ways: Vec<&'a OsmObj> = Vec::new();
    let mut i: usize = 0;
    proof {
        reveal(Seq::filter);
    }
    while i < objs.len()
        invariant
            i <= objs.len(),
            keep == |obj: OsmObj| is_good_way(obj, poison@),
            objects_of(ways@) == objs@.take(i as int).filter(keep),
        decreases objs.len() - i,
    {
        proof {
            lemma_filter_push(objs@.take(i as int), objs@[i as int], keep);
            assert(objs@.take(i + 1) =~= objs@.take(i as int).push(objs@[i as int]));
        }
        let obj = &objs[i];
        let good = match obj {
            OsmObj::Way(w) => way_avoids(w, poison),
            _ => false,
        };
        if good {
            ways.push(obj);
        }
        i += 1;
    }
    assert(objs@.take(objs.len() as int) =~= objs@);
    ways
}

/// Adds the numbers of `nodes` to `ids`.
fn add_nodes(ids: &mut HashSet<i64>, nodes: &Vec<i64>)
    ensures
        final(ids)@ == old(ids)@ + nodes@.to_set(),
{
    broadcast use vstd::std_specs::hash::group_hash_axioms;

    let mut k: usize = 0;
    while k < nodes.len()
        invariant
            k <= nodes.len(),
            ids@ == old(ids)@ + nodes@.take(k as int).to_set(),
        decreases nodes.len() - k,
    {
        proof {
            nodes@.take(k as int).lemma_push_to_set_commute(nodes@[k as int]);
            assert(nodes@.take(k + 1) =~= nodes@.take(k as int).push(nodes@[k as int]));
        }
        ids.insert(nodes[k]);
        k += 1;
    }
    assert(nodes@.take(nodes.len() as int) =~= nodes@);
}

/// Collects the numbers of all nodes that the ways of `ways` pass through.
pub fn good_node_ids(ways: &Vec<&OsmObj>) -> (ids: HashSet<i64>)
    ensures
        ids@ == nodes_of(objects_of(ways@)),
{
    let ghost objs = objects_of(ways@);
    let mut ids: HashSet<i64> = HashSet::new();
    let mut i: usize = 0;
    while i < ways.len()
        invariant
            i <= ways.len(),
            objs == objects_of(ways@),
            ids@ == nodes_of(objs.take(i as int)),
        decreases ways.len() - i,
    {
        proof {
            lemma_nodes_of_push(objs.take(i as int), objs[i as int]);
            assert(objs.take(i + 1) =~= objs.take(i as int).push(objs[i as int]));
        }
        if let OsmObj::Way(w) = ways[i] {
            add_nodes(&mut ids, &w.nodes);
        }
        i += 1;
    }
    assert(objs.take(ways.len() as int) =~= objs);
    ids
}

/// Keeps the nodes whose number is in `ids`.
pub fn good_nodes<'a>(data: &'a DataSet, ids: &HashSet<i64>) -> (nodes: Vec<&'a OsmObj>)
    ensures
        objects_of(nodes@) == good_nodes_of(data@, ids@),
{
    broadcast use vstd::std_specs::hash::group_hash_axioms;

    let objs = data.objs();
    let ghost keep = |obj: OsmObj| is_good_node(obj, ids@);
    let mut nodes: Vec<&'a OsmObj> = Vec::new();
    let mut i: usize = 0;
    proof {
        reveal(Seq::filter);
    }
    while i < objs.len()
        invariant
            i <= objs.len(),
            keep == |obj: OsmObj| is_good_node(obj, ids@),
            objects_of(nodes@) == objs@.take(i as int).filter(keep),
        decreases objs.len() - i,
    {
        proof {
            lemma_filter_push(objs@.take(i as int), objs@[i as int], keep);
            assert(objs@.take(i + 1) =~= objs@.take(i as int).push(objs@[i as int]));
        }
        let obj = &objs[i];
        let good = match obj {
            OsmObj::Node(n) => ids.contains(&n.id),
            _ => false,
        };
        if good {
            nodes.push(obj);
        }
        i += 1;
    }
    assert(objs@.take(objs.len() as int) =~= objs@);
    nodes
}

/// Selects what is handed on: the ways of the data set that no
/// barrier disqualifies, and before them the nodes that these ways pass
/// through. A node that a surviving way names but the data set lacks is
/// passed over in silence.
pub fn good_items<'a>(data: &'a DataSet) -> (items: Vec<&'a OsmObj>)
    ensures
        objects_of(items@) == good_items_of(data@),
{
    let poison = poison_nodes(data);
    let mut ways = good_ways(data, &poison);
    let ids = good_node_ids(&ways);
    let mut items = good_nodes(data, &ids);
    items.append(&mut ways);
    items
}

} // verus!
