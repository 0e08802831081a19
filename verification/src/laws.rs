//! What holds of every selection, stated over the models that the contracts
//! of the selection use.

use vstd::prelude::*;
use crate::bounds::{is_bounds_of, Bounds, Extent};
use crate::dataset::sorted;
use crate::export::export_of;
use crate::filter::{
    avoids,
    barrier_nodes,
    good_items_of,
    is_good_node,
    is_good_way,
    nodes_of,
    passes_through,
    spec_is_candidate,
    surviving_nodes,
    surviving_ways,
};
use crate::objects::OsmObj;
use crate::tags::has_tag;

verus! {

/// A selection holds nothing but objects of the data set, and each of them is
/// a surviving node or a surviving way.
pub proof fn lemma_selection_is_part(objs: Seq<OsmObj>, obj: OsmObj)
    requires
        good_items_of(objs).contains(obj),
    ensures
        objs.contains(obj),
        obj is Node ==> surviving_nodes(objs).contains(obj) && is_good_node(
            obj,
            nodes_of(surviving_ways(objs)),
        ),
        obj is Way ==> surviving_ways(objs).contains(obj) && is_good_way(obj, barrier_nodes(objs)),
        !(obj is Relation),
{
    let ways = surviving_ways(objs);
    let nodes = surviving_nodes(objs);
    let keep_way = |o: OsmObj| is_good_way(o, barrier_nodes(objs));
    let keep_node = |o: OsmObj| is_good_node(o, nodes_of(ways));
    let i = choose|i: int| 0 <= i < (nodes + ways).len() && (nodes + ways)[i] == obj;
    if i < nodes.len() {
        assert(nodes[i] == obj);
        objs.lemma_filter_pred(keep_node, i);
        lemma_filter_subset(objs, keep_node, i);
    } else {
        assert(ways[i - nodes.len()] == obj);
        objs.lemma_filter_pred(keep_way, i - nodes.len());
        lemma_filter_subset(objs, keep_way, i - nodes.len());
    }
}

proof fn lemma_filter_subset<A>(s: Seq<A>, pred: spec_fn(A) -> bool, i: int)
    requires
        0 <= i < s.filter(pred).len(),
    ensures
        s.contains(s.filter(pred)[i]),
    decreases s.len(),
{
    reveal(Seq::filter);
    if s.len() > 0 {
        let rest = s.drop_last().filter(pred);
        if i < rest.len() {
            lemma_filter_subset(s.drop_last(), pred, i);
            let j = choose|j: int| 0 <= j < s.drop_last().len() && s.drop_last()[j] == rest[i];
            assert(s[j] == rest[i]);
        } else {
            assert(s[s.len() - 1] == s.filter(pred)[i]);
        }
    }
}

/// Closure: where a surviving way passes through a node, the number of that
/// node is among those selected; and where the data set holds that node, the
/// node itself is handed on, so that the document has no reference to a node
/// that it lacks.
pub proof fn lemma_closure_complete(objs: Seq<OsmObj>, way: OsmObj, id: i64)
    requires
        surviving_ways(objs).contains(way),
        passes_through(way, id),
    ensures
        nodes_of(surviving_ways(objs)).contains(id),
        forall|node: OsmObj|
            objs.contains(node) && (node matches OsmObj::Node(n) && n.id == id) ==> (
            #[trigger] surviving_nodes(objs).contains(node)) && good_items_of(objs).contains(node),
{
    let ways = surviving_ways(objs);
    let w = choose|w: int| 0 <= w < ways.len() && ways[w] == way;
    assert(passes_through(ways[w], id));
    let keep = |o: OsmObj| is_good_node(o, nodes_of(ways));
    assert forall|node: OsmObj|
        objs.contains(node) && (node matches OsmObj::Node(n) && n.id == id) implies (
    #[trigger] surviving_nodes(objs).contains(node)) && good_items_of(objs).contains(node) by {
        let i = choose|i: int| 0 <= i < objs.len() && objs[i] == node;
        objs.lemma_filter_contains(keep, i);
        let j = choose|j: int|
            0 <= j < surviving_nodes(objs).len() && surviving_nodes(objs)[j] == node;
        assert(good_items_of(objs)[j] == node);
    }
}

/// Disqualification: a way of the data set is handed on exactly when it
/// passes through no node that carries a barrier.
pub proof fn lemma_disqualification(objs: Seq<OsmObj>, obj: OsmObj)
    requires
        objs.contains(obj),
        obj is Way,
    ensures
        good_items_of(objs).contains(obj) <==> avoids(obj->Way_0, barrier_nodes(objs)),
        surviving_ways(objs).contains(obj) <==> avoids(obj->Way_0, barrier_nodes(objs)),
{
    let ways = surviving_ways(objs);
    let nodes = surviving_nodes(objs);
    let keep = |o: OsmObj| is_good_way(o, barrier_nodes(objs));
    if good_items_of(objs).contains(obj) {
        lemma_selection_is_part(objs, obj);
    }
    if ways.contains(obj) {
        let j = choose|j: int| 0 <= j < ways.len() && ways[j] == obj;
        objs.lemma_filter_pred(keep, j);
        assert((nodes + ways)[nodes.len() + j] == obj);
    }
    if avoids(obj->Way_0, barrier_nodes(objs)) {
        let i = choose|i: int| 0 <= i < objs.len() && objs[i] == obj;
        objs.lemma_filter_contains(keep, i);
        let j = choose|j: int| 0 <= j < ways.len() && ways[j] == obj;
        assert((nodes + ways)[nodes.len() + j] == obj);
    }
}

/// The predicate is exact: whatever else an object carries, it is no
/// candidate if it is no way, lacks `service=driveway` or `access=private`,
/// records no contributor, or records one who is not among the editors.
pub proof fn lemma_candidate_exact(obj: OsmObj, editors: Set<Seq<char>>)
    ensures
        !(obj is Way) ==> !spec_is_candidate(obj, editors),
        !has_tag(obj.spec_tags()@, "service"@, "driveway"@) ==> !spec_is_candidate(obj, editors),
        !has_tag(obj.spec_tags()@, "access"@, "private"@) ==> !spec_is_candidate(obj, editors),
        obj.spec_info().user is None ==> !spec_is_candidate(obj, editors),
        obj.spec_info().user matches Some(name) && !editors.contains(name@) ==> !spec_is_candidate(
            obj,
            editors,
        ),
{
}

/// The bounds of a list with a node hold every node of the list, and each
/// side is the coordinate of one of them.
pub proof fn lemma_bounds_tight(bounds: Bounds, items: Seq<OsmObj>, i: int)
    requires
        is_bounds_of(bounds, items),
        0 <= i < items.len(),
        items[i] is Node,
    ensures
        bounds.min_lat.le(Extent::Finite(items[i]->Node_0.decimicro_lat)),
        Extent::Finite(items[i]->Node_0.decimicro_lat).le(bounds.max_lat),
        bounds.min_lon.le(Extent::Finite(items[i]->Node_0.decimicro_lon)),
        Extent::Finite(items[i]->Node_0.decimicro_lon).le(bounds.max_lon),
        exists|j: int|
            0 <= j < items.len() && (#[trigger] items[j] matches OsmObj::Node(node)
                && bounds.min_lat == Extent::Finite(node.decimicro_lat)),
        exists|j: int|
            0 <= j < items.len() && (#[trigger] items[j] matches OsmObj::Node(node)
                && bounds.max_lat == Extent::Finite(node.decimicro_lat)),
        exists|j: int|
            0 <= j < items.len() && (#[trigger] items[j] matches OsmObj::Node(node)
                && bounds.min_lon == Extent::Finite(node.decimicro_lon)),
        exists|j: int|
            0 <= j < items.len() && (#[trigger] items[j] matches OsmObj::Node(node)
                && bounds.max_lon == Extent::Finite(node.decimicro_lon)),
{
}

/// The order of a data set is fixed by what it holds: two lists in the order
/// of their identifiers that hold the same objects are the same list.
pub proof fn lemma_order_is_canonical(a: Seq<OsmObj>, b: Seq<OsmObj>)
    requires
        sorted(a),
        sorted(b),
        forall|obj: OsmObj| a.contains(obj) <==> b.contains(obj),
    ensures
        a == b,
    decreases a.len(),
{
    if a.len() == 0 {
        if b.len() > 0 {
            assert(b.contains(b[0]));
        }
        assert(a =~= b);
    } else {
        assert(a.contains(a.last()));
        let j = choose|j: int| 0 <= j < b.len() && b[j] == a.last();
        assert(b.contains(b.last()));
        let i = choose|i: int| 0 <= i < a.len() && a[i] == b.last();
        assert(j == b.len() - 1 && i == a.len() - 1);
        let a0 = a.drop_last();
        let b0 = b.drop_last();
        assert forall|obj: OsmObj| a0.contains(obj) <==> b0.contains(obj) by {
            if a0.contains(obj) {
                let k = choose|k: int| 0 <= k < a0.len() && a0[k] == obj;
                assert(a[k] == obj);
                assert(b.contains(obj));
                let m = choose|m: int| 0 <= m < b.len() && b[m] == obj;
                assert(m < b.len() - 1);
                assert(b0[m] == obj);
            }
            if b0.contains(obj) {
                let k = choose|k: int| 0 <= k < b0.len() && b0[k] == obj;
                assert(b[k] == obj);
                assert(a.contains(obj));
                let m = choose|m: int| 0 <= m < a.len() && a[m] == obj;
                assert(m < a.len() - 1);
                assert(a0[m] == obj);
            }
        }
        lemma_order_is_canonical(a0, b0);
        assert(a =~= a0.push(a.last()));
        assert(b =~= b0.push(b.last()));
    }
}

/// Repeating a run changes nothing: two data sets that hold the same
/// objects yield the same document, event for event.
pub proof fn lemma_export_repeatable(a: Seq<OsmObj>, b: Seq<OsmObj>)
    requires
        sorted(a),
        sorted(b),
        forall|obj: OsmObj| a.contains(obj) <==> b.contains(obj),
    ensures
        good_items_of(a) == good_items_of(b),
        export_of(a) == export_of(b),
{
    lemma_order_is_canonical(a, b);
}

} // verus!
