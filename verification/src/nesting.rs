//! Why a document can be printed: its elements are well nested.

use vstd::prelude::*;
use crate::bounds::Bounds;
use crate::document::{
    bounds_element,
    closed,
    document,
    items_events,
    member_element,
    nd_element,
    node_element,
    object_events,
    osm_element,
    relation_element,
    tag_element,
    way_element,
    EventView,
};
use crate::objects::{OsmObj, Ref};

verus! {

/// The number of elements that are open after `events`: those that opened less
/// those that closed.
pub open spec fn depth(events: Seq<EventView>) -> int
    decreases events.len(),
{
    if events.len() == 0 {
        0
    } else {
        depth(events.drop_last()) + (if events.last() is StartElement {
            1int
        } else {
            -1int
        })
    }
}

/// `events` is well nested: no element closes that did not open before, and
/// none is left open at the end.
pub open spec fn well_nested(events: Seq<EventView>) -> bool {
    &&& depth(events) == 0
    &&& forall|n: int| 0 <= n <= events.len() ==> depth(#[trigger] events.take(n)) >= 0
}

proof fn lemma_depth_add(a: Seq<EventView>, b: Seq<EventView>)
    ensures
        depth(a + b) == depth(a) + depth(b),
    decreases b.len(),
{
    if b.len() == 0 {
        assert(a + b =~= a);
    } else {
        lemma_depth_add(a, b.drop_last());
        assert((a + b).drop_last() =~= a + b.drop_last());
    }
}

/// One well nested run after another is well nested.
proof fn lemma_nested_add(a: Seq<EventView>, b: Seq<EventView>)
    requires
        well_nested(a),
        well_nested(b),
    ensures
        well_nested(a + b),
{
    lemma_depth_add(a, b);
    assert forall|n: int| 0 <= n <= (a + b).len() implies depth(#[trigger] (a + b).take(n)) >= 0 by {
        if n <= a.len() {
            assert((a + b).take(n) =~= a.take(n));
        } else {
            assert((a + b).take(n) =~= a + b.take(n - a.len()));
            lemma_depth_add(a, b.take(n - a.len()));
        }
    }
}

/// A well nested run inside an element is well nested.
proof fn lemma_nested_wrap(start: EventView, inner: Seq<EventView>)
    requires
        start is StartElement,
        well_nested(inner),
    ensures
        well_nested(seq![start] + inner + seq![EventView::EndElement]),
{
    let head = seq![start];
    let tail = seq![EventView::EndElement];
    let all = head + inner + tail;
    assert(depth(head) == 1 && depth(tail) == -1) by {
        reveal_with_fuel(depth, 2);
    }
    lemma_depth_add(head, inner);
    lemma_depth_add(head + inner, tail);
    assert forall|n: int| 0 <= n <= all.len() implies depth(#[trigger] all.take(n)) >= 0 by {
        if n == 0 {
            assert(all.take(n) =~= Seq::<EventView>::empty());
        } else if n <= 1 + inner.len() {
            assert(all.take(n) =~= head + inner.take(n - 1));
            lemma_depth_add(head, inner.take(n - 1));
        } else {
            assert(all.take(n) =~= all);
        }
    }
}

/// Nothing at all is well nested.
proof fn lemma_empty_nested()
    ensures
        well_nested(Seq::<EventView>::empty()),
{
    assert forall|n: int| 0 <= n <= 0 implies depth(
        #[trigger] Seq::<EventView>::empty().take(n),
    ) >= 0 by {
        assert(Seq::<EventView>::empty().take(n) =~= Seq::<EventView>::empty());
    }
}

/// A run of elements without content is well nested.
proof fn lemma_closed_nested(starts: Seq<EventView>)
    requires
        forall|i: int| 0 <= i < starts.len() ==> #[trigger] starts[i] is StartElement,
    ensures
        well_nested(closed(starts)),
    decreases starts.len(),
{
    lemma_empty_nested();
    if starts.len() == 0 {
        assert(closed(starts) =~= Seq::<EventView>::empty());
    } else {
        let rest = starts.drop_last();
        lemma_closed_nested(rest);
        lemma_nested_wrap(starts.last(), Seq::<EventView>::empty());
        let leaf = seq![starts.last()] + Seq::<EventView>::empty() + seq![EventView::EndElement];
        lemma_nested_add(closed(rest), leaf);
        assert(closed(starts) =~= closed(rest) + leaf);
    }
}

/// The events of one object are well nested.
pub proof fn lemma_object_well_nested(obj: OsmObj)
    ensures
        well_nested(object_events(obj)),
{
    let tags = obj.spec_tags()@.map_values(|tag: (Seq<char>, Seq<char>)| tag_element(tag));
    lemma_closed_nested(tags);
    match obj {
        OsmObj::Node(node) => {
            lemma_nested_wrap(node_element(node), closed(tags));
        },
        OsmObj::Way(way) => {
            let nds = way.nodes@.map_values(|id: i64| nd_element(id));
            lemma_closed_nested(nds);
            lemma_nested_add(closed(nds), closed(tags));
            lemma_nested_wrap(way_element(way), closed(nds) + closed(tags));
            assert(object_events(obj) =~= seq![way_element(way)] + (closed(nds)
                + closed(tags)) + seq![EventView::EndElement]);
        },
        OsmObj::Relation(relation) => {
            let members = relation.refs@.map_values(|member: Ref| member_element(member));
            lemma_closed_nested(members);
            lemma_nested_add(closed(members), closed(tags));
            lemma_nested_wrap(relation_element(relation), closed(members) + closed(tags));
            assert(object_events(obj) =~= seq![relation_element(relation)] + (closed(members)
                + closed(tags)) + seq![EventView::EndElement]);
        },
    }
}

proof fn lemma_items_well_nested(items: Seq<OsmObj>)
    ensures
        well_nested(items_events(items)),
    decreases items.len(),
{
    let each = items.map_values(|obj: OsmObj| object_events(obj));
    if items.len() == 0 {
        lemma_empty_nested();
        assert(each.flatten() =~= Seq::<EventView>::empty());
    } else {
        let rest = items.drop_last();
        lemma_items_well_nested(rest);
        lemma_object_well_nested(items.last());
        let before = rest.map_values(|obj: OsmObj| object_events(obj));
        before.lemma_flatten_push(object_events(items.last()));
        assert(each =~= before.push(object_events(items.last())));
        lemma_nested_add(items_events(rest), object_events(items.last()));
    }
}

/// A document is well nested, whatever it holds: a writer that is handed its
/// events in order never has to close an element that is not open, and ends
/// with none open.
pub proof fn lemma_document_well_nested(items: Seq<OsmObj>, bounds: Bounds)
    ensures
        well_nested(document(items, bounds)),
{
    lemma_items_well_nested(items);
    lemma_closed_nested(seq![bounds_element(bounds)]);
    assert(closed(seq![bounds_element(bounds)]) =~= seq![
        bounds_element(bounds),
        EventView::EndElement,
    ]);
    let inner = seq![bounds_element(bounds), EventView::EndElement] + items_events(items);
    lemma_nested_add(seq![bounds_element(bounds), EventView::EndElement], items_events(items));
    lemma_nested_wrap(osm_element(), inner);
    assert(document(items, bounds) =~= seq![osm_element()] + inner + seq![EventView::EndElement]);
}

} // verus!
