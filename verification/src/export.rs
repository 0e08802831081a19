//! From a data set to the document that is written out.

use vstd::prelude::*;
use crate::bounds::{bounds_of, get_bounds};
use crate::dataset::DataSet;
use crate::document::{all_writable, document, events_view, osm_document, EventView, XmlEvent};
use crate::filter::{good_items, good_items_of};
use crate::nesting::well_nested;
use crate::objects::{objects_of, OsmObj};

verus! {

/// The document for the objects `objs`: the surviving nodes and ways,
/// within the smallest rectangle that holds the surviving nodes.
pub open spec fn export_of(objs: Seq<OsmObj>) -> Seq<EventView> {
    document(good_items_of(objs), bounds_of(good_items_of(objs)))
}

/// Whether every object of `items` has authorship that can be written.
pub fn is_all_writable(items: &Vec<&OsmObj>) -> (yes: bool)
    ensures
        yes == all_writable(objects_of(items@)),
{
    let mut i: usize = 0;
    while i < items.len()
        invariant
            i <= items.len(),
            forall|j: int| 0 <= j < i ==> (#[trigger] objects_of(items@)[j]).spec_info().wf(),
        decreases items.len() - i,
    {
        if !items[i].info().is_wf() {
            assert(!objects_of(items@)[i as int].spec_info().wf());
            return false;
        }
        i += 1;
    }
    true
}

/// Lays out the document for a data set.
pub fn export(data: &DataSet) -> (out: Vec<XmlEvent>)
    requires
        all_writable(good_items_of(data@)),
    ensures
        events_view(out@) == export_of(data@),
        well_nested(events_view(out@)),
{
    let items = good_items(data);
    let bounds = get_bounds(&items);
    osm_document(&items, bounds)
}

/// Lays out the document for a data set, unless a surviving object
/// records a time of edit that cannot be written.
pub fn try_export(data: &DataSet) -> (out: Option<Vec<XmlEvent>>)
    ensures
        out is Some <==> all_writable(good_items_of(data@)),
        out matches Some(events) ==> events_view(events@) == export_of(data@) && well_nested(
            events_view(events@),
        ),
{
    let items = good_items(data);
    if is_all_writable(&items) {
        let bounds = get_bounds(&items);
        Some(osm_document(&items, bounds))
    } else {
        None
    }
}

} // verus!
