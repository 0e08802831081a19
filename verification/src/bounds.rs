//! The smallest rectangle of latitude and longitude that holds a set of nodes.

use vstd::prelude::*;
use crate::objects::{objects_of, OsmObj};

verus! {

/// A coordinate in units of 10^-7 degrees, or one of the two infinities that
/// bound an empty rectangle.
#[derive(Clone, Copy, Debug, PartialEq, Eq, Structural)]
pub enum Extent {
    /// Below every coordinate.
    NegInfinity,
    /// A coordinate.
    Finite(i32),
    /// Above every coordinate.
    PosInfinity,
}

impl Extent {
    /// The strict order of extents: the infinities lie outside the coordinates.
    pub open spec fn spec_lt(self, other: Extent) -> bool {
        match (self, other) {
            (Extent::NegInfinity, Extent::NegInfinity) => false,
            (Extent::NegInfinity, _) => true,
            (Extent::Finite(_), Extent::NegInfinity) => false,
            (Extent::Finite(a), Extent::Finite(b)) => a < b,
            (Extent::Finite(_), Extent::PosInfinity) => true,
            (Extent::PosInfinity, _) => false,
        }
    }

    /// `self` is at most `other`.
    pub open spec fn le(self, other: Extent) -> bool {
        self == other || self.spec_lt(other)
    }

    /// Whether `self` lies strictly below `other`.
    #[verifier::when_used_as_spec(spec_lt)]
    pub fn lt(self, other: Extent) -> (below: bool)
        ensures
            below == self.spec_lt(other),
    {
        match (self, other) {
            (Extent::NegInfinity, Extent::NegInfinity) => false,
            (Extent::NegInfinity, _) => true,
            (Extent::Finite(_), Extent::NegInfinity) => false,
            (Extent::Finite(a), Extent::Finite(b)) => a < b,
            (Extent::Finite(_), Extent::PosInfinity) => true,
            (Extent::PosInfinity, _) => false,
        }
    }
}

/// A rectangle of latitude and longitude.
#[derive(Clone, Copy, Debug, PartialEq, Eq, Structural)]
pub struct Bounds {
    /// The smallest latitude.
    pub min_lat: Extent,
    /// The smallest longitude.
    pub min_lon: Extent,
    /// The largest latitude.
    pub max_lat: Extent,
    /// The largest longitude.
    pub max_lon: Extent,
}

impl Bounds {
    /// The rectangle that holds nothing: each minimum is above every
    /// coordinate and each maximum below. It has no geometric meaning.
    pub open spec fn spec_empty() -> Bounds {
        Bounds {
            min_lat: Extent::PosInfinity,
            min_lon: Extent::PosInfinity,
            max_lat: Extent::NegInfinity,
            max_lon: Extent::NegInfinity,
        }
    }

    /// The rectangle that holds nothing.
    #[verifier::when_used_as_spec(spec_empty)]
    pub fn empty() -> (bounds: Bounds)
        ensures
            bounds == Bounds::spec_empty(),
    {
        Bounds {
            min_lat: Extent::PosInfinity,
            min_lon: Extent::PosInfinity,
            max_lat: Extent::NegInfinity,
            max_lon: Extent::NegInfinity,
        }
    }

    /// The rectangle holds the point at `lat` and `lon`.
    pub open spec fn holds(self, lat: i32, lon: i32) -> bool {
        &&& self.min_lat.le(Extent::Finite(lat))
        &&& Extent::Finite(lat).le(self.max_lat)
        &&& self.min_lon.le(Extent::Finite(lon))
        &&& Extent::Finite(lon).le(self.max_lon)
    }
}

/// Some object of `items` is a node.
pub open spec fn has_node(items: Seq<OsmObj>) -> bool {
    exists|i: int| 0 <= i < items.len() && #[trigger] items[i] is Node
}

/// `bounds` is the smallest rectangle that holds every node of `items`: it
/// holds each of them, and each of its four sides passes through one of them.
/// Where `items` has no node it is the empty rectangle.
pub open spec fn is_bounds_of(bounds: Bounds, items: Seq<OsmObj>) -> bool {
    if has_node(items) {
        &&& forall|i: int|
            0 <= i < items.len() ==> (#[trigger] items[i] matches OsmObj::Node(node)
                ==> bounds.holds(node.decimicro_lat, node.decimicro_lon))
        &&& exists|i: int|
            0 <= i < items.len() && (#[trigger] items[i] matches OsmObj::Node(node)
                && bounds.min_lat == Extent::Finite(node.decimicro_lat))
        &&& exists|i: int|
            0 <= i < items.len() && (#[trigger] items[i] matches OsmObj::Node(node)
                && bounds.min_lon == Extent::Finite(node.decimicro_lon))
        &&& exists|i: int|
            0 <= i < items.len() && (#[trigger] items[i] matches OsmObj::Node(node)
                && bounds.max_lat == Extent::Finite(node.decimicro_lat))
        &&& exists|i: int|
            0 <= i < items.len() && (#[trigger] items[i] matches OsmObj::Node(node)
                && bounds.max_lon == Extent::Finite(node.decimicro_lon))
    } else {
        bounds == Bounds::spec_empty()
    }
}

/// The smallest rectangle that holds every node of `items`.
pub open spec fn bounds_of(items: Seq<OsmObj>) -> Bounds {
    choose|bounds: Bounds| is_bounds_of(bounds, items)
}

/// A list of objects has one smallest rectangle and no other.
pub proof fn lemma_bounds_unique(a: Bounds, b: Bounds, items: Seq<OsmObj>)
    requires
        is_bounds_of(a, items),
        is_bounds_of(b, items),
    ensures
        a == b,
        a == bounds_of(items),
{
}

/// The smaller of two extents.
pub open spec fn lower(a: Extent, b: Extent) -> Extent {
    if a.spec_lt(b) {
        a
    } else {
        b
    }
}

/// The larger of two extents.
pub open spec fn upper(a: Extent, b: Extent) -> Extent {
    if b.spec_lt(a) {
        a
    } else {
        b
    }
}

/// `bounds`, widened so that it holds `obj` if `obj` is a node.
pub open spec fn widened(bounds: Bounds, obj: OsmObj) -> Bounds {
    match obj {
        OsmObj::Node(node) => Bounds {
            min_lat: lower(Extent::Finite(node.decimicro_lat), bounds.min_lat),
            min_lon: lower(Extent::Finite(node.decimicro_lon), bounds.min_lon),
            max_lat: upper(Extent::Finite(node.decimicro_lat), bounds.max_lat),
            max_lon: upper(Extent::Finite(node.decimicro_lon), bounds.max_lon),
        },
        _ => bounds,
    }
}

/// Widening the bounds of a list by one more object gives the bounds of the
/// longer list.
proof fn lemma_bounds_push(bounds: Bounds, items: Seq<OsmObj>, obj: OsmObj)
    requires
        is_bounds_of(bounds, items),
    ensures
        is_bounds_of(widened(bounds, obj), items.push(obj)),
{
    let next = items.push(obj);
    let wide = widened(bounds, obj);
    assert forall|j: int| 0 <= j < items.len() implies items[j] == #[trigger] next[j] by {}
    assert(next[items.len() as int] == obj);
    if has_node(items) {
        let a = choose|k: int|
            0 <= k < items.len() && (#[trigger] items[k] matches OsmObj::Node(node)
                && bounds.min_lat == Extent::Finite(node.decimicro_lat));
        let b = choose|k: int|
            0 <= k < items.len() && (#[trigger] items[k] matches OsmObj::Node(node)
                && bounds.min_lon == Extent::Finite(node.decimicro_lon));
        let c = choose|k: int|
            0 <= k < items.len() && (#[trigger] items[k] matches OsmObj::Node(node)
                && bounds.max_lat == Extent::Finite(node.decimicro_lat));
        let d = choose|k: int|
            0 <= k < items.len() && (#[trigger] items[k] matches OsmObj::Node(node)
                && bounds.max_lon == Extent::Finite(node.decimicro_lon));
        assert(next[a] is Node && next[b] is Node && next[c] is Node && next[d] is Node);
    }
}

/// Widens the interval from `min` to `max` so that it holds `p`.
pub fn compare_vals(p: Extent, min: &mut Extent, max: &mut Extent)
    ensures
        *final(min) == lower(p, *old(min)),
        *final(max) == upper(p, *old(max)),
{
    let omin = if p.lt(*min) {
        p
    } else {
        *min
    };
    let omax = if max.lt(p) {
        p
    } else {
        *max
    };
    *min = omin;
    *max = omax;
}

/// The smallest rectangle that holds every node of `items`. Ways and relations
/// have no place of their own and do not count.
pub fn get_bounds(items: &Vec<&OsmObj>) -> (bounds: Bounds)
    ensures
        is_bounds_of(bounds, objects_of(items@)),
        bounds == bounds_of(objects_of(items@)),
{
    let ghost objs = objects_of(items@);
    let mut minlat = Extent::PosInfinity;
    let mut minlon = Extent::PosInfinity;
    let mut maxlat = Extent::NegInfinity;
    let mut maxlon = Extent::NegInfinity;
    let mut i: usize = 0;
    while i < items.len()
        invariant
            i <= items.len(),
            objs == objects_of(items@),
            is_bounds_of(
                Bounds { min_lat: minlat, min_lon: minlon, max_lat: maxlat, max_lon: maxlon },
                objs.take(i as int),
            ),
        decreases items.len() - i,
    {
        proof {
            lemma_bounds_push(
                Bounds { min_lat: minlat, min_lon: minlon, max_lat: maxlat, max_lon: maxlon },
                objs.take(i as int),
                objs[i as int],
            );
            assert(objs.take(i + 1) =~= objs.take(i as int).push(objs[i as int]));
        }
        match items[i] {
            OsmObj::Node(n) => {
                let lat = Extent::Finite(n.decimicro_lat);
                compare_vals(lat, &mut minlat, &mut maxlat);
                let lon = Extent::Finite(n.decimicro_lon);
                compare_vals(lon, &mut minlon, &mut maxlon);
            },
            // Only nodes have a place.
            _ => (),
        }
        i += 1;
    }
    assert(objs.take(items.len() as int) =~= objs);
    let bounds = Bounds { min_lat: minlat, min_lon: minlon, max_lat: maxlat, max_lon: maxlon };
    proof {
        lemma_bounds_unique(bounds, bounds, objs);
    }
    bounds
}

} // verus!
