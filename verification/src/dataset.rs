//! A data set: objects found by their identifier and walked in the order of
//! their identifiers.

use vstd::prelude::*;
use crate::objects::{OsmId, OsmObj};

verus! {

/// The objects of `objs` stand in the strict order of their identifiers, so
/// no identifier occurs twice.
pub open spec fn sorted(objs: Seq<OsmObj>) -> bool {
    forall|i: int, j: int|
        0 <= i < j < objs.len() ==> (#[trigger] objs[i]).spec_id().spec_lt((#[trigger] objs[j]).spec_id())
}

/// Some object of `objs` has the identifier `id`.
pub open spec fn has_id(objs: Seq<OsmObj>, id: OsmId) -> bool {
    exists|i: int| 0 <= i < objs.len() && (#[trigger] objs[i]).spec_id() == id
}

/// A mapping from identifiers to objects, each object under its own
/// identifier. It is walked in the order of the identifiers: nodes first,
/// then ways, then relations, each kind by rising number.
#[derive(Clone, Debug)]
pub struct DataSet {
    objs: Vec<OsmObj>,
}

impl View for DataSet {
    type V = Seq<OsmObj>;

    closed spec fn view(&self) -> Seq<OsmObj> {
        self.objs@
    }
}

impl DataSet {
    /// The invariant of a data set: its objects stand in the order of their
    /// identifiers.
    pub open spec fn wf(&self) -> bool {
        sorted(self@)
    }

    /// Creates an empty data set.
    pub fn new() -> (data: DataSet)
        ensures
            data@ == Seq::<OsmObj>::empty(),
            data.wf(),
    {
        DataSet { objs: Vec::new() }
    }

    /// The number of objects.
    pub fn len(&self) -> (n: usize)
        ensures
            n == self@.len(),
    {
        self.objs.len()
    }

    /// The objects, in the order of their identifiers.
    pub fn objs(&self) -> (objs: &Vec<OsmObj>)
        ensures
            objs@ == self@,
    {
        &self.objs
    }

    /// The number of objects whose identifier comes before `id`.
    fn lower_bound(&self, id: OsmId) -> (at: usize)
        requires
            self.wf(),
        ensures
            at <= self@.len(),
            forall|j: int| 0 <= j < at ==> (#[trigger] self@[j]).spec_id().spec_lt(id),
            forall|j: int| at <= j < self@.len() ==> !(#[trigger] self@[j]).spec_id().spec_lt(id),
    {
        let mut lo: usize = 0;
        let mut hi: usize = self.objs.len();
        while lo < hi
            invariant
                self.wf(),
                lo <= hi <= self@.len(),
                forall|j: int| 0 <= j < lo ==> (#[trigger] self@[j]).spec_id().spec_lt(id),
                forall|j: int| hi <= j < self@.len() ==> !(#[trigger] self@[j]).spec_id().spec_lt(id),
            decreases hi - lo,
        {
            let mid = lo + (hi - lo) / 2;
            if self.objs[mid].id().lt(id) {
                lo = mid + 1;
            } else {
                hi = mid;
            }
        }
        lo
    }

    /// The object with the identifier `id`, if the data set holds one.
    pub fn get(&self, id: OsmId) -> (found: Option<&OsmObj>)
        requires
            self.wf(),
        ensures
            found is Some <==> has_id(self@, id),
            found matches Some(obj) ==> obj.spec_id() == id && self@.contains(*obj),
    {
        let at = self.lower_bound(id);
        if at < self.objs.len() && self.objs[at].id() == id {
            Some(&self.objs[at])
        } else {
            None
        }
    }

    /// Whether the data set holds an object with the identifier `id`.
    pub fn contains_key(&self, id: OsmId) -> (found: bool)
        requires
            self.wf(),
        ensures
            found == has_id(self@, id),
    {
        self.get(id).is_some()
    }

    /// Puts `obj` under its identifier. An object that was there before is
    /// replaced and handed back; otherwise `obj` takes its place in the order.
    pub fn insert(&mut self, obj: OsmObj) -> (former: Option<OsmObj>)
        requires
            old(self).wf(),
        ensures
            final(self).wf(),
            has_id(final(self)@, obj.spec_id()),
            match former {
                Some(prev) => exists|at: int|
                    0 <= at < old(self)@.len() && #[trigger] old(self)@[at] == prev && prev.spec_id()
                        == obj.spec_id() && final(self)@ == old(self)@.update(at, obj),
                None => !has_id(old(self)@, obj.spec_id()) && exists|at: int|
                    0 <= at <= old(self)@.len() && final(self)@ == #[trigger] old(self)@.insert(
                        at,
                        obj,
                    ),
            },
    {
        let id = obj.id();
        let at = self.lower_bound(id);
        if at < self.objs.len() && self.objs[at].id() == id {
            let mut slot = obj;
            std::mem::swap(&mut self.objs[at], &mut slot);
            Some(slot)
        } else {
            self.objs.insert(at, obj);
            assert(self@[at as int].spec_id() == id);
            None
        }
    }
}

} // verus!
