//! OpenStreetMap objects: nodes, ways and relations, with their identifiers
//! and the authorship that the archive records for them.

use vstd::prelude::*;
use crate::strings::{in_calendar, spec_in_calendar};
use crate::tags::Tags;

verus! {

/// The identifier of an object. Identifiers of different kinds never collide.
#[derive(Clone, Copy, Debug, PartialEq, Eq, Hash, Structural)]
pub enum OsmId {
    /// The identifier of a node.
    Node(i64),
    /// The identifier of a way.
    Way(i64),
    /// The identifier of a relation.
    Relation(i64),
}

impl OsmId {
    /// The number inside the identifier.
    pub open spec fn spec_inner_id(self) -> i64 {
        match self {
            OsmId::Node(n) => n,
            OsmId::Way(n) => n,
            OsmId::Relation(n) => n,
        }
    }

    /// The place of the identifier's kind: nodes, then ways, then relations.
    pub open spec fn rank(self) -> int {
        match self {
            OsmId::Node(_) => 0,
            OsmId::Way(_) => 1,
            OsmId::Relation(_) => 2,
        }
    }

    /// The strict order of identifiers: by kind first, by number within a kind.
    pub open spec fn spec_lt(self, other: OsmId) -> bool {
        self.rank() < other.rank() || (self.rank() == other.rank() && self.spec_inner_id()
            < other.spec_inner_id())
    }

    /// The number inside the identifier.
    #[verifier::when_used_as_spec(spec_inner_id)]
    pub fn inner_id(self) -> (n: i64)
        ensures
            n == self.spec_inner_id(),
    {
        match self {
            OsmId::Node(n) => n,
            OsmId::Way(n) => n,
            OsmId::Relation(n) => n,
        }
    }

    /// Whether `self` comes strictly before `other`.
    #[verifier::when_used_as_spec(spec_lt)]
    pub fn lt(self, other: OsmId) -> (before: bool)
        ensures
            before == self.spec_lt(other),
    {
        let a: u8 = match self {
            OsmId::Node(_) => 0,
            OsmId::Way(_) => 1,
            OsmId::Relation(_) => 2,
        };
        let b: u8 = match other {
            OsmId::Node(_) => 0,
            OsmId::Way(_) => 1,
            OsmId::Relation(_) => 2,
        };
        a < b || (a == b && self.inner_id() < other.inner_id())
    }

    /// The node number, if this identifies a node.
    pub fn node(self) -> (n: Option<i64>)
        ensures
            n == (match self {
                OsmId::Node(id) => Some(id),
                _ => None,
            }),
    {
        match self {
            OsmId::Node(id) => Some(id),
            _ => None,
        }
    }
}

/// Who last edited an object, and when. Every field may be absent.
#[derive(Clone, Debug, PartialEq, Eq)]
pub struct Info {
    /// The name of the contributor.
    pub user: Option<String>,
    /// The numeric identifier of the contributor.
    pub uid: Option<i32>,
    /// Whether the object is visible.
    pub visible: Option<bool>,
    /// The version of the object.
    pub version: Option<i32>,
    /// The changeset that holds this version.
    pub changeset: Option<i64>,
    /// The time of the edit, in seconds since 1970-01-01T00:00:00Z.
    pub timestamp: Option<i64>,
}

impl Info {
    /// The contributor's name as a sequence of characters.
    pub open spec fn user_name(&self) -> Option<Seq<char>> {
        match self.user {
            Some(name) => Some(name@),
            None => None,
        }
    }

    /// The invariant of authorship: a recorded timestamp falls in a year whose
    /// dates can be written.
    pub open spec fn wf(&self) -> bool {
        self.timestamp matches Some(seconds) ==> spec_in_calendar(seconds)
    }

    /// Whether the authorship meets its invariant.
    pub fn is_wf(&self) -> (yes: bool)
        ensures
            yes == self.wf(),
    {
        match self.timestamp {
            Some(seconds) => in_calendar(seconds),
            None => true,
        }
    }

    /// Authorship of which nothing is known.
    pub fn unknown() -> (info: Info)
        ensures
            info.user is None,
            info.uid is None,
            info.visible is None,
            info.version is None,
            info.changeset is None,
            info.timestamp is None,
            info.wf(),
    {
        Info { user: None, uid: None, visible: None, version: None, changeset: None, timestamp: None }
    }
}

/// A node: a point on the map.
#[derive(Clone, Debug, PartialEq, Eq)]
pub struct Node {
    /// The number of the node.
    pub id: i64,
    /// The tags of the node.
    pub tags: Tags,
    /// The latitude in units of 10^-7 degrees.
    pub decimicro_lat: i32,
    /// The longitude in units of 10^-7 degrees.
    pub decimicro_lon: i32,
    /// The authorship of the node.
    pub info: Info,
}

/// A way: a path through nodes, which it names by their numbers, in order.
#[derive(Clone, Debug, PartialEq, Eq)]
pub struct Way {
    /// The number of the way.
    pub id: i64,
    /// The tags of the way.
    pub tags: Tags,
    /// The numbers of the nodes along the way.
    pub nodes: Vec<i64>,
    /// The authorship of the way.
    pub info: Info,
}

/// A member of a relation: an object and the role it plays.
#[derive(Clone, Debug, PartialEq, Eq)]
pub struct Ref {
    /// The identifier of the member.
    pub member: OsmId,
    /// The role of the member.
    pub role: String,
}

/// A relation: a group of objects, each with a role.
#[derive(Clone, Debug, PartialEq, Eq)]
pub struct Relation {
    /// The number of the relation.
    pub id: i64,
    /// The tags of the relation.
    pub tags: Tags,
    /// The members of the relation, in order.
    pub refs: Vec<Ref>,
    /// The authorship of the relation.
    pub info: Info,
}

/// An object of the map.
#[derive(Clone, Debug, PartialEq, Eq)]
pub enum OsmObj {
    /// A node.
    Node(Node),
    /// A way.
    Way(Way),
    /// A relation.
    Relation(Relation),
}

impl OsmObj {
    /// The identifier of the object.
    pub open spec fn spec_id(&self) -> OsmId {
        match self {
            OsmObj::Node(node) => OsmId::Node(node.id),
            OsmObj::Way(way) => OsmId::Way(way.id),
            OsmObj::Relation(relation) => OsmId::Relation(relation.id),
        }
    }

    /// The tags of the object.
    pub open spec fn spec_tags(&self) -> &Tags {
        match self {
            OsmObj::Node(node) => &node.tags,
            OsmObj::Way(way) => &way.tags,
            OsmObj::Relation(relation) => &relation.tags,
        }
    }

    /// The authorship of the object.
    pub open spec fn spec_info(&self) -> &Info {
        match self {
            OsmObj::Node(node) => &node.info,
            OsmObj::Way(way) => &way.info,
            OsmObj::Relation(relation) => &relation.info,
        }
    }

    /// The identifier of the object.
    #[verifier::when_used_as_spec(spec_id)]
    pub fn id(&self) -> (id: OsmId)
        ensures
            id == self.spec_id(),
    {
        match self {
            OsmObj::Node(node) => OsmId::Node(node.id),
            OsmObj::Way(way) => OsmId::Way(way.id),
            OsmObj::Relation(relation) => OsmId::Relation(relation.id),
        }
    }

    /// The tags of the object.
    #[verifier::when_used_as_spec(spec_tags)]
    pub fn tags(&self) -> (tags: &Tags)
        ensures
            tags == self.spec_tags(),
    {
        match self {
            OsmObj::Node(node) => &node.tags,
            OsmObj::Way(way) => &way.tags,
            OsmObj::Relation(relation) => &relation.tags,
        }
    }

    /// The authorship of the object.
    #[verifier::when_used_as_spec(spec_info)]
    pub fn info(&self) -> (info: &Info)
        ensures
            info == self.spec_info(),
    {
        match self {
            OsmObj::Node(node) => &node.info,
            OsmObj::Way(way) => &way.info,
            OsmObj::Relation(relation) => &relation.info,
        }
    }

    /// The name of the contributor who last edited the object, if recorded.
    pub fn user(&self) -> (user: &Option<String>)
        ensures
            *user == self.spec_info().user,
    {
        &self.info().user
    }

    /// Whether the object is a node.
    pub fn is_node(&self) -> (yes: bool)
        ensures
            yes == (self is Node),
    {
        match self {
            OsmObj::Node(_) => true,
            _ => false,
        }
    }

    /// Whether the object is a way.
    pub fn is_way(&self) -> (yes: bool)
        ensures
            yes == (self is Way),
    {
        match self {
            OsmObj::Way(_) => true,
            _ => false,
        }
    }

    /// Whether the object is a relation.
    pub fn is_relation(&self) -> (yes: bool)
        ensures
            yes == (self is Relation),
    {
        match self {
            OsmObj::Relation(_) => true,
            _ => false,
        }
    }
}

/// The objects behind a list of references, in order.
pub open spec fn objects_of(items: Seq<&OsmObj>) -> Seq<OsmObj> {
    items.map_values(|obj: &OsmObj| *obj)
}

} // verus!
