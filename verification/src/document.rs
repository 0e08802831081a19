//! The document: the selected objects laid out as the stream of events
//! of an OSM XML file, ready for a writer to print.

use vstd::prelude::*;
use crate::bounds::{Bounds, Extent};
use crate::nesting::{lemma_document_well_nested, well_nested};
use crate::objects::{objects_of, Info, Node, OsmId, OsmObj, Ref, Relation, Way};
use crate::strings::{
    bool_text,
    boolean,
    decimal,
    decimal_text,
    spec_in_calendar,
    timestamp_text,
    utc_text,
    TIMESTAMP_FORMAT,
};
use crate::tags::{TagSeq, Tags};

verus! {

/// The value of an attribute.
#[derive(Clone, Debug, PartialEq, Eq)]
pub enum Value {
    /// Text, printed as it is.
    Text(String),
    /// A coordinate in units of 10^-7 degrees, printed in degrees.
    Degrees(Extent),
}

/// An attribute of an element.
#[derive(Clone, Debug, PartialEq, Eq)]
pub struct Attribute {
    /// The name of the attribute.
    pub name: &'static str,
    /// The value of the attribute.
    pub value: Value,
}

/// One step of a document: an element opens, or the innermost open element
/// closes.
#[derive(Clone, Debug, PartialEq, Eq)]
pub enum XmlEvent {
    /// An element opens.
    StartElement {
        /// The name of the element.
        name: &'static str,
        /// The attributes of the element, in order.
        attributes: Vec<Attribute>,
    },
    /// The innermost open element closes.
    EndElement,
}

/// The model of a [`Value`].
pub enum ValueView {
    /// Text.
    Text(Seq<char>),
    /// A coordinate.
    Degrees(Extent),
}

/// The model of an [`Attribute`].
pub struct AttributeView {
    /// The name of the attribute.
    pub name: Seq<char>,
    /// The value of the attribute.
    pub value: ValueView,
}

/// The model of an [`XmlEvent`].
pub enum EventView {
    /// An element opens.
    StartElement {
        /// The name of the element.
        name: Seq<char>,
        /// The attributes of the element, in order.
        attributes: Seq<AttributeView>,
    },
    /// The innermost open element closes.
    EndElement,
}

impl View for Value {
    type V = ValueView;

    open spec fn view(&self) -> ValueView {
        match self {
            Value::Text(text) => ValueView::Text(text@),
            Value::Degrees(at) => ValueView::Degrees(*at),
        }
    }
}

impl View for Attribute {
    type V = AttributeView;

    open spec fn view(&self) -> AttributeView {
        AttributeView { name: self.name@, value: self.value@ }
    }
}

impl View for XmlEvent {
    type V = EventView;

    open spec fn view(&self) -> EventView {
        match self {
            XmlEvent::StartElement { name, attributes } => EventView::StartElement {
                name: name@,
                attributes: attributes_view(attributes@),
            },
            XmlEvent::EndElement => EventView::EndElement,
        }
    }
}

/// The models of a list of attributes.
pub open spec fn attributes_view(attributes: Seq<Attribute>) -> Seq<AttributeView> {
    attributes.map_values(|a: Attribute| a@)
}

/// The models of a list of events.
pub open spec fn events_view(events: Seq<XmlEvent>) -> Seq<EventView> {
    events.map_values(|e: XmlEvent| e@)
}

/// An attribute with a text value.
pub open spec fn text_attr(name: Seq<char>, text: Seq<char>) -> AttributeView {
    AttributeView { name, value: ValueView::Text(text) }
}

/// An attribute with a coordinate as its value.
pub open spec fn degrees_attr(name: Seq<char>, at: Extent) -> AttributeView {
    AttributeView { name, value: ValueView::Degrees(at) }
}

/// The six attributes of authorship, with `timestamp` as the text of the time
/// of edit. One that is absent has the empty text as its value: the attribute
/// itself is never left out.
pub open spec fn authorship(info: Info, timestamp: Seq<char>) -> Seq<AttributeView> {
    seq![
        text_attr(
            "user"@,
            match info.user {
                Some(name) => name@,
                None => Seq::empty(),
            },
        ),
        text_attr(
            "uid"@,
            match info.uid {
                Some(uid) => decimal(uid as int),
                None => Seq::empty(),
            },
        ),
        text_attr(
            "visible"@,
            match info.visible {
                Some(visible) => boolean(visible),
                None => Seq::empty(),
            },
        ),
        text_attr(
            "version"@,
            match info.version {
                Some(version) => decimal(version as int),
                None => Seq::empty(),
            },
        ),
        text_attr(
            "changeset"@,
            match info.changeset {
                Some(changeset) => decimal(changeset as int),
                None => Seq::empty(),
            },
        ),
        text_attr("timestamp"@, timestamp),
    ]
}

/// The text of a time of edit: date and time of day in UTC, or nothing where
/// no time is recorded.
pub open spec fn edit_time(timestamp: Option<i64>) -> Seq<char> {
    match timestamp {
        Some(seconds) => utc_text(seconds, TIMESTAMP_FORMAT@),
        None => Seq::empty(),
    }
}

/// The six attributes of authorship.
pub open spec fn info_attributes(info: Info) -> Seq<AttributeView> {
    authorship(info, edit_time(info.timestamp))
}

/// The event that opens the element of a node.
pub open spec fn node_element(node: Node) -> EventView {
    EventView::StartElement {
        name: "node"@,
        attributes: seq![
            text_attr("id"@, decimal(node.id as int)),
            degrees_attr("lat"@, Extent::Finite(node.decimicro_lat)),
            degrees_attr("lon"@, Extent::Finite(node.decimicro_lon)),
        ] + info_attributes(node.info),
    }
}

/// The event that opens the element of a way.
pub open spec fn way_element(way: Way) -> EventView {
    EventView::StartElement {
        name: "way"@,
        attributes: seq![text_attr("id"@, decimal(way.id as int))] + info_attributes(way.info),
    }
}

/// The event that opens the element of a relation.
pub open spec fn relation_element(relation: Relation) -> EventView {
    EventView::StartElement {
        name: "relation"@,
        attributes: seq![text_attr("id"@, decimal(relation.id as int))] + info_attributes(
            relation.info,
        ),
    }
}

/// The event that opens the reference of a way to the node `id`.
pub open spec fn nd_element(id: i64) -> EventView {
    EventView::StartElement { name: "nd"@, attributes: seq![text_attr("ref"@, decimal(id as int))] }
}

/// The event that opens the element of one tag.
pub open spec fn tag_element(tag: (Seq<char>, Seq<char>)) -> EventView {
    EventView::StartElement {
        name: "tag"@,
        attributes: seq![text_attr("k"@, tag.0), text_attr("v"@, tag.1)],
    }
}

/// The word for the kind of object that `id` identifies.
pub open spec fn kind_name(id: OsmId) -> Seq<char> {
    match id {
        OsmId::Node(_) => "node"@,
        OsmId::Way(_) => "way"@,
        OsmId::Relation(_) => "relation"@,
    }
}

/// The event that opens the element of one member of a relation.
pub open spec fn member_element(member: Ref) -> EventView {
    EventView::StartElement {
        name: "member"@,
        attributes: seq![
            text_attr("type"@, kind_name(member.member)),
            text_attr("ref"@, decimal(member.member.spec_inner_id() as int)),
            text_attr("role"@, member.role@),
        ],
    }
}

/// A run of elements without content: each event of `starts`, followed at once
/// by the event that closes it.
pub open spec fn closed(starts: Seq<EventView>) -> Seq<EventView> {
    Seq::new(
        2 * starts.len(),
        |k: int|
            if k % 2 == 0 {
                starts[k / 2]
            } else {
                EventView::EndElement
            },
    )
}

/// The references of a way to its nodes, in order.
pub open spec fn nd_elements(nds: Seq<i64>) -> Seq<EventView> {
    closed(nds.map_values(|id: i64| nd_element(id)))
}

/// The elements of the tags of an object, in order.
pub open spec fn tag_elements(tags: TagSeq) -> Seq<EventView> {
    closed(tags.map_values(|tag: (Seq<char>, Seq<char>)| tag_element(tag)))
}

/// The elements of the members of a relation, in order.
pub open spec fn member_elements(members: Seq<Ref>) -> Seq<EventView> {
    closed(members.map_values(|member: Ref| member_element(member)))
}

proof fn lemma_closed_push(starts: Seq<EventView>, start: EventView)
    ensures
        closed(starts.push(start)) == closed(starts) + seq![start, EventView::EndElement],
{
}

fn text_attribute(name: &'static str, text: String) -> (attribute: Attribute)
    ensures
        attribute@ == text_attr(name@, text@),
{
    Attribute { name, value: Value::Text(text) }
}

fn degrees_attribute(name: &'static str, at: Extent) -> (attribute: Attribute)
    ensures
        attribute@ == degrees_attr(name@, at),
{
    Attribute { name, value: Value::Degrees(at) }
}

/// Appends the six attributes of authorship, with `timestamp` as the text of
/// the time of edit.
pub fn authorship_to_xml(attributes: &mut Vec<Attribute>, info: &Info, timestamp: String)
    ensures
        attributes_view(final(attributes)@) == attributes_view(old(attributes)@) + authorship(
            *info,
            timestamp@,
        ),
{
    let user = match &info.user {
        Some(name) => name.clone(),
        None => String::new(),
    };
    let uid = match info.uid {
        Some(uid) => decimal_text(uid as i64),
        None => String::new(),
    };
    let visible = match info.visible {
        Some(visible) => bool_text(visible),
        None => String::new(),
    };
    let version = match info.version {
        Some(version) => decimal_text(version as i64),
        None => String::new(),
    };
    let changeset = match info.changeset {
        Some(changeset) => decimal_text(changeset),
        None => String::new(),
    };
    attributes.push(text_attribute("user", user));
    attributes.push(text_attribute("uid", uid));
    attributes.push(text_attribute("visible", visible));
    attributes.push(text_attribute("version", version));
    attributes.push(text_attribute("changeset", changeset));
    attributes.push(text_attribute("timestamp", timestamp));
}

/// Writes the time of an edit, or nothing where no time is recorded.
pub fn edit_time_text(timestamp: Option<i64>) -> (text: String)
    requires
        timestamp matches Some(seconds) ==> spec_in_calendar(seconds),
    ensures
        text@ == edit_time(timestamp),
{
    match timestamp {
        Some(seconds) => timestamp_text(seconds),
        None => String::new(),
    }
}

/// Appends the six attributes of authorship.
pub fn info_to_xml(attributes: &mut Vec<Attribute>, info: &Info)
    requires
        info.wf(),
    ensures
        attributes_view(final(attributes)@) == attributes_view(old(attributes)@) + info_attributes(
            *info,
        ),
{
    let timestamp = edit_time_text(info.timestamp);
    authorship_to_xml(attributes, info, timestamp);
}

/// Opens the element of a node: its number, its place and its authorship.
pub fn node_to_xml(out: &mut Vec<XmlEvent>, node: &Node)
    requires
        node.info.wf(),
    ensures
        events_view(final(out)@) == events_view(old(out)@).push(node_element(*node)),
{
    let mut attributes: Vec<Attribute> = Vec::new();
    attributes.push(text_attribute("id", decimal_text(node.id)));
    attributes.push(degrees_attribute("lat", Extent::Finite(node.decimicro_lat)));
    attributes.push(degrees_attribute("lon", Extent::Finite(node.decimicro_lon)));
    assert(attributes_view(attributes@) =~= seq![
        text_attr("id"@, decimal(node.id as int)),
        degrees_attr("lat"@, Extent::Finite(node.decimicro_lat)),
        degrees_attr("lon"@, Extent::Finite(node.decimicro_lon)),
    ]);
    info_to_xml(&mut attributes, &node.info);
    out.push(XmlEvent::StartElement { name: "node", attributes });
}

/// Opens the element of a way: its number and its authorship.
pub fn way_to_xml(out: &mut Vec<XmlEvent>, way: &Way)
    requires
        way.info.wf(),
    ensures
        events_view(final(out)@) == events_view(old(out)@).push(way_element(*way)),
{
    let mut attributes: Vec<Attribute> = Vec::new();
    attributes.push(text_attribute("id", decimal_text(way.id)));
    assert(attributes_view(attributes@) =~= seq![text_attr("id"@, decimal(way.id as int))]);
    info_to_xml(&mut attributes, &way.info);
    out.push(XmlEvent::StartElement { name: "way", attributes });
}

/// Opens the element of a relation: its number and its authorship.
pub fn relation_to_xml(out: &mut Vec<XmlEvent>, relation: &Relation)
    requires
        relation.info.wf(),
    ensures
        events_view(final(out)@) == events_view(old(out)@).push(relation_element(*relation)),
{
    let mut attributes: Vec<Attribute> = Vec::new();
    attributes.push(text_attribute("id", decimal_text(relation.id)));
    assert(attributes_view(attributes@) =~= seq![text_attr("id"@, decimal(relation.id as int))]);
    info_to_xml(&mut attributes, &relation.info);
    out.push(XmlEvent::StartElement { name: "relation", attributes });
}

/// Writes an element without content.
fn leaf_to_xml(out: &mut Vec<XmlEvent>, name: &'static str, attributes: Vec<Attribute>)
    ensures
        events_view(final(out)@) == events_view(old(out)@) + seq![
            EventView::StartElement { name: name@, attributes: attributes_view(attributes@) },
            EventView::EndElement,
        ],
{
    out.push(XmlEvent::StartElement { name, attributes });
    out.push(XmlEvent::EndElement);
}

/// Writes one reference for each node of a way, in order.
pub fn nd_to_xml(out: &mut Vec<XmlEvent>, nds: &Vec<i64>)
    ensures
        events_view(final(out)@) == events_view(old(out)@) + nd_elements(nds@),
{
    let ghost starts = nds@.map_values(|id: i64| nd_element(id));
    let mut i: usize = 0;
    while i < nds.len()
        invariant
            i <= nds.len(),
            starts == nds@.map_values(|id: i64| nd_element(id)),
            events_view(out@) == events_view(old(out)@) + closed(starts.take(i as int)),
        decreases nds.len() - i,
    {
        let mut attributes: Vec<Attribute> = Vec::new();
        attributes.push(text_attribute("ref", decimal_text(nds[i])));
        assert(attributes_view(attributes@) =~= seq![text_attr("ref"@, decimal(nds[i as int] as int))]);
        leaf_to_xml(out, "nd", attributes);
        proof {
            lemma_closed_push(starts.take(i as int), starts[i as int]);
        }
        i += 1;
    }
}

/// Writes one element for each tag, in order.
pub fn tags_to_xml(out: &mut Vec<XmlEvent>, tags: &Tags)
    ensures
        events_view(final(out)@) == events_view(old(out)@) + tag_elements(tags@),
{
    let ghost starts = tags@.map_values(|tag: (Seq<char>, Seq<char>)| tag_element(tag));
    let mut i: usize = 0;
    while i < tags.len()
        invariant
            i <= tags@.len(),
            starts == tags@.map_values(|tag: (Seq<char>, Seq<char>)| tag_element(tag)),
            events_view(out@) == events_view(old(out)@) + closed(starts.take(i as int)),
        decreases tags@.len() - i,
    {
        let (k, v) = tags.entry(i);
        let mut attributes: Vec<Attribute> = Vec::new();
        attributes.push(text_attribute("k", k.clone()));
        attributes.push(text_attribute("v", v.clone()));
        assert(attributes_view(attributes@) =~= seq![
            text_attr("k"@, tags@[i as int].0),
            text_attr("v"@, tags@[i as int].1),
        ]);
        leaf_to_xml(out, "tag", attributes);
        proof {
            lemma_closed_push(starts.take(i as int), starts[i as int]);
        }
        i += 1;
    }
}

/// Writes one element for each member of a relation, in order.
pub fn member_to_xml(out: &mut Vec<XmlEvent>, members: &Vec<Ref>)
    ensures
        events_view(final(out)@) == events_view(old(out)@) + member_elements(members@),
{
    let ghost starts = members@.map_values(|member: Ref| member_element(member));
    let mut i: usize = 0;
    while i < members.len()
        invariant
            i <= members.len(),
            starts == members@.map_values(|member: Ref| member_element(member)),
            events_view(out@) == events_view(old(out)@) + closed(starts.take(i as int)),
        decreases members.len() - i,
    {
        let m = &members[i];
        let (kind, id) = match m.member {
            OsmId::Node(x) => ("node", x),
            OsmId::Way(x) => ("way", x),
            OsmId::Relation(x) => ("relation", x),
        };
        let mut attributes: Vec<Attribute> = Vec::new();
        attributes.push(text_attribute("type", kind.to_owned()));
        attributes.push(text_attribute("ref", decimal_text(id)));
        attributes.push(text_attribute("role", m.role.clone()));
        assert(attributes_view(attributes@) =~= seq![
            text_attr("type"@, kind_name(m.member)),
            text_attr("ref"@, decimal(m.member.spec_inner_id() as int)),
            text_attr("role"@, m.role@),
        ]);
        leaf_to_xml(out, "member", attributes);
        proof {
            lemma_closed_push(starts.take(i as int), starts[i as int]);
        }
        i += 1;
    }
}

/// The events of one object: its element opens, its references or members
/// follow, then its tags, and the element closes.
pub open spec fn object_events(obj: OsmObj) -> Seq<EventView> {
    match obj {
        OsmObj::Node(node) => seq![node_element(node)] + tag_elements(node.tags@)
            + seq![EventView::EndElement],
        OsmObj::Way(way) => seq![way_element(way)] + nd_elements(way.nodes@) + tag_elements(
            way.tags@,
        ) + seq![EventView::EndElement],
        OsmObj::Relation(relation) => seq![relation_element(relation)] + member_elements(
            relation.refs@,
        ) + tag_elements(relation.tags@) + seq![EventView::EndElement],
    }
}

/// The event that opens the root of the document.
pub open spec fn osm_element() -> EventView {
    EventView::StartElement { name: "osm"@, attributes: seq![text_attr("version"@, "0.6"@)] }
}

/// The event that opens the declaration of the bounds.
pub open spec fn bounds_element(bounds: Bounds) -> EventView {
    EventView::StartElement {
        name: "bounds"@,
        attributes: seq![
            degrees_attr("minlat"@, bounds.min_lat),
            degrees_attr("minlon"@, bounds.min_lon),
            degrees_attr("maxlat"@, bounds.max_lat),
            degrees_attr("maxlon"@, bounds.max_lon),
        ],
    }
}

/// The events of all of `items`, one object after the other.
pub open spec fn items_events(items: Seq<OsmObj>) -> Seq<EventView> {
    items.map_values(|obj: OsmObj| object_events(obj)).flatten()
}

/// The whole document: the root opens, the bounds are declared, the objects
/// follow in the order of `items`, and the root closes.
pub open spec fn document(items: Seq<OsmObj>, bounds: Bounds) -> Seq<EventView> {
    seq![osm_element(), bounds_element(bounds), EventView::EndElement] + items_events(items)
        + seq![EventView::EndElement]
}

/// Every object of `items` has authorship that can be written.
pub open spec fn all_writable(items: Seq<OsmObj>) -> bool {
    forall|i: int| 0 <= i < items.len() ==> (#[trigger] items[i]).spec_info().wf()
}

fn end_to_xml(out: &mut Vec<XmlEvent>)
    ensures
        events_view(final(out)@) == events_view(old(out)@).push(EventView::EndElement),
{
    out.push(XmlEvent::EndElement);
}

/// Writes one object with all that belongs to it.
pub fn object_to_xml(out: &mut Vec<XmlEvent>, obj: &OsmObj)
    requires
        obj.spec_info().wf(),
    ensures
        events_view(final(out)@) == events_view(old(out)@) + object_events(*obj),
{
    match obj {
        OsmObj::Node(n) => {
            node_to_xml(out, n);
            tags_to_xml(out, &n.tags);
            end_to_xml(out);
        },
        OsmObj::Way(w) => {
            way_to_xml(out, w);
            nd_to_xml(out, &w.nodes);
            tags_to_xml(out, &w.tags);
            end_to_xml(out);
        },
        OsmObj::Relation(r) => {
            relation_to_xml(out, r);
            member_to_xml(out, &r.refs);
            tags_to_xml(out, &r.tags);
            end_to_xml(out);
        },
    }
}

/// Lays out the document for `items` within `bounds`. Its events are well
/// nested, so that a writer can print them one after the other.
pub fn osm_document(items: &Vec<&OsmObj>, bounds: Bounds) -> (out: Vec<XmlEvent>)
    requires
        all_writable(objects_of(items@)),
    ensures
        events_view(out@) == document(objects_of(items@), bounds),
        well_nested(events_view(out@)),
{
    let mut out: Vec<XmlEvent> = Vec::new();
    let mut root: Vec<Attribute> = Vec::new();
    root.push(text_attribute("version", "0.6".to_owned()));
    assert(attributes_view(root@) =~= seq![text_attr("version"@, "0.6"@)]);
    out.push(XmlEvent::StartElement { name: "osm", attributes: root });
    let mut sides: Vec<Attribute> = Vec::new();
    sides.push(degrees_attribute("minlat", bounds.min_lat));
    sides.push(degrees_attribute("minlon", bounds.min_lon));
    sides.push(degrees_attribute("maxlat", bounds.max_lat));
    sides.push(degrees_attribute("maxlon", bounds.max_lon));
    assert(attributes_view(sides@) =~= seq![
        degrees_attr("minlat"@, bounds.min_lat),
        degrees_attr("minlon"@, bounds.min_lon),
        degrees_attr("maxlat"@, bounds.max_lat),
        degrees_attr("maxlon"@, bounds.max_lon),
    ]);
    leaf_to_xml(&mut out, "bounds", sides);
    let ghost head = seq![osm_element(), bounds_element(bounds), EventView::EndElement];
    let ghost each = objects_of(items@).map_values(|obj: OsmObj| object_events(obj));
    let mut i: usize = 0;
    while i < items.len()
        invariant
            i <= items.len(),
            all_writable(objects_of(items@)),
            each == objects_of(items@).map_values(|obj: OsmObj| object_events(obj)),
            events_view(out@) == head + each.take(i as int).flatten(),
        decreases items.len() - i,
    {
        assert(objects_of(items@)[i as int] == *items@[i as int]);
        object_to_xml(&mut out, items[i]);
        proof {
            each.take(i as int).lemma_flatten_push(each[i as int]);
            assert(each.take(i + 1) =~= each.take(i as int).push(each[i as int]));
        }
        i += 1;
    }
    assert(each.take(items.len() as int) =~= each);
    end_to_xml(&mut out);
    proof {
        assert(events_view(out@) =~= document(objects_of(items@), bounds));
        lemma_document_well_nested(objects_of(items@), bounds);
    }
    out
}

} // verus!
