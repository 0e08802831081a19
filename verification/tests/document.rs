use driveway_filter::bounds::{Bounds, Extent};
use driveway_filter::dataset::DataSet;
use driveway_filter::document::{
    authorship_to_xml, edit_time_text, info_to_xml, member_to_xml, nd_to_xml, node_to_xml,
    object_to_xml, osm_document, relation_to_xml, tags_to_xml, way_to_xml, Attribute, Value,
    XmlEvent,
};
use driveway_filter::export::{export, is_all_writable, try_export};
use driveway_filter::objects::{Info, Node, OsmId, OsmObj, Ref, Relation, Way};
use driveway_filter::strings::{TIMESTAMP_MAX, TIMESTAMP_MIN};
use driveway_filter::tags::Tags;

fn text(name: &'static str, value: &str) -> Attribute {
    Attribute { name, value: Value::Text(value.to_string()) }
}

fn degrees(name: &'static str, value: i32) -> Attribute {
    Attribute { name, value: Value::Degrees(Extent::Finite(value)) }
}

fn start(name: &'static str, attributes: Vec<Attribute>) -> XmlEvent {
    XmlEvent::StartElement { name, attributes }
}

fn tagged(pairs: &[(&str, &str)]) -> Tags {
    let mut tags = Tags::new();
    for (k, v) in pairs {
        tags.insert(k.to_string(), v.to_string());
    }
    tags
}

fn full_info() -> Info {
    Info {
        user: Some("alice".to_string()),
        uid: Some(42),
        visible: Some(true),
        version: Some(3),
        changeset: Some(987_654_321_012),
        timestamp: Some(1_546_300_800),
    }
}

fn full_info_attributes() -> Vec<Attribute> {
    vec![
        text("user", "alice"),
        text("uid", "42"),
        text("visible", "true"),
        text("version", "3"),
        text("changeset", "987654321012"),
        text("timestamp", "2019-01-01T00:00:00Z"),
    ]
}

fn absent_info_attributes() -> Vec<Attribute> {
    vec![
        text("user", ""),
        text("uid", ""),
        text("visible", ""),
        text("version", ""),
        text("changeset", ""),
        text("timestamp", ""),
    ]
}

#[test]
fn node_element_has_number_place_and_authorship() {
    let node = Node { id: -7, tags: Tags::new(), decimicro_lat: 431_234_567, decimicro_lon: -712_345_678, info: full_info() };
    let mut out = Vec::new();
    node_to_xml(&mut out, &node);
    let mut attributes = vec![text("id", "-7"), degrees("lat", 431_234_567), degrees("lon", -712_345_678)];
    attributes.extend(full_info_attributes());
    assert_eq!(out, vec![start("node", attributes)]);
}

#[test]
fn absent_authorship_gives_empty_attributes() {
    let node = Node { id: 1, tags: Tags::new(), decimicro_lat: 0, decimicro_lon: 0, info: Info::unknown() };
    let mut out = Vec::new();
    node_to_xml(&mut out, &node);
    let mut attributes = vec![text("id", "1"), degrees("lat", 0), degrees("lon", 0)];
    attributes.extend(absent_info_attributes());
    assert_eq!(out, vec![start("node", attributes)]);
}

#[test]
fn way_element_has_number_and_authorship() {
    let way = Way { id: 123_456_789_012, tags: Tags::new(), nodes: vec![1, 2], info: full_info() };
    let mut out = vec![XmlEvent::EndElement];
    way_to_xml(&mut out, &way);
    let mut attributes = vec![text("id", "123456789012")];
    attributes.extend(full_info_attributes());
    assert_eq!(out, vec![XmlEvent::EndElement, start("way", attributes)]);
}

#[test]
fn relation_element_has_number_and_authorship() {
    let mut info = Info::unknown();
    info.visible = Some(false);
    info.uid = Some(-1);
    info.timestamp = Some(-1);
    let relation = Relation { id: 5, tags: Tags::new(), refs: Vec::new(), info };
    let mut out = Vec::new();
    relation_to_xml(&mut out, &relation);
    assert_eq!(
        out,
        vec![start(
            "relation",
            vec![
                text("id", "5"),
                text("user", ""),
                text("uid", "-1"),
                text("visible", "false"),
                text("version", ""),
                text("changeset", ""),
                text("timestamp", "1969-12-31T23:59:59Z"),
            ]
        )]
    );
}

#[test]
fn authorship_takes_the_timestamp_as_given() {
    let mut attributes = vec![text("id", "1")];
    authorship_to_xml(&mut attributes, &full_info(), "then".to_string());
    let mut expected = vec![text("id", "1")];
    expected.extend(full_info_attributes());
    expected[6] = text("timestamp", "then");
    assert_eq!(attributes, expected);
}

#[test]
fn info_to_xml_appends_six_attributes() {
    let mut attributes = Vec::new();
    info_to_xml(&mut attributes, &full_info());
    assert_eq!(attributes, full_info_attributes());
    let mut none = Vec::new();
    info_to_xml(&mut none, &Info::unknown());
    assert_eq!(none, absent_info_attributes());
}

#[test]
fn edit_time_text_of_present_and_absent() {
    assert_eq!(edit_time_text(None), "");
    assert_eq!(edit_time_text(Some(0)), "1970-01-01T00:00:00Z");
    assert_eq!(edit_time_text(Some(1_234_567_890)), "2009-02-13T23:31:30Z");
}

#[test]
fn nd_elements_follow_the_way() {
    let mut out = Vec::new();
    nd_to_xml(&mut out, &vec![3, -4, 3]);
    assert_eq!(
        out,
        vec![
            start("nd", vec![text("ref", "3")]),
            XmlEvent::EndElement,
            start("nd", vec![text("ref", "-4")]),
            XmlEvent::EndElement,
            start("nd", vec![text("ref", "3")]),
            XmlEvent::EndElement,
        ]
    );
    let mut none = vec![XmlEvent::EndElement];
    nd_to_xml(&mut none, &Vec::new());
    assert_eq!(none, vec![XmlEvent::EndElement]);
}

#[test]
fn tag_elements_follow_the_tags() {
    let mut out = Vec::new();
    tags_to_xml(&mut out, &tagged(&[("service", "driveway"), ("access", "private"), ("name", "")]));
    assert_eq!(
        out,
        vec![
            start("tag", vec![text("k", "access"), text("v", "private")]),
            XmlEvent::EndElement,
            start("tag", vec![text("k", "name"), text("v", "")]),
            XmlEvent::EndElement,
            start("tag", vec![text("k", "service"), text("v", "driveway")]),
            XmlEvent::EndElement,
        ]
    );
}

#[test]
fn member_elements_name_kind_number_and_role() {
    let members = vec![
        Ref { member: OsmId::Node(1), role: "stop".to_string() },
        Ref { member: OsmId::Way(-2), role: "".to_string() },
        Ref { member: OsmId::Relation(3), role: "outer".to_string() },
    ];
    let mut out = Vec::new();
    member_to_xml(&mut out, &members);
    assert_eq!(
        out,
        vec![
            start("member", vec![text("type", "node"), text("ref", "1"), text("role", "stop")]),
            XmlEvent::EndElement,
            start("member", vec![text("type", "way"), text("ref", "-2"), text("role", "")]),
            XmlEvent::EndElement,
            start("member", vec![text("type", "relation"), text("ref", "3"), text("role", "outer")]),
            XmlEvent::EndElement,
        ]
    );
}

#[test]
fn object_of_each_kind_is_written_whole() {
    let node = OsmObj::Node(Node { id: 1, tags: tagged(&[("a", "b")]), decimicro_lat: 2, decimicro_lon: 3, info: Info::unknown() });
    let way = OsmObj::Way(Way { id: 4, tags: tagged(&[("c", "d")]), nodes: vec![1], info: Info::unknown() });
    let relation = OsmObj::Relation(Relation {
        id: 5,
        tags: tagged(&[("e", "f")]),
        refs: vec![Ref { member: OsmId::Way(4), role: "r".to_string() }],
        info: Info::unknown(),
    });
    let with_info = |mut head: Vec<Attribute>| {
        head.extend(absent_info_attributes());
        head
    };
    let mut out = Vec::new();
    object_to_xml(&mut out, &node);
    assert_eq!(
        out,
        vec![
            start("node", with_info(vec![text("id", "1"), degrees("lat", 2), degrees("lon", 3)])),
            start("tag", vec![text("k", "a"), text("v", "b")]),
            XmlEvent::EndElement,
            XmlEvent::EndElement,
        ]
    );
    let mut out = Vec::new();
    object_to_xml(&mut out, &way);
    assert_eq!(
        out,
        vec![
            start("way", with_info(vec![text("id", "4")])),
            start("nd", vec![text("ref", "1")]),
            XmlEvent::EndElement,
            start("tag", vec![text("k", "c"), text("v", "d")]),
            XmlEvent::EndElement,
            XmlEvent::EndElement,
        ]
    );
    let mut out = Vec::new();
    object_to_xml(&mut out, &relation);
    assert_eq!(
        out,
        vec![
            start("relation", with_info(vec![text("id", "5")])),
            start("member", vec![text("type", "way"), text("ref", "4"), text("role", "r")]),
            XmlEvent::EndElement,
            start("tag", vec![text("k", "e"), text("v", "f")]),
            XmlEvent::EndElement,
            XmlEvent::EndElement,
        ]
    );
}

#[test]
fn empty_document_has_root_and_bounds() {
    let out = osm_document(&Vec::new(), Bounds::empty());
    assert_eq!(
        out,
        vec![
            start("osm", vec![text("version", "0.6")]),
            start(
                "bounds",
                vec![
                    Attribute { name: "minlat", value: Value::Degrees(Extent::PosInfinity) },
                    Attribute { name: "minlon", value: Value::Degrees(Extent::PosInfinity) },
                    Attribute { name: "maxlat", value: Value::Degrees(Extent::NegInfinity) },
                    Attribute { name: "maxlon", value: Value::Degrees(Extent::NegInfinity) },
                ]
            ),
            XmlEvent::EndElement,
            XmlEvent::EndElement,
        ]
    );
}

fn driveway_data() -> DataSet {
    let mut data = DataSet::new();
    let mut by_alice = Info::unknown();
    by_alice.user = Some("alice".to_string());
    data.insert(OsmObj::Way(Way {
        id: 2,
        tags: tagged(&[("service", "driveway"), ("access", "private")]),
        nodes: vec![3, 4],
        info: by_alice.clone(),
    }));
    data.insert(OsmObj::Way(Way {
        id: 1,
        tags: tagged(&[("service", "driveway"), ("access", "private")]),
        nodes: vec![1, 2],
        info: by_alice,
    }));
    data.insert(OsmObj::Node(Node { id: 1, tags: Tags::new(), decimicro_lat: 1, decimicro_lon: 1, info: Info::unknown() }));
    data.insert(OsmObj::Node(Node { id: 2, tags: tagged(&[("barrier", "gate")]), decimicro_lat: 2, decimicro_lon: 2, info: Info::unknown() }));
    data.insert(OsmObj::Node(Node { id: 3, tags: Tags::new(), decimicro_lat: 30, decimicro_lon: -40, info: Info::unknown() }));
    data.insert(OsmObj::Node(Node { id: 4, tags: tagged(&[("note", "x")]), decimicro_lat: 50, decimicro_lon: -60, info: Info::unknown() }));
    data
}

#[test]
fn export_writes_survivors_within_their_bounds() {
    let out = export(&driveway_data());
    let with_info = |mut head: Vec<Attribute>, user: &str| {
        head.push(text("user", user));
        head.extend(absent_info_attributes().into_iter().skip(1));
        head
    };
    assert_eq!(
        out,
        vec![
            start("osm", vec![text("version", "0.6")]),
            start(
                "bounds",
                vec![degrees("minlat", 30), degrees("minlon", -60), degrees("maxlat", 50), degrees("maxlon", -40)]
            ),
            XmlEvent::EndElement,
            start("node", with_info(vec![text("id", "3"), degrees("lat", 30), degrees("lon", -40)], "")),
            XmlEvent::EndElement,
            start("node", with_info(vec![text("id", "4"), degrees("lat", 50), degrees("lon", -60)], "")),
            start("tag", vec![text("k", "note"), text("v", "x")]),
            XmlEvent::EndElement,
            XmlEvent::EndElement,
            start("way", with_info(vec![text("id", "2")], "alice")),
            start("nd", vec![text("ref", "3")]),
            XmlEvent::EndElement,
            start("nd", vec![text("ref", "4")]),
            XmlEvent::EndElement,
            start("tag", vec![text("k", "access"), text("v", "private")]),
            XmlEvent::EndElement,
            start("tag", vec![text("k", "service"), text("v", "driveway")]),
            XmlEvent::EndElement,
            XmlEvent::EndElement,
            XmlEvent::EndElement,
        ]
    );
}

#[test]
fn export_twice_gives_the_same_document() {
    let data = driveway_data();
    assert_eq!(export(&data), export(&data));
    assert_eq!(try_export(&data), Some(export(&driveway_data())));
}

#[test]
fn start_and_end_events_balance() {
    let out = export(&driveway_data());
    let mut depth: i64 = 0;
    for event in out.iter() {
        match event {
            XmlEvent::StartElement { .. } => depth += 1,
            XmlEvent::EndElement => depth -= 1,
        }
        assert!(depth >= 0);
    }
    assert_eq!(depth, 0);
}

#[test]
fn try_export_refuses_a_time_outside_the_calendar() {
    let mut info = Info::unknown();
    info.timestamp = Some(TIMESTAMP_MAX + 1);
    assert!(!info.is_wf());
    let mut data = DataSet::new();
    data.insert(OsmObj::Way(Way { id: 1, tags: Tags::new(), nodes: Vec::new(), info: info.clone() }));
    assert_eq!(try_export(&data), None);
    let way = OsmObj::Way(Way { id: 1, tags: Tags::new(), nodes: Vec::new(), info });
    assert!(!is_all_writable(&vec![&way]));
    assert!(is_all_writable(&Vec::new()));
}

#[test]
fn try_export_ignores_times_of_objects_that_are_dropped() {
    let mut info = Info::unknown();
    info.timestamp = Some(TIMESTAMP_MIN - 1);
    let mut data = DataSet::new();
    data.insert(OsmObj::Node(Node { id: 1, tags: Tags::new(), decimicro_lat: 0, decimicro_lon: 0, info }));
    let mut ok = Info::unknown();
    ok.timestamp = Some(TIMESTAMP_MIN);
    assert!(ok.is_wf());
    data.insert(OsmObj::Way(Way { id: 1, tags: Tags::new(), nodes: vec![2], info: ok }));
    let out = try_export(&data).unwrap();
    assert_eq!(out.len(), 8);
}

#[test]
fn export_does_not_depend_on_the_order_of_insertion() {
    let forward = driveway_data();
    let mut backward = DataSet::new();
    for obj in forward.objs().iter().rev() {
        backward.insert(obj.clone());
    }
    assert_eq!(export(&forward), export(&backward));
}
