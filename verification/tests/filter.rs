use driveway_filter::bounds::{get_bounds, Bounds, Extent};
use driveway_filter::dataset::DataSet;
use driveway_filter::editors::{parse_amazon_editors, Editors};
use driveway_filter::filter::{
    good_items, good_node_ids, good_nodes, good_ways, is_candidate, poison_nodes, way_avoids,
};
use driveway_filter::objects::{Info, Node, OsmId, OsmObj, Ref, Relation, Way};
use driveway_filter::tags::Tags;
use std::collections::HashSet;

fn tags_of(pairs: &[(&str, &str)]) -> Tags {
    let mut tags = Tags::new();
    for (k, v) in pairs {
        tags.insert(k.to_string(), v.to_string());
    }
    tags
}

fn by(user: Option<&str>) -> Info {
    let mut info = Info::unknown();
    info.user = user.map(|name| name.to_string());
    info
}

fn node(id: i64, lat: i32, lon: i32, pairs: &[(&str, &str)]) -> OsmObj {
    OsmObj::Node(Node { id, tags: tags_of(pairs), decimicro_lat: lat, decimicro_lon: lon, info: Info::unknown() })
}

fn way(id: i64, user: Option<&str>, pairs: &[(&str, &str)], nodes: &[i64]) -> OsmObj {
    OsmObj::Way(Way { id, tags: tags_of(pairs), nodes: nodes.to_vec(), info: by(user) })
}

fn data_of(objs: Vec<OsmObj>) -> DataSet {
    let mut data = DataSet::new();
    for obj in objs {
        data.insert(obj);
    }
    data
}

fn ids(items: &[&OsmObj]) -> Vec<OsmId> {
    items.iter().map(|obj| obj.id()).collect()
}

const DRIVEWAY: [(&str, &str); 2] = [("service", "driveway"), ("access", "private")];

fn alice() -> Editors {
    parse_amazon_editors("alice\n")
}

#[test]
fn way_through_a_barrier_is_dropped_with_its_nodes() {
    let editors = alice();
    let w1 = way(1, Some("alice"), &DRIVEWAY, &[1, 2]);
    assert!(is_candidate(&w1, &editors));
    let data = data_of(vec![w1, node(1, 10, 20, &[]), node(2, 30, 40, &[("barrier", "gate")])]);
    let poison = poison_nodes(&data);
    assert_eq!(poison, HashSet::from([2]));
    let ways = good_ways(&data, &poison);
    assert!(ways.is_empty());
    let node_ids = good_node_ids(&ways);
    assert!(node_ids.is_empty());
    assert!(good_nodes(&data, &node_ids).is_empty());
    let items = good_items(&data);
    assert!(items.is_empty());
    assert_eq!(get_bounds(&items), Bounds::empty());
}

#[test]
fn clean_way_is_kept_with_its_nodes() {
    let editors = alice();
    let w2 = way(2, Some("alice"), &DRIVEWAY, &[3, 4]);
    assert!(is_candidate(&w2, &editors));
    let n3 = node(3, 431_234_567, -712_345_678, &[]);
    let n4 = node(4, 431_000_000, -711_000_000, &[]);
    let data = data_of(vec![w2.clone(), n3.clone(), n4.clone()]);
    assert!(poison_nodes(&data).is_empty());
    let items = good_items(&data);
    assert_eq!(items, vec![&n3, &n4, &w2]);
    let bounds = get_bounds(&items);
    assert_eq!(
        bounds,
        Bounds {
            min_lat: Extent::Finite(431_000_000),
            min_lon: Extent::Finite(-712_345_678),
            max_lat: Extent::Finite(431_234_567),
            max_lon: Extent::Finite(-711_000_000),
        }
    );
    let degrees = |e: Extent| match e {
        Extent::Finite(c) => c as f64 * 1e-7,
        Extent::PosInfinity => f64::INFINITY,
        Extent::NegInfinity => f64::NEG_INFINITY,
    };
    assert_eq!(degrees(bounds.min_lat), 431_000_000f64 * 1e-7);
    assert_eq!(degrees(bounds.max_lat), 431_234_567f64 * 1e-7);
    assert_eq!(degrees(bounds.min_lon), -712_345_678f64 * 1e-7);
    assert_eq!(degrees(bounds.max_lon), -711_000_000f64 * 1e-7);
}

#[test]
fn way_of_an_unlisted_editor_is_no_candidate() {
    let editors = alice();
    let w3 = way(3, Some("bob"), &DRIVEWAY, &[1]);
    assert!(!is_candidate(&w3, &editors));
}

#[test]
fn public_driveway_is_no_candidate() {
    let editors = alice();
    let w4 = way(4, Some("alice"), &[("service", "driveway"), ("access", "public")], &[1]);
    assert!(!is_candidate(&w4, &editors));
}

#[test]
fn candidate_needs_every_condition() {
    let editors = alice();
    assert!(is_candidate(&way(1, Some("alice"), &DRIVEWAY, &[]), &editors));
    assert!(is_candidate(
        &way(1, Some("alice"), &[("name", "x"), ("access", "private"), ("surface", "gravel"), ("service", "driveway")], &[]),
        &editors
    ));
    assert!(!is_candidate(&way(1, None, &DRIVEWAY, &[]), &editors));
    assert!(!is_candidate(&way(1, Some(""), &DRIVEWAY, &[]), &editors));
    assert!(!is_candidate(&way(1, Some("Alice"), &DRIVEWAY, &[]), &editors));
    assert!(!is_candidate(&way(1, Some("alice "), &DRIVEWAY, &[]), &editors));
    assert!(!is_candidate(&way(1, Some("alice"), &[("service", "driveway")], &[]), &editors));
    assert!(!is_candidate(&way(1, Some("alice"), &[("access", "private")], &[]), &editors));
    assert!(!is_candidate(&way(1, Some("alice"), &[("service", "alley"), ("access", "private")], &[]), &editors));
    assert!(!is_candidate(&way(1, Some("alice"), &[("service", "private"), ("access", "driveway")], &[]), &editors));
    assert!(!is_candidate(&way(1, Some("alice"), &[], &[]), &editors));
    assert!(!is_candidate(&way(1, Some("alice"), &DRIVEWAY, &[]), &Editors::new()));
}

#[test]
fn only_ways_are_candidates() {
    let editors = alice();
    let n = OsmObj::Node(Node {
        id: 1,
        tags: tags_of(&DRIVEWAY),
        decimicro_lat: 0,
        decimicro_lon: 0,
        info: by(Some("alice")),
    });
    let r = OsmObj::Relation(Relation { id: 1, tags: tags_of(&DRIVEWAY), refs: Vec::new(), info: by(Some("alice")) });
    assert!(!is_candidate(&n, &editors));
    assert!(!is_candidate(&r, &editors));
}

#[test]
fn any_barrier_value_disqualifies() {
    let data = data_of(vec![
        node(1, 0, 0, &[("barrier", "gate")]),
        node(2, 0, 0, &[("barrier", "")]),
        node(3, 0, 0, &[("highway", "barrier")]),
        node(4, 0, 0, &[("name", "x"), ("barrier", "bollard")]),
        node(5, 0, 0, &[]),
        way(6, None, &[("barrier", "fence")], &[5]),
        node(7, 0, 0, &[("Barrier", "gate")]),
    ]);
    assert_eq!(poison_nodes(&data), HashSet::from([1, 2, 4]));
}

#[test]
fn barrier_on_an_unused_node_changes_nothing() {
    let w = way(1, Some("alice"), &DRIVEWAY, &[1, 2]);
    let n1 = node(1, 1, 1, &[]);
    let n2 = node(2, 2, 2, &[]);
    let data = data_of(vec![w.clone(), n1.clone(), n2.clone(), node(3, 3, 3, &[("barrier", "gate")])]);
    assert_eq!(poison_nodes(&data), HashSet::from([3]));
    assert_eq!(good_items(&data), vec![&n1, &n2, &w]);
}

#[test]
fn one_barrier_drops_only_the_ways_through_it() {
    let a = way(10, Some("alice"), &DRIVEWAY, &[1, 2]);
    let b = way(11, Some("alice"), &DRIVEWAY, &[2, 3]);
    let c = way(12, Some("alice"), &DRIVEWAY, &[3, 4, 5]);
    let n = |id| node(id, id as i32, -(id as i32), if id == 1 { &[("barrier", "gate")] } else { &[] });
    let data = data_of(vec![c.clone(), b.clone(), a, n(5), n(4), n(3), n(2), n(1)]);
    let items = good_items(&data);
    assert_eq!(
        ids(&items),
        vec![OsmId::Node(2), OsmId::Node(3), OsmId::Node(4), OsmId::Node(5), OsmId::Way(11), OsmId::Way(12)]
    );
    assert_eq!(items[4], &b);
    assert_eq!(items[5], &c);
}

#[test]
fn shared_node_is_handed_on_once() {
    let a = way(10, Some("alice"), &DRIVEWAY, &[1, 2, 1]);
    let b = way(11, Some("alice"), &DRIVEWAY, &[2, 3]);
    let data = data_of(vec![a, b, node(1, 0, 0, &[]), node(2, 0, 0, &[]), node(3, 0, 0, &[])]);
    let items = good_items(&data);
    assert_eq!(
        ids(&items),
        vec![OsmId::Node(1), OsmId::Node(2), OsmId::Node(3), OsmId::Way(10), OsmId::Way(11)]
    );
}

#[test]
fn missing_node_is_passed_over() {
    let w = way(1, Some("alice"), &DRIVEWAY, &[1, 99, 2]);
    let n1 = node(1, 5, 6, &[]);
    let n2 = node(2, 7, 8, &[]);
    let data = data_of(vec![w.clone(), n1.clone(), n2.clone()]);
    let poison = poison_nodes(&data);
    let ways = good_ways(&data, &poison);
    assert_eq!(good_node_ids(&ways), HashSet::from([1, 2, 99]));
    assert_eq!(good_items(&data), vec![&n1, &n2, &w]);
}

#[test]
fn way_without_nodes_survives() {
    let w = way(1, Some("alice"), &DRIVEWAY, &[]);
    let data = data_of(vec![w.clone(), node(1, 0, 0, &[("barrier", "gate")])]);
    assert_eq!(good_items(&data), vec![&w]);
}

#[test]
fn relations_are_never_handed_on() {
    let r = OsmObj::Relation(Relation {
        id: 1,
        tags: tags_of(&DRIVEWAY),
        refs: vec![Ref { member: OsmId::Node(1), role: "stop".to_string() }],
        info: by(Some("alice")),
    });
    let data = data_of(vec![r, node(1, 0, 0, &[])]);
    assert!(good_items(&data).is_empty());
}

#[test]
fn empty_data_set_hands_on_nothing() {
    let data = DataSet::new();
    assert!(poison_nodes(&data).is_empty());
    assert!(good_items(&data).is_empty());
}

#[test]
fn way_avoids_checks_every_node() {
    let w = Way { id: 1, tags: Tags::new(), nodes: vec![1, 2, 3], info: Info::unknown() };
    assert!(way_avoids(&w, &HashSet::new()));
    assert!(way_avoids(&w, &HashSet::from([4, 5])));
    assert!(!way_avoids(&w, &HashSet::from([1])));
    assert!(!way_avoids(&w, &HashSet::from([2])));
    assert!(!way_avoids(&w, &HashSet::from([3])));
    assert!(!way_avoids(&w, &HashSet::from([0, 3, 9])));
}

#[test]
fn every_node_of_a_surviving_way_that_exists_is_handed_on() {
    let ways = vec![
        way(1, Some("alice"), &DRIVEWAY, &[1, 2, 3]),
        way(2, Some("alice"), &DRIVEWAY, &[3, 4]),
        way(3, Some("alice"), &DRIVEWAY, &[5, 6]),
        way(4, Some("alice"), &DRIVEWAY, &[6, 7, 8]),
    ];
    let mut objs = ways.clone();
    for id in 1..=8 {
        objs.push(node(id, 0, 0, if id == 4 || id == 7 { &[("barrier", "gate")] } else { &[] }));
    }
    let data = data_of(objs);
    let poison = poison_nodes(&data);
    let items = good_items(&data);
    for w in ways.iter() {
        let nodes = match w {
            OsmObj::Way(w) => &w.nodes,
            _ => unreachable!(),
        };
        let clean = nodes.iter().all(|id| !poison.contains(id));
        assert_eq!(items.contains(&w), clean);
        if clean {
            for id in nodes {
                assert!(items.iter().any(|obj| obj.id() == OsmId::Node(*id)));
            }
        }
    }
    assert_eq!(ids(&items), vec![OsmId::Node(1), OsmId::Node(2), OsmId::Node(3), OsmId::Node(5), OsmId::Node(6), OsmId::Way(1), OsmId::Way(3)]);
}
