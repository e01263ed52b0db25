use osm2lanes::{
    check_roundtrip, decimal_string, lanes_to_tags, Config, Lane, LaneDesignated, LaneDirection,
    LanePrintable, LanesToTagsConfig, RoadError, Tags, TagsRead,
};

fn motor(d: LaneDirection) -> Lane {
    Lane::Travel { direction: Some(d), designated: LaneDesignated::Motor }
}

fn travel(d: LaneDirection, designated: LaneDesignated) -> Lane {
    Lane::Travel { direction: Some(d), designated }
}

fn run(lanes: &[Lane]) -> Tags {
    lanes_to_tags(lanes, &Config::new().build(), &LanesToTagsConfig::default()).unwrap()
}

fn pairs(tags: &Tags) -> Vec<(String, String)> {
    tags.map().clone()
}

fn expect(list: &[(&str, &str)]) -> Vec<(String, String)> {
    list.iter().map(|(k, v)| (k.to_string(), v.to_string())).collect()
}

#[test]
fn two_way_road() {
    let tags = run(&[motor(LaneDirection::Backward), motor(LaneDirection::Forward)]);
    assert_eq!(
        pairs(&tags),
        expect(&[("highway", "road"), ("lanes", "2"), ("shoulder", "no"), ("sidewalk", "no")])
    );
}

#[test]
fn oneway_with_contraflow_cycle_lane() {
    let tags = run(&[
        travel(LaneDirection::Backward, LaneDesignated::Bicycle),
        motor(LaneDirection::Forward),
        Lane::Shoulder,
    ]);
    assert_eq!(
        pairs(&tags),
        expect(&[
            ("highway", "road"),
            ("lanes", "1"),
            ("oneway", "yes"),
            ("shoulder", "right"),
            ("sidewalk", "no"),
            ("cycleway:left", "lane"),
            ("oneway:bicycle", "no"),
            ("cycleway:left:oneway", "-1"),
        ])
    );
}

#[test]
fn sidewalks_parking_and_cycle_both() {
    let tags = run(&[
        travel(LaneDirection::Both, LaneDesignated::Foot),
        travel(LaneDirection::Backward, LaneDesignated::Bicycle),
        Lane::Parking { direction: LaneDirection::Backward, designated: LaneDesignated::Motor },
        motor(LaneDirection::Backward),
        motor(LaneDirection::Forward),
        Lane::Parking { direction: LaneDirection::Forward, designated: LaneDesignated::Motor },
        travel(LaneDirection::Forward, LaneDesignated::Bicycle),
        travel(LaneDirection::Both, LaneDesignated::Foot),
    ]);
    assert_eq!(
        pairs(&tags),
        expect(&[
            ("highway", "road"),
            ("lanes", "2"),
            ("shoulder", "no"),
            ("sidewalk", "both"),
            ("parking:lane:both", "parallel"),
            ("cycleway:both", "lane"),
            ("cycleway:left:oneway", "-1"),
            ("cycleway:right:oneway", "yes"),
        ])
    );
}

#[test]
fn inner_bus_lane_listed_per_lane() {
    let tags = run(&[
        motor(LaneDirection::Backward),
        travel(LaneDirection::Forward, LaneDesignated::Bus),
        motor(LaneDirection::Forward),
    ]);
    assert_eq!(tags.get("bus:lanes").map(|s| s.as_str()), Some("|designated|"));
    assert_eq!(tags.get("lanes").map(|s| s.as_str()), Some("3"));
}

#[test]
fn oneway_contraflow_bus_lane() {
    let tags = run(&[
        travel(LaneDirection::Backward, LaneDesignated::Bus),
        motor(LaneDirection::Forward),
    ]);
    assert_eq!(tags.get("busway:left").map(|s| s.as_str()), Some("opposite_lane"));
    assert_eq!(tags.get("oneway").map(|s| s.as_str()), Some("yes"));
}

#[test]
fn center_turn_lane() {
    let tags = run(&[
        motor(LaneDirection::Backward),
        motor(LaneDirection::Both),
        motor(LaneDirection::Forward),
    ]);
    assert_eq!(tags.get("lanes:both_ways").map(|s| s.as_str()), Some("1"));
    assert_eq!(tags.get("turn:lanes:both_ways").map(|s| s.as_str()), Some("left"));
    assert_eq!(tags.get("oneway"), None);
}

#[test]
fn many_lanes_count() {
    let lanes: Vec<Lane> = (0..12).map(|_| motor(LaneDirection::Forward)).collect();
    let tags = run(&lanes);
    assert_eq!(tags.get("lanes").map(|s| s.as_str()), Some("12"));
}

#[test]
fn reverse_is_deterministic() {
    let lanes = [
        travel(LaneDirection::Backward, LaneDesignated::Bicycle),
        motor(LaneDirection::Backward),
        motor(LaneDirection::Forward),
    ];
    assert_eq!(pairs(&run(&lanes)), pairs(&run(&lanes)));
}

#[test]
fn decimal_strings() {
    assert_eq!(decimal_string(0), "0");
    assert_eq!(decimal_string(7), "7");
    assert_eq!(decimal_string(1203), "1203");
}

#[test]
fn roundtrip_comparison() {
    let a = [motor(LaneDirection::Forward), Lane::Shoulder];
    let b = [motor(LaneDirection::Forward), Lane::Separator];
    assert!(check_roundtrip(&a, &a).is_ok());
    assert!(matches!(check_roundtrip(&a, &b), Err(RoadError::RoundTrip)));
    assert!(matches!(check_roundtrip(&a, &a[..1]), Err(RoadError::RoundTrip)));
}

#[test]
fn glyphs() {
    assert_eq!(motor(LaneDirection::Forward).as_ascii(), 'd');
    assert_eq!(travel(LaneDirection::Forward, LaneDesignated::Bicycle).as_utf8(), '🚲');
    assert_eq!(Lane::Shoulder.as_ascii(), 'S');
    assert_eq!(LaneDirection::Backward.as_ascii(), 'v');
    assert_eq!(LaneDirection::Both.as_utf8(), '↕');
}
