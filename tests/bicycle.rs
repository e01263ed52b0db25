use osm2lanes::{
    bicycle, Config, DrivingSide, Infer, LaneDirection, Locale, Location, Oneway, RoadBuilder,
    Scheme, Tags, TagsRead, TagsToLanesMsg, Variant, Way,
};

fn default_locale() -> Locale {
    Locale::builder().build()
}

#[test]
fn lane() {
    let mut warnings: Vec<TagsToLanesMsg> = Vec::new();
    let scheme = Scheme::from_tags(
        &Tags::from_str_pair(["cycleway", "lane"]),
        &default_locale(),
        Oneway::No,
        &mut warnings,
    )
    .unwrap();
    assert!(warnings.is_empty(), "{:?}", warnings);
    assert_eq!(
        scheme,
        Scheme(Location::Both {
            forward: Way {
                variant: Variant::Lane,
                direction: LaneDirection::Forward,
                width: None,
            },
            backward: Way {
                variant: Variant::Lane,
                direction: LaneDirection::Backward,
                width: None,
            }
        })
    )
}

#[test]
fn oneway_opposite_track() {
    let mut warnings: Vec<TagsToLanesMsg> = Vec::new();
    let scheme = Scheme::from_tags(
        &Tags::from_str_pair(["cycleway", "opposite_track"]),
        &default_locale(),
        Oneway::Yes,
        &mut warnings,
    )
    .unwrap();
    assert_eq!(
        scheme,
        Scheme(Location::Backward(Way {
            variant: Variant::Track,
            direction: LaneDirection::Backward,
            width: None,
        }))
    );
}

#[test]
fn forward_lane() {
    let mut warnings: Vec<TagsToLanesMsg> = Vec::new();
    let scheme = Scheme::from_tags(
        &Tags::from_str_pair(["cycleway:right", "lane"]),
        &default_locale(),
        Oneway::No,
        &mut warnings,
    )
    .unwrap();
    assert!(warnings.is_empty(), "{:?}", warnings);
    assert_eq!(
        scheme,
        Scheme(Location::Forward(Way {
            variant: Variant::Lane,
            direction: LaneDirection::Forward,
            width: None,
        }))
    );
}

#[test]
fn backward_track() {
    let mut warnings: Vec<TagsToLanesMsg> = Vec::new();
    let scheme = Scheme::from_tags(
        &Tags::from_str_pair(["cycleway:left", "track"]),
        &default_locale(),
        Oneway::No,
        &mut warnings,
    )
    .unwrap();
    assert!(warnings.is_empty(), "{:?}", warnings);
    assert_eq!(
        scheme,
        Scheme(Location::Backward(Way {
            variant: Variant::Track,
            direction: LaneDirection::Backward,
            width: None,
        }))
    );
}

#[test]
fn backward_opposite_track() {
    let mut warnings: Vec<TagsToLanesMsg> = Vec::new();
    let scheme = Scheme::from_tags(
        &Tags::from_str_pair(["cycleway:left", "opposite_track"]),
        &default_locale(),
        Oneway::No,
        &mut warnings,
    );
    match scheme {
        Err(TagsToLanesMsg::UnsupportedTags(t)) => {
            assert_eq!(t.get("cycleway:left").map(|s| s.as_str()), Some("opposite_track"))
        }
        other => panic!("{:?}", other),
    }
}

#[test]
fn backward_lane_min1() {
    let mut warnings: Vec<TagsToLanesMsg> = Vec::new();
    let scheme = Scheme::from_tags(
        &Tags::from_str_pairs(&[["cycleway:left", "track"], ["cycleway:left:oneway", "-1"]])
            .unwrap(),
        &default_locale(),
        Oneway::No,
        &mut warnings,
    )
    .unwrap();
    assert!(warnings.is_empty(), "{:?}", warnings);
    assert_eq!(
        scheme,
        Scheme(Location::Backward(Way {
            variant: Variant::Track,
            direction: LaneDirection::Backward,
            width: None,
        }))
    );
}

#[test]
fn opposite() {
    let mut warnings: Vec<TagsToLanesMsg> = Vec::new();
    let scheme = Scheme::from_tags(
        &Tags::from_str_pair(["cycleway", "opposite"]),
        &default_locale(),
        Oneway::Yes,
        &mut warnings,
    )
    .unwrap();
    assert!(warnings.is_empty(), "{:?}", warnings);
    assert_eq!(
        scheme,
        Scheme(Location::Backward(Way {
            variant: Variant::SharedMotor,
            direction: LaneDirection::Backward,
            width: None,
        }))
    );
}

#[test]
fn warn_shoulder() {
    let mut warnings: Vec<TagsToLanesMsg> = Vec::new();
    let scheme = Scheme::from_tags(
        &Tags::from_str_pair(["cycleway", "shoulder"]),
        &default_locale(),
        Oneway::No,
        &mut warnings,
    );
    assert!(!warnings.is_empty(), "{:?}", scheme);
    assert!(scheme.is_ok());
}

#[test]
fn err_no_lane() {
    let scheme = Scheme::from_tags(
        &Tags::from_str_pairs(&[["cycleway", "no"], ["cycleway:left", "lane"]]).unwrap(),
        &default_locale(),
        Oneway::No,
        &mut Vec::new(),
    );
    assert!(scheme.is_err());
}

#[test]
fn err_track_no() {
    let scheme = Scheme::from_tags(
        &Tags::from_str_pairs(&[["cycleway", "track"], ["cycleway:left", "no"]]).unwrap(),
        &default_locale(),
        Oneway::No,
        &mut Vec::new(),
    );
    assert!(scheme.is_err());
}

#[test]
fn conflict_lane_and_side_lane() {
    let mut warnings: Vec<TagsToLanesMsg> = Vec::new();
    let scheme = Scheme::from_tags(
        &Tags::from_str_pairs(&[["cycleway", "lane"], ["cycleway:both", "track"]]).unwrap(),
        &default_locale(),
        Oneway::Yes,
        &mut warnings,
    );
    match scheme {
        Err(TagsToLanesMsg::UnsupportedStr(s)) => {
            assert_eq!(s, "cycleway=* with any cycleway:* values")
        }
        other => panic!("{:?}", other),
    }
    assert!(warnings.is_empty());
}

#[test]
fn oneway_opposite_track_deprecation() {
    let mut warnings: Vec<TagsToLanesMsg> = Vec::new();
    let _ = Scheme::from_tags(
        &Tags::from_str_pair(["cycleway", "opposite_track"]),
        &default_locale(),
        Oneway::Yes,
        &mut warnings,
    )
    .unwrap();
    assert_eq!(warnings.len(), 1);
    match &warnings[0] {
        TagsToLanesMsg::DeprecatedTags { deprecated, suggested } => {
            assert_eq!(deprecated.get("cycleway").map(|s| s.as_str()), Some("opposite_track"));
            assert_eq!(suggested.get("cycleway:left").map(|s| s.as_str()), Some("track"));
            assert_eq!(suggested.get("cycleway:left:oneway").map(|s| s.as_str()), Some("-1"));
        }
        other => panic!("{:?}", other),
    }
}

#[test]
fn two_way_opposite_warns() {
    let mut warnings: Vec<TagsToLanesMsg> = Vec::new();
    let scheme = Scheme::from_tags(
        &Tags::from_str_pair(["cycleway", "opposite_lane"]),
        &default_locale(),
        Oneway::No,
        &mut warnings,
    )
    .unwrap();
    assert!(matches!(scheme.0, Location::Both { .. }));
    assert_eq!(warnings.len(), 1);
    assert!(matches!(warnings[0], TagsToLanesMsg::UnsupportedTags(_)));
}

#[test]
fn unknown_value_warns() {
    let mut warnings: Vec<TagsToLanesMsg> = Vec::new();
    let scheme = Scheme::from_tags(
        &Tags::from_str_pair(["cycleway", "banana"]),
        &default_locale(),
        Oneway::No,
        &mut warnings,
    )
    .unwrap();
    assert_eq!(scheme, Scheme(Location::Absent));
    assert_eq!(warnings.len(), 1);
    match &warnings[0] {
        TagsToLanesMsg::UnsupportedTags(t) => {
            assert_eq!(t.get("cycleway").map(|s| s.as_str()), Some("banana"))
        }
        other => panic!("{:?}", other),
    }
}

#[test]
fn near_side_legacy_opposite() {
    let mut warnings: Vec<TagsToLanesMsg> = Vec::new();
    let scheme = Scheme::from_tags(
        &Tags::from_str_pair(["cycleway:right", "opposite_track"]),
        &default_locale(),
        Oneway::Yes,
        &mut warnings,
    )
    .unwrap();
    assert_eq!(
        scheme,
        Scheme(Location::Forward(Way {
            variant: Variant::Lane,
            direction: LaneDirection::Backward,
            width: None,
        }))
    );
    assert_eq!(warnings.len(), 1);
    assert!(matches!(warnings[0], TagsToLanesMsg::DeprecatedTags { .. }));
}

#[test]
fn near_side_width_and_two_way() {
    let mut warnings: Vec<TagsToLanesMsg> = Vec::new();
    let scheme = Scheme::from_tags(
        &Tags::from_str_pairs(&[
            ["cycleway:right", "track"],
            ["cycleway:right:width", "1.5"],
            ["oneway:bicycle", "no"],
        ])
        .unwrap(),
        &default_locale(),
        Oneway::No,
        &mut warnings,
    )
    .unwrap();
    assert_eq!(
        scheme,
        Scheme(Location::Forward(Way {
            variant: Variant::Track,
            direction: LaneDirection::Both,
            width: Some("1.5".to_owned()),
        }))
    );
}

#[test]
fn far_side_on_oneway_road() {
    let mut warnings: Vec<TagsToLanesMsg> = Vec::new();
    let scheme = Scheme::from_tags(
        &Tags::from_str_pair(["cycleway:left", "lane"]),
        &default_locale(),
        Oneway::Yes,
        &mut warnings,
    )
    .unwrap();
    assert_eq!(
        scheme,
        Scheme(Location::Backward(Way {
            variant: Variant::Lane,
            direction: LaneDirection::Forward,
            width: None,
        }))
    );
}

#[test]
fn left_hand_traffic_near_side() {
    let locale = Config::new().driving_side(DrivingSide::Left).build();
    let mut warnings: Vec<TagsToLanesMsg> = Vec::new();
    let scheme = Scheme::from_tags(
        &Tags::from_str_pair(["cycleway:left", "lane"]),
        &locale,
        Oneway::No,
        &mut warnings,
    )
    .unwrap();
    assert_eq!(
        scheme,
        Scheme(Location::Forward(Way {
            variant: Variant::Lane,
            direction: LaneDirection::Forward,
            width: None,
        }))
    );
}

#[test]
fn both_sides_key() {
    let mut warnings: Vec<TagsToLanesMsg> = Vec::new();
    let scheme = Scheme::from_tags(
        &Tags::from_str_pair(["cycleway:both", "track"]),
        &default_locale(),
        Oneway::No,
        &mut warnings,
    )
    .unwrap();
    assert!(matches!(
        scheme.0,
        Location::Both {
            forward: Way { variant: Variant::Track, direction: LaneDirection::Forward, .. },
            backward: Way { variant: Variant::Track, direction: LaneDirection::Backward, .. },
        }
    ));
    assert!(warnings.is_empty());
}

#[test]
fn bicycle_pushes_lanes() {
    let mut road = RoadBuilder::new(false);
    let mut warnings: Vec<TagsToLanesMsg> = Vec::new();
    bicycle(
        &Tags::from_str_pair(["cycleway", "lane"]),
        &default_locale(),
        &mut road,
        &mut warnings,
    )
    .unwrap();
    assert_eq!(road.forward_side.len(), 1);
    assert_eq!(road.backward_side.len(), 1);
    assert_eq!(road.forward_side[0].direction, Infer::Direct(LaneDirection::Forward));
    assert_eq!(road.backward_side[0].direction, Infer::Direct(LaneDirection::Backward));
}

#[test]
fn bicycle_conflict_leaves_road() {
    let mut road = RoadBuilder::new(false);
    let mut warnings: Vec<TagsToLanesMsg> = Vec::new();
    let r = bicycle(
        &Tags::from_str_pairs(&[["cycleway", "lane"], ["cycleway:right", "lane"]]).unwrap(),
        &default_locale(),
        &mut road,
        &mut warnings,
    );
    assert!(r.is_err());
    assert!(road.forward_side.is_empty());
    assert!(road.backward_side.is_empty());
}
