use osm2lanes::{
    bicycle, Config, DrivingSide, FinalizeError, Infer, Lane, LaneBuilder, LaneDesignated,
    LaneDirection, LaneType, Location, Oneway, RoadBuilder, Scheme, Tags, TagsToLanesMsg,
};

#[test]
fn finalize_orders_backward_then_forward() {
    let mut road = RoadBuilder::new(false);
    let locale = Config::new().build();
    let mut warnings: Vec<TagsToLanesMsg> = Vec::new();
    road.push_forward_outside(LaneBuilder {
        lane_type: Infer::Direct(LaneType::Travel),
        direction: Infer::Direct(LaneDirection::Forward),
        designated: Infer::Direct(LaneDesignated::Motor),
        width: Infer::Unset,
    });
    road.push_backward_outside(LaneBuilder {
        lane_type: Infer::Direct(LaneType::Travel),
        direction: Infer::Direct(LaneDirection::Backward),
        designated: Infer::Direct(LaneDesignated::Motor),
        width: Infer::Unset,
    });
    bicycle(&Tags::from_str_pair(["cycleway", "track"]), &locale, &mut road, &mut warnings).unwrap();
    let lanes = road.finalize().unwrap();
    assert_eq!(
        lanes,
        vec![
            Lane::Travel { direction: Some(LaneDirection::Backward), designated: LaneDesignated::Bicycle },
            Lane::Travel { direction: Some(LaneDirection::Backward), designated: LaneDesignated::Motor },
            Lane::Travel { direction: Some(LaneDirection::Forward), designated: LaneDesignated::Motor },
            Lane::Travel { direction: Some(LaneDirection::Forward), designated: LaneDesignated::Bicycle },
        ]
    );
}

#[test]
fn finalize_empty_road_is_error() {
    assert_eq!(RoadBuilder::new(true).finalize(), Err(FinalizeError::EmptyRoad));
}

#[test]
fn finalize_incomplete_lane_is_error() {
    let mut road = RoadBuilder::new(true);
    road.push_forward_outside(LaneBuilder {
        lane_type: Infer::Direct(LaneType::Parking),
        direction: Infer::Unset,
        designated: Infer::Direct(LaneDesignated::Motor),
        width: Infer::Unset,
    });
    assert_eq!(road.finalize(), Err(FinalizeError::IncompleteLane));
}

#[test]
fn finalize_shoulder_and_calculated_fields() {
    let mut road = RoadBuilder::new(true);
    road.push_forward_outside(LaneBuilder {
        lane_type: Infer::Calculated(LaneType::Travel),
        direction: Infer::Unset,
        designated: Infer::Calculated(LaneDesignated::Foot),
        width: Infer::Direct("2".to_owned()),
    });
    road.push_backward_outside(LaneBuilder {
        lane_type: Infer::Direct(LaneType::Shoulder),
        direction: Infer::Unset,
        designated: Infer::Unset,
        width: Infer::Unset,
    });
    assert_eq!(
        road.finalize().unwrap(),
        vec![
            Lane::Shoulder,
            Lane::Travel { direction: None, designated: LaneDesignated::Foot },
        ]
    );
}

#[test]
fn mirrored_tags_with_flipped_driving_side_agree() {
    let right = Config::new().driving_side(DrivingSide::Right).build();
    let left = Config::new().driving_side(DrivingSide::Left).build();
    let a = Tags::from_str_pairs(&[["cycleway:left", "track"], ["cycleway:left:oneway", "no"]]).unwrap();
    let b = Tags::from_str_pairs(&[["cycleway:right", "track"], ["cycleway:right:oneway", "no"]]).unwrap();
    let sa = Scheme::from_tags(&a, &right, Oneway::No, &mut Vec::new()).unwrap();
    let sb = Scheme::from_tags(&b, &left, Oneway::No, &mut Vec::new()).unwrap();
    assert_eq!(sa, sb);
    assert!(matches!(sa.0, Location::Backward(_)));
}
