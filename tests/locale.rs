use osm2lanes::{Config, DrivingSide, LaneDesignated, Locale};

#[test]
fn test_locale() {
    let locale = Locale::builder()
        .driving_side(DrivingSide::Right)
        .iso_3166("DE-NW")
        .build();
    assert_eq!(locale.driving_side, DrivingSide::Right);
    assert_eq!(locale.country.unwrap(), celes::Country::germany().value);
}

#[test]
fn locale_subdivision_kept() {
    let locale = Locale::builder().iso_3166("DE-NW").build();
    assert_eq!(locale.iso_3166_2_subdivision.as_deref(), Some("NW"));
}

#[test]
fn locale_alpha2_and_alpha3() {
    let a = Config::new().iso_3166("gb").build();
    let b = Config::new().iso_3166("GBR").build();
    assert_eq!(a.country, Some(826));
    assert_eq!(b.country, Some(826));
    assert_eq!(Config::new().iso_3166("zz").build().country, None);
}

#[test]
fn locale_defaults() {
    let locale = Config::new().build();
    assert_eq!(locale.country, None);
    assert_eq!(locale.iso_3166_2_subdivision, None);
    assert_eq!(locale.driving_side, DrivingSide::Right);
}

#[test]
fn locale_option_and_way_id() {
    let c = Config::new().way_id(7).iso_3166_option(None);
    assert_eq!(c.way_id, Some(7));
    assert_eq!(c.iso_3166_1_alpha_2, None);
    let c = c.iso_3166_option(Some("FR"));
    assert_eq!(c.iso_3166_1_alpha_2.as_deref(), Some("FR"));
}

#[test]
fn driving_side_opposite_and_parse() {
    assert_eq!(DrivingSide::Right.opposite(), DrivingSide::Left);
    assert_eq!(DrivingSide::Left.opposite(), DrivingSide::Right);
    assert_eq!("left".parse::<DrivingSide>(), Ok(DrivingSide::Left));
    assert_eq!(DrivingSide::parse("right"), Ok(DrivingSide::Right));
    assert_eq!(DrivingSide::parse("up"), Err("up".to_owned()));
    assert_eq!(DrivingSide::Left.tag(), "left");
}

#[test]
fn travel_widths() {
    let locale = Config::new().build();
    assert_eq!(locale.travel_width(&LaneDesignated::Motor), 350);
    assert_eq!(locale.travel_width(&LaneDesignated::Bus), 350);
    assert_eq!(locale.travel_width(&LaneDesignated::Foot), 250);
    assert_eq!(locale.travel_width(&LaneDesignated::Bicycle), 200);
}
