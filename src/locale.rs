use vstd::prelude::*;
use vstd::string::*;

use crate::lane::LaneDesignated;
use crate::tags::split_once_char;

verus! {

/// Do vehicles travel on the right or left side of a road?
#[derive(Clone, Copy, Debug, PartialEq, Eq, Structural)]
pub enum DrivingSide {
    Right,
    Left,
}

/// A side of a way, as written in side-qualified tag keys.
#[derive(Clone, Copy, Debug, PartialEq, Eq, Structural)]
pub enum WaySide {
    Both,
    Right,
    Left,
}

pub open spec fn side_name(side: WaySide) -> Seq<char> {
    match side {
        WaySide::Both => "both"@,
        WaySide::Right => "right"@,
        WaySide::Left => "left"@,
    }
}

impl WaySide {
    pub fn as_str(&self) -> (r: &'static str)
        ensures
            r@ == side_name(*self),
    {
        match self {
            WaySide::Both => "both",
            WaySide::Right => "right",
            WaySide::Left => "left",
        }
    }
}

impl DrivingSide {
    pub open spec fn spec_opposite(self) -> DrivingSide {
        match self {
            DrivingSide::Right => DrivingSide::Left,
            DrivingSide::Left => DrivingSide::Right,
        }
    }

    pub open spec fn spec_way_side(self) -> WaySide {
        match self {
            DrivingSide::Right => WaySide::Right,
            DrivingSide::Left => WaySide::Left,
        }
    }

    pub fn opposite(&self) -> (r: Self)
        ensures
            r == self.spec_opposite(),
    {
        match self {
            DrivingSide::Right => DrivingSide::Left,
            DrivingSide::Left => DrivingSide::Right,
        }
    }

    /// The way side that this driving side names.
    pub fn way_side(&self) -> (r: WaySide)
        ensures
            r == self.spec_way_side(),
    {
        match self {
            DrivingSide::Right => WaySide::Right,
            DrivingSide::Left => WaySide::Left,
        }
    }

    /// The word used for this side in tag keys.
    pub fn tag(&self) -> (r: &'static str)
        ensures
            r@ == side_name(self.spec_way_side()),
    {
        match self {
            DrivingSide::Right => "right",
            DrivingSide::Left => "left",
        }
    }

    /// Reads `"right"` or `"left"`; any other text is handed back as the error.
    pub fn parse(s: &str) -> (r: Result<DrivingSide, String>)
        ensures
            s@ == "right"@ ==> r == Ok::<DrivingSide, String>(DrivingSide::Right),
            s@ != "right"@ && s@ == "left"@ ==> r == Ok::<DrivingSide, String>(DrivingSide::Left),
            s@ != "right"@ && s@ != "left"@ ==> (r matches Err(e) && e@ == s@),
    {
        let owned = s.to_owned();
        if owned == "right".to_owned() {
            Ok(DrivingSide::Right)
        } else if owned == "left".to_owned() {
            Ok(DrivingSide::Left)
        } else {
            Err(owned)
        }
    }
}

impl std::str::FromStr for DrivingSide {
    type Err = String;

    fn from_str(s: &str) -> Result<Self, Self::Err> {
        DrivingSide::parse(s)
    }
}

/// The country that a two-letter ISO 3166-1 code names, as its numeric code.
pub uninterp spec fn alpha2_country(code: Seq<char>) -> Option<usize>;

/// The country that a three-letter ISO 3166-1 code names, as its numeric code.
pub uninterp spec fn alpha3_country(code: Seq<char>) -> Option<usize>;

/// Relies on celes::Country::from_alpha2: a fixed, case-insensitive table lookup of
/// the code; the country's numeric ISO code is kept.
#[verifier::external_body]
fn country_from_alpha2(code: &str) -> (r: Option<usize>)
    ensures
        r == alpha2_country(code@),
{
    celes::Country::from_alpha2(code).ok().map(|c| c.value)
}

/// Relies on celes::Country::from_alpha3: a fixed, case-insensitive table lookup of
/// the code; the country's numeric ISO code is kept.
#[verifier::external_body]
fn country_from_alpha3(code: &str) -> (r: Option<usize>)
    ensures
        r == alpha3_country(code@),
{
    celes::Country::from_alpha3(code).ok().map(|c| c.value)
}

/// Context about the place where an OSM way exists.
#[derive(Debug)]
pub struct Locale {
    /// The ISO 3166-1 country, by its numeric code.
    pub country: Option<usize>,
    pub iso_3166_2_subdivision: Option<String>,
    pub driving_side: DrivingSide,
}

/// Default travel width of a lane, in centimetres.
pub open spec fn default_travel_width(designated: LaneDesignated) -> u32 {
    match designated {
        LaneDesignated::Motor | LaneDesignated::Bus => 350,
        LaneDesignated::Foot => 250,
        LaneDesignated::Bicycle => 200,
    }
}

pub open spec fn opt_string_view(o: Option<String>) -> Option<Seq<char>> {
    match o {
        Some(s) => Some(s@),
        None => None,
    }
}

impl Locale {
    pub fn builder() -> (r: Config)
        ensures
            r.is_empty(),
    {
        Config::new()
    }

    /// The default travel width of a lane of the given mode, in centimetres.
    pub fn travel_width(&self, designated: &LaneDesignated) -> (r: u32)
        ensures
            r == default_travel_width(*designated),
    {
        match designated {
            LaneDesignated::Motor | LaneDesignated::Bus => 350,
            LaneDesignated::Foot => 250,
            LaneDesignated::Bicycle => 200,
        }
    }
}

/// Configuration to build a locale.
#[derive(Debug)]
pub struct Config {
    pub way_id: Option<u64>,
    pub iso_3166_1_alpha_2: Option<String>,
    pub iso_3166_1_alpha_3: Option<String>,
    pub iso_3166_2_subdivision: Option<String>,
    pub driving_side: Option<DrivingSide>,
}

/// Whether `iso_3166` can read the code: two or three bytes long, or holding a `-`.
pub open spec fn iso_3166_readable(code: &str) -> bool {
    code.len() == 2 || code.len() == 3 || code@.contains('-')
}

fn clone_opt(o: &Option<String>) -> (r: Option<String>)
    ensures
        opt_string_view(r) == opt_string_view(*o),
{
    match o {
        Some(s) => Some(s.clone()),
        None => None,
    }
}

/// What `iso_3166` makes of `old` and `code`.
pub open spec fn iso_3166_post(prev: Config, code: &str, r: Config) -> bool {
    &&& r.way_id == prev.way_id
    &&& r.driving_side == prev.driving_side
    &&& code.len() == 2 ==> {
        &&& opt_string_view(r.iso_3166_1_alpha_2) == Some(code@)
        &&& r.iso_3166_1_alpha_3 == prev.iso_3166_1_alpha_3
        &&& r.iso_3166_2_subdivision == prev.iso_3166_2_subdivision
    }
    &&& code.len() == 3 ==> {
        &&& r.iso_3166_1_alpha_2 == prev.iso_3166_1_alpha_2
        &&& opt_string_view(r.iso_3166_1_alpha_3) == Some(code@)
        &&& r.iso_3166_2_subdivision == prev.iso_3166_2_subdivision
    }
    &&& code.len() != 2 && code.len() != 3 ==> {
        &&& r.iso_3166_1_alpha_3 == prev.iso_3166_1_alpha_3
        &&& r.iso_3166_1_alpha_2 matches Some(a)
        &&& r.iso_3166_2_subdivision matches Some(s)
        &&& code@ == a@ + seq!['-'] + s@
        &&& !a@.contains('-')
    }
}

impl Config {
    pub open spec fn is_empty(&self) -> bool {
        &&& self.way_id is None
        &&& self.iso_3166_1_alpha_2 is None
        &&& self.iso_3166_1_alpha_3 is None
        &&& self.iso_3166_2_subdivision is None
        &&& self.driving_side is None
    }

    pub fn new() -> (r: Self)
        ensures
            r.is_empty(),
    {
        Config {
            way_id: None,
            iso_3166_1_alpha_2: None,
            iso_3166_1_alpha_3: None,
            iso_3166_2_subdivision: None,
            driving_side: None,
        }
    }

    pub fn way_id(self, id: u64) -> (r: Self)
        ensures
            r == (Config { way_id: Some(id), ..self }),
    {
        Config { way_id: Some(id), ..self }
    }

    /// Assigns an ISO 3166 code: ISO 3166-1 alpha-2 (two bytes), alpha-3 (three bytes),
    /// or an ISO 3166-2 subdivision code `CC-SUB`.
    pub fn iso_3166(self, code: &str) -> (r: Self)
        requires
            iso_3166_readable(code),
        ensures
            iso_3166_post(self, code, r),
    {
        let mut c = self;
        let len = code.len();
        if len == 2 {
            c.iso_3166_1_alpha_2 = Some(code.to_owned());
        } else if len == 3 {
            c.iso_3166_1_alpha_3 = Some(code.to_owned());
        } else {
            match split_once_char(code, '-') {
                Some((alpha_2, subdivision)) => {
                    c.iso_3166_1_alpha_2 = Some(alpha_2);
                    c.iso_3166_2_subdivision = Some(subdivision);
                },
                None => {},
            }
        }
        c
    }

    pub fn iso_3166_option(self, code: Option<&str>) -> (r: Self)
        requires
            code matches Some(c) ==> iso_3166_readable(c),
        ensures
            code is None ==> r == self,
            code matches Some(c) ==> iso_3166_post(self, c, r),
    {
        match code {
            Some(c) => self.iso_3166(c),
            None => self,
        }
    }

    pub fn driving_side(self, side: DrivingSide) -> (r: Self)
        ensures
            r == (Config { driving_side: Some(side), ..self }),
    {
        Config { driving_side: Some(side), ..self }
    }

    /// Builds the locale; the driving side defaults to the right.
    pub fn build(&self) -> (r: Locale)
        requires
            !(self.iso_3166_1_alpha_2 is Some && self.iso_3166_1_alpha_3 is Some),
        ensures
            r.country == match (self.iso_3166_1_alpha_2, self.iso_3166_1_alpha_3) {
                (Some(c), _) => alpha2_country(c@),
                (None, Some(c)) => alpha3_country(c@),
                (None, None) => None,
            },
            opt_string_view(r.iso_3166_2_subdivision) == opt_string_view(
                self.iso_3166_2_subdivision,
            ),
            r.driving_side == match self.driving_side {
                Some(s) => s,
                None => DrivingSide::Right,
            },
    {
        let country = match (&self.iso_3166_1_alpha_2, &self.iso_3166_1_alpha_3) {
            (Some(c), _) => country_from_alpha2(c.as_str()),
            (None, Some(c)) => country_from_alpha3(c.as_str()),
            (None, None) => None,
        };
        let driving_side = match self.driving_side {
            Some(s) => s,
            None => DrivingSide::Right,
        };
        Locale {
            country,
            iso_3166_2_subdivision: clone_opt(&self.iso_3166_2_subdivision),
            driving_side,
        }
    }
}

} // verus!
