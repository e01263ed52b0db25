use vstd::prelude::*;

use crate::lane::{LaneDesignated, LaneDirection};
use crate::locale::{side_name, DrivingSide, Locale, WaySide};
use crate::road::{msgs_view, Infer, LaneBuilder, LaneType, MsgView, RoadBuilder, TagsToLanesMsg};
use crate::tags::{
    has_key, key_index, keys_distinct, tag_get, tag_set, tag_subset, TagKey, TagSeq, Tags, TagsRead,
    TagsWrite,
};

verus! {

/// Whether general traffic on the road may only travel in the way's direction.
#[derive(Clone, Copy, Debug, PartialEq, Eq, Structural)]
pub enum Oneway {
    Yes,
    No,
}

impl Oneway {
    pub fn is_yes(&self) -> (r: bool)
        ensures
            r == (*self is Yes),
    {
        matches!(self, Oneway::Yes)
    }
}

/// The kind of bicycle facility.
#[derive(Clone, Copy, Debug, PartialEq, Eq, Structural)]
pub enum Variant {
    SharedMotor,
    Lane,
    Track,
}

/// What a cycleway tag value denotes.
pub enum VariantClass {
    /// No facility: the key is absent or says `no`.
    Absent,
    /// A facility, and whether the value is a legacy `opposite` spelling.
    Found(Variant, bool),
    /// A value that is recognized but not modelled.
    Unimplemented,
    /// A value that is not recognized.
    Unknown,
}

pub open spec fn is_unimplemented_value(v: Seq<char>) -> bool {
    v == "shared_lane"@ || v == "share_busway"@ || v == "opposite_share_busway"@ || v == "shared"@
        || v == "shoulder"@ || v == "separate"@
}

/// The decision table of cycleway values.
pub open spec fn classify(value: Option<Seq<char>>) -> VariantClass {
    match value {
        None => VariantClass::Absent,
        Some(v) => if v == "lane"@ {
            VariantClass::Found(Variant::Lane, false)
        } else if v == "track"@ {
            VariantClass::Found(Variant::Track, false)
        } else if v == "opposite_lane"@ {
            VariantClass::Found(Variant::Lane, true)
        } else if v == "opposite_track"@ {
            VariantClass::Found(Variant::Track, true)
        } else if v == "opposite"@ {
            VariantClass::Found(Variant::SharedMotor, true)
        } else if v == "no"@ {
            VariantClass::Absent
        } else if is_unimplemented_value(v) {
            VariantClass::Unimplemented
        } else {
            VariantClass::Unknown
        },
    }
}

/// A cycleway value that could not be turned into a facility: the key and the value.
#[derive(Debug)]
pub enum VariantError {
    UnknownVariant(String, String),
    UnimplementedVariant(String, String),
}

pub open spec fn variant_result_ok(
    r: Result<Option<(Variant, bool)>, VariantError>,
    t: TagSeq,
    k: Seq<char>,
) -> bool {
    match r {
        Ok(None) => classify(tag_get(t, k)) is Absent,
        Ok(Some((v, o))) => classify(tag_get(t, k)) == VariantClass::Found(v, o),
        Err(VariantError::UnimplementedVariant(key, val)) => {
            &&& classify(tag_get(t, k)) is Unimplemented
            &&& key@ == k
            &&& tag_get(t, k) == Some(val@)
        },
        Err(VariantError::UnknownVariant(key, val)) => {
            &&& classify(tag_get(t, k)) is Unknown
            &&& key@ == k
            &&& tag_get(t, k) == Some(val@)
        },
    }
}

/// The key `cycleway`, or `cycleway:<side>`.
pub open spec fn cycleway_key(side: Option<WaySide>) -> Seq<char> {
    match side {
        None => "cycleway"@,
        Some(s) => "cycleway"@ + ":"@ + side_name(s),
    }
}

pub open spec fn sub_key(k: Seq<char>, sub: Seq<char>) -> Seq<char> {
    k + ":"@ + sub
}

fn str_is(a: &String, b: &str) -> (r: bool)
    ensures
        r == (a@ == b@),
{
    *a == b.to_owned()
}

impl VariantError {
    pub fn into_msg(self) -> (m: TagsToLanesMsg)
        ensures
            m@ == match self {
                VariantError::UnimplementedVariant(k, v) => MsgView::UnimplementedTags(
                    seq![(k@, v@)],
                ),
                VariantError::UnknownVariant(k, v) => MsgView::UnsupportedTags(seq![(k@, v@)]),
            },
    {
        match self {
            VariantError::UnimplementedVariant(k, v) => TagsToLanesMsg::UnimplementedTags(
                Tags::from_str_pair([k.as_str(), v.as_str()]),
            ),
            VariantError::UnknownVariant(k, v) => TagsToLanesMsg::UnsupportedTags(
                Tags::from_str_pair([k.as_str(), v.as_str()]),
            ),
        }
    }
}

impl Tags {
    /// Reads the cycleway facility that the value of `k` denotes.
    pub fn get_variant(&self, k: &str) -> (r: Result<Option<(Variant, bool)>, VariantError>)
        requires
            self.wf(),
        ensures
            variant_result_ok(r, self@, k@),
    {
        match self.get(k) {
            None => Ok(None),
            Some(v) => {
                if str_is(v, "lane") {
                    Ok(Some((Variant::Lane, false)))
                } else if str_is(v, "track") {
                    Ok(Some((Variant::Track, false)))
                } else if str_is(v, "opposite_lane") {
                    Ok(Some((Variant::Lane, true)))
                } else if str_is(v, "opposite_track") {
                    Ok(Some((Variant::Track, true)))
                } else if str_is(v, "opposite") {
                    Ok(Some((Variant::SharedMotor, true)))
                } else if str_is(v, "no") {
                    Ok(None)
                } else if str_is(v, "shared_lane") || str_is(v, "share_busway") || str_is(
                    v,
                    "opposite_share_busway",
                ) || str_is(v, "shared") || str_is(v, "shoulder") || str_is(v, "separate") {
                    Err(VariantError::UnimplementedVariant(k.to_owned(), v.clone()))
                } else {
                    Err(VariantError::UnknownVariant(k.to_owned(), v.clone()))
                }
            },
        }
    }

    /// Reads the facility of `cycleway`, or of `cycleway:<side>`.
    pub fn cycleway_variant(&self, side: Option<WaySide>) -> (r: Result<
        Option<(Variant, bool)>,
        VariantError,
    >)
        requires
            self.wf(),
        ensures
            variant_result_ok(r, self@, cycleway_key(side)),
    {
        match side {
            Some(s) => {
                let key = TagKey::from("cycleway").add(s.as_str());
                self.get_variant(key.as_str())
            },
            None => self.get_variant("cycleway"),
        }
    }
}


/// One bicycle facility: its kind, its way-relative direction, and its width as tagged.
#[derive(Debug, PartialEq)]
pub struct Way {
    pub variant: Variant,
    pub direction: LaneDirection,
    pub width: Option<String>,
}

pub struct WayView {
    pub variant: Variant,
    pub direction: LaneDirection,
    pub width: Option<Seq<char>>,
}

impl View for Way {
    type V = WayView;

    open spec fn view(&self) -> WayView {
        WayView {
            variant: self.variant,
            direction: self.direction,
            width: match self.width {
                Some(w) => Some(w@),
                None => None,
            },
        }
    }
}

/// Where on the road the bicycle facilities lie.
#[derive(Debug, PartialEq)]
pub enum Location {
    Absent,
    Forward(Way),
    Backward(Way),
    Both { forward: Way, backward: Way },
}

pub enum LocationView {
    Absent,
    Forward(WayView),
    Backward(WayView),
    Both(WayView, WayView),
}

impl View for Location {
    type V = LocationView;

    open spec fn view(&self) -> LocationView {
        match self {
            Location::Absent => LocationView::Absent,
            Location::Forward(w) => LocationView::Forward(w@),
            Location::Backward(w) => LocationView::Backward(w@),
            Location::Both { forward, backward } => LocationView::Both(forward@, backward@),
        }
    }
}

/// Bicycle lane or track scheme.
#[derive(Debug, PartialEq)]
pub struct Scheme(pub Location);

/// The text of the fatal error on a bare `cycleway` beside side-qualified keys.
pub open spec fn conflict_text() -> Seq<char> {
    "cycleway=* with any cycleway:* values"@
}

pub open spec fn way_view(variant: Variant, direction: LaneDirection, width: Option<Seq<char>>) -> WayView {
    WayView { variant, direction, width }
}

pub open spec fn both_ways(v: Variant) -> LocationView {
    LocationView::Both(
        way_view(v, LaneDirection::Forward, None),
        way_view(v, LaneDirection::Backward, None),
    )
}

pub open spec fn variant_name(v: Variant) -> Seq<char> {
    match v {
        Variant::Lane => "lane"@,
        Variant::Track => "track"@,
        Variant::SharedMotor => "opposite"@,
    }
}

/// The warning that a value of `k` which denotes no facility gives, if any.
pub open spec fn class_warning(t: TagSeq, k: Seq<char>) -> Seq<MsgView> {
    match classify(tag_get(t, k)) {
        VariantClass::Unimplemented => seq![MsgView::UnimplementedTags(seq![(k, tag_get(t, k).unwrap())])],
        VariantClass::Unknown => seq![MsgView::UnsupportedTags(seq![(k, tag_get(t, k).unwrap())])],
        _ => seq![],
    }
}

pub open spec fn side_keys_present(t: TagSeq) -> bool {
    has_key(t, cycleway_key(Some(WaySide::Both))) || has_key(t, cycleway_key(Some(WaySide::Left)))
        || has_key(t, cycleway_key(Some(WaySide::Right)))
}

pub open spec fn near_side(ds: DrivingSide) -> WaySide {
    ds.spec_way_side()
}

pub open spec fn far_side(ds: DrivingSide) -> WaySide {
    ds.spec_opposite().spec_way_side()
}

pub open spec fn says_no(t: TagSeq, k: Seq<char>) -> bool {
    tag_get(t, k) == Some("no"@)
}

/// The replacement for a bare legacy `opposite` value on a one-way road.
pub open spec fn far_side_suggestion(ds: DrivingSide, v: Variant) -> TagSeq {
    let k = cycleway_key(Some(far_side(ds)));
    tag_set(tag_set(Seq::empty(), k, variant_name(v)), sub_key(k, "oneway"@), "-1"@)
}

/// A bare `cycleway` value that denotes a facility.
pub open spec fn resolve_bare(t: TagSeq, ds: DrivingSide, oneway: bool, v: Variant, opposite: bool) -> (
    Result<LocationView, MsgView>,
    Seq<MsgView>,
) {
    let bare = cycleway_key(None);
    if oneway {
        if !opposite {
            (Ok(LocationView::Forward(way_view(v, LaneDirection::Forward, None))), seq![])
        } else {
            (
                Ok(LocationView::Backward(way_view(v, LaneDirection::Backward, None))),
                if v is Lane || v is Track {
                    seq![
                        MsgView::DeprecatedTags(
                            tag_subset(t, seq![bare]),
                            far_side_suggestion(ds, v),
                        ),
                    ]
                } else {
                    seq![]
                },
            )
        }
    } else {
        (
            Ok(both_ways(v)),
            if opposite {
                seq![MsgView::UnsupportedTags(tag_subset(t, seq!["oneway"@, bare]))]
            } else {
                seq![]
            },
        )
    }
}

/// The far side's `cycleway:<side>` key.
pub open spec fn resolve_far(t: TagSeq, ds: DrivingSide, oneway: bool) -> (
    Result<LocationView, MsgView>,
    Seq<MsgView>,
) {
    let kf = cycleway_key(Some(far_side(ds)));
    if is_legacy_opposite(tag_get(t, kf)) {
        (Err(MsgView::UnsupportedTags(tag_subset(t, seq![kf]))), seq![])
    } else {
    match classify(tag_get(t, kf)) {
        VariantClass::Found(v, _) => {
            let ow = tag_get(t, sub_key(kf, "oneway"@));
            let dir = if ow == Some("yes"@) {
                LaneDirection::Forward
            } else if ow == Some("-1"@) {
                LaneDirection::Backward
            } else if ow == Some("no"@) || says_no(t, "oneway:bicycle"@) {
                LaneDirection::Both
            } else if oneway {
                LaneDirection::Forward
            } else {
                LaneDirection::Backward
            };
            (Ok(LocationView::Backward(way_view(v, dir, tag_get(t, sub_key(kf, "width"@))))), seq![])
        },
        _ => (Ok(LocationView::Absent), class_warning(t, kf)),
    }
    }
}

pub open spec fn is_legacy_opposite(value: Option<Seq<char>>) -> bool {
    value == Some("opposite_lane"@) || value == Some("opposite_track"@)
}

/// The near side's `cycleway:<side>` key, then the far side's.
pub open spec fn resolve_near(t: TagSeq, ds: DrivingSide, oneway: bool) -> (
    Result<LocationView, MsgView>,
    Seq<MsgView>,
) {
    let kn = cycleway_key(Some(near_side(ds)));
    if is_legacy_opposite(tag_get(t, kn)) {
        (
            Ok(LocationView::Forward(way_view(Variant::Lane, LaneDirection::Backward, None))),
            seq![MsgView::DeprecatedTags(tag_subset(t, seq![kn]), Seq::empty())],
        )
    } else {
        match classify(tag_get(t, kn)) {
            VariantClass::Found(v, _) => {
                let dir = if says_no(t, sub_key(kn, "oneway"@)) || says_no(t, "oneway:bicycle"@) {
                    LaneDirection::Both
                } else {
                    LaneDirection::Forward
                };
                (Ok(LocationView::Forward(way_view(v, dir, tag_get(t, sub_key(kn, "width"@))))), seq![])
            },
            _ => {
                let rest = resolve_far(t, ds, oneway);
                (rest.0, class_warning(t, kn) + rest.1)
            },
        }
    }
}

/// The side-qualified keys: `cycleway:both`, then the near side, then the far side.
pub open spec fn resolve_sides(t: TagSeq, ds: DrivingSide, oneway: bool) -> (
    Result<LocationView, MsgView>,
    Seq<MsgView>,
) {
    let kb = cycleway_key(Some(WaySide::Both));
    match classify(tag_get(t, kb)) {
        VariantClass::Found(v, opposite) => (
            Ok(both_ways(v)),
            if opposite {
                seq![MsgView::UnsupportedTags(tag_subset(t, seq![kb]))]
            } else {
                seq![]
            },
        ),
        _ => {
            let rest = resolve_near(t, ds, oneway);
            (rest.0, class_warning(t, kb) + rest.1)
        },
    }
}

/// The bicycle scheme of a tag set, with the warnings it gives, in order.
pub open spec fn resolve(t: TagSeq, ds: DrivingSide, oneway: bool) -> (
    Result<LocationView, MsgView>,
    Seq<MsgView>,
) {
    let bare = cycleway_key(None);
    if has_key(t, bare) && side_keys_present(t) {
        (Err(MsgView::UnsupportedStr(conflict_text())), seq![])
    } else {
        match classify(tag_get(t, bare)) {
            VariantClass::Found(v, opposite) => resolve_bare(t, ds, oneway, v, opposite),
            _ => {
                let rest = resolve_sides(t, ds, oneway);
                (rest.0, class_warning(t, bare) + rest.1)
            },
        }
    }
}

pub open spec fn scheme_matches(r: Result<Scheme, TagsToLanesMsg>, s: Result<LocationView, MsgView>) -> bool {
    match (r, s) {
        (Ok(a), Ok(b)) => a.0@ == b,
        (Err(a), Err(b)) => a@ == b,
        _ => false,
    }
}


fn warn(warnings: &mut Vec<TagsToLanesMsg>, m: TagsToLanesMsg)
    ensures
        msgs_view(final(warnings)@) == msgs_view(old(warnings)@) + seq![m@],
{
    let ghost before = warnings@;
    warnings.push(m);
    assert(msgs_view(warnings@) =~= msgs_view(before) + seq![m@]);
}

/// Records the warning of a value that denotes no facility.
fn warn_unless_found(
    warnings: &mut Vec<TagsToLanesMsg>,
    r: Result<Option<(Variant, bool)>, VariantError>,
    Ghost(t): Ghost<TagSeq>,
    Ghost(k): Ghost<Seq<char>>,
)
    requires
        variant_result_ok(r, t, k),
        !(r matches Ok(Some(_))),
    ensures
        msgs_view(final(warnings)@) == msgs_view(old(warnings)@) + class_warning(t, k),
{
    match r {
        Ok(_) => {
            assert(msgs_view(warnings@) =~= msgs_view(warnings@) + class_warning(t, k));
        },
        Err(e) => {
            warn(warnings, e.into_msg());
        },
    }
}

fn variant_str(v: Variant) -> (r: &'static str)
    ensures
        r@ == variant_name(v),
{
    match v {
        Variant::Lane => "lane",
        Variant::Track => "track",
        Variant::SharedMotor => "opposite",
    }
}

fn clone_value(v: Option<&String>) -> (r: Option<String>)
    ensures
        match v {
            Some(x) => r matches Some(y) && y@ == x@,
            None => r is None,
        },
{
    match v {
        Some(x) => Some(x.clone()),
        None => None,
    }
}

impl Scheme {
    fn from_bare(
        tags: &Tags,
        locale: &Locale,
        oneway: bool,
        v: Variant,
        opposite: bool,
        warnings: &mut Vec<TagsToLanesMsg>,
    ) -> (r: Result<Self, TagsToLanesMsg>)
        requires
            tags.wf(),
        ensures
            scheme_matches(r, resolve_bare(tags@, locale.driving_side, oneway, v, opposite).0),
            msgs_view(final(warnings)@) == msgs_view(old(warnings)@) + resolve_bare(
                tags@,
                locale.driving_side,
                oneway,
                v,
                opposite,
            ).1,
    {
        let ghost w0 = msgs_view(warnings@);
        if oneway {
            if !opposite {
                assert(msgs_view(warnings@) =~= w0 + seq![]);
                Ok(Scheme(Location::Forward(Way { variant: v, direction: LaneDirection::Forward, width: None })))
            } else {
                if let Variant::Lane | Variant::Track = v {
                    let far = locale.driving_side.opposite();
                    let k = TagKey::from("cycleway").add(far.tag());
                    let k2 = TagKey::from("cycleway").add(far.tag()).add("oneway");
                    let mut suggested = Tags::default();
                    let _ = suggested.insert(k.as_str(), variant_str(v).to_owned());
                    let _ = suggested.insert(k2.as_str(), "-1".to_owned());
                    let keys = vec!["cycleway"];
                    assert(keys@.map_values(|x: &str| x@) =~= seq![cycleway_key(None)]);
                    let deprecated = tags.subset(keys.as_slice());
                    warn(warnings, TagsToLanesMsg::DeprecatedTags { deprecated, suggested });
                } else {
                    assert(msgs_view(warnings@) =~= w0 + seq![]);
                }
                Ok(Scheme(Location::Backward(Way { variant: v, direction: LaneDirection::Backward, width: None })))
            }
        } else {
            if opposite {
                proof {
                    reveal_strlit("oneway");
                    reveal_strlit("cycleway");
                    assert("oneway"@[0] != "cycleway"@[0]);
                }
                let keys = vec!["oneway", "cycleway"];
                assert(keys@.map_values(|x: &str| x@) =~= seq!["oneway"@, cycleway_key(None)]);
                warn(warnings, TagsToLanesMsg::UnsupportedTags(tags.subset(keys.as_slice())));
            } else {
                assert(msgs_view(warnings@) =~= w0 + seq![]);
            }
            Ok(Scheme(Location::Both {
                forward: Way { variant: v, direction: LaneDirection::Forward, width: None },
                backward: Way { variant: v, direction: LaneDirection::Backward, width: None },
            }))
        }
    }

    fn from_far(
        tags: &Tags,
        locale: &Locale,
        oneway: bool,
        warnings: &mut Vec<TagsToLanesMsg>,
    ) -> (r: Result<Self, TagsToLanesMsg>)
        requires
            tags.wf(),
        ensures
            scheme_matches(r, resolve_far(tags@, locale.driving_side, oneway).0),
            msgs_view(final(warnings)@) == msgs_view(old(warnings)@) + resolve_far(
                tags@,
                locale.driving_side,
                oneway,
            ).1,
    {
        let far = locale.driving_side.opposite();
        let kf = TagKey::from("cycleway").add(far.tag());
        if tags.is(kf.as_str(), "opposite_lane") || tags.is(kf.as_str(), "opposite_track") {
            let keys = vec![kf.as_str()];
            assert(keys@.map_values(|x: &str| x@) =~= seq![kf@]);
            assert(msgs_view(warnings@) =~= msgs_view(warnings@) + seq![]);
            return Err(TagsToLanesMsg::UnsupportedTags(tags.subset(keys.as_slice())));
        }
        match tags.get_variant(kf.as_str()) {
            Ok(Some((v, _))) => {
                let kw = TagKey::from("cycleway").add(far.tag()).add("width");
                let ko = TagKey::from("cycleway").add(far.tag()).add("oneway");
                let width = clone_value(tags.get(kw.as_str()));
                let direction = if tags.is(ko.as_str(), "yes") {
                    LaneDirection::Forward
                } else if tags.is(ko.as_str(), "-1") {
                    LaneDirection::Backward
                } else if tags.is(ko.as_str(), "no") || tags.is("oneway:bicycle", "no") {
                    LaneDirection::Both
                } else if oneway {
                    LaneDirection::Forward
                } else {
                    LaneDirection::Backward
                };
                assert(msgs_view(warnings@) =~= msgs_view(warnings@) + seq![]);
                Ok(Scheme(Location::Backward(Way { variant: v, direction, width })))
            },
            other => {
                warn_unless_found(warnings, other, Ghost(tags@), Ghost(kf@));
                Ok(Scheme(Location::Absent))
            },
        }
    }

    fn from_near(
        tags: &Tags,
        locale: &Locale,
        oneway: bool,
        warnings: &mut Vec<TagsToLanesMsg>,
    ) -> (r: Result<Self, TagsToLanesMsg>)
        requires
            tags.wf(),
        ensures
            scheme_matches(r, resolve_near(tags@, locale.driving_side, oneway).0),
            msgs_view(final(warnings)@) == msgs_view(old(warnings)@) + resolve_near(
                tags@,
                locale.driving_side,
                oneway,
            ).1,
    {
        let ghost w0 = msgs_view(warnings@);
        let near = locale.driving_side;
        let kn = TagKey::from("cycleway").add(near.tag());
        if tags.is(kn.as_str(), "opposite_lane") || tags.is(kn.as_str(), "opposite_track") {
            let keys = vec![kn.as_str()];
            assert(keys@.map_values(|x: &str| x@) =~= seq![kn@]);
            warn(
                warnings,
                TagsToLanesMsg::DeprecatedTags {
                    deprecated: tags.subset(keys.as_slice()),
                    suggested: Tags::default(),
                },
            );
            return Ok(Scheme(Location::Forward(Way { variant: Variant::Lane, direction: LaneDirection::Backward, width: None })));
        }
        match tags.get_variant(kn.as_str()) {
            Ok(Some((v, _))) => {
                let kw = TagKey::from("cycleway").add(near.tag()).add("width");
                let ko = TagKey::from("cycleway").add(near.tag()).add("oneway");
                let width = clone_value(tags.get(kw.as_str()));
                let direction = if tags.is(ko.as_str(), "no") || tags.is("oneway:bicycle", "no") {
                    LaneDirection::Both
                } else {
                    LaneDirection::Forward
                };
                assert(msgs_view(warnings@) =~= w0 + seq![]);
                Ok(Scheme(Location::Forward(Way { variant: v, direction, width })))
            },
            other => {
                warn_unless_found(warnings, other, Ghost(tags@), Ghost(kn@));
                let r = Self::from_far(tags, locale, oneway, warnings);
                assert(msgs_view(warnings@) =~= w0 + (class_warning(tags@, kn@) + resolve_far(
                    tags@,
                    locale.driving_side,
                    oneway,
                ).1));
                r
            },
        }
    }

    fn from_sides(
        tags: &Tags,
        locale: &Locale,
        oneway: bool,
        warnings: &mut Vec<TagsToLanesMsg>,
    ) -> (r: Result<Self, TagsToLanesMsg>)
        requires
            tags.wf(),
        ensures
            scheme_matches(r, resolve_sides(tags@, locale.driving_side, oneway).0),
            msgs_view(final(warnings)@) == msgs_view(old(warnings)@) + resolve_sides(
                tags@,
                locale.driving_side,
                oneway,
            ).1,
    {
        let ghost w0 = msgs_view(warnings@);
        let kb = TagKey::from("cycleway").add(WaySide::Both.as_str());
        match tags.get_variant(kb.as_str()) {
            Ok(Some((v, opposite))) => {
                if opposite {
                    let keys = vec![kb.as_str()];
                    assert(keys@.map_values(|x: &str| x@) =~= seq![kb@]);
                    warn(warnings, TagsToLanesMsg::UnsupportedTags(tags.subset(keys.as_slice())));
                } else {
                    assert(msgs_view(warnings@) =~= w0 + seq![]);
                }
                Ok(Scheme(Location::Both {
                    forward: Way { variant: v, direction: LaneDirection::Forward, width: None },
                    backward: Way { variant: v, direction: LaneDirection::Backward, width: None },
                }))
            },
            other => {
                warn_unless_found(warnings, other, Ghost(tags@), Ghost(kb@));
                let r = Self::from_near(tags, locale, oneway, warnings);
                assert(msgs_view(warnings@) =~= w0 + (class_warning(tags@, kb@) + resolve_near(
                    tags@,
                    locale.driving_side,
                    oneway,
                ).1));
                r
            },
        }
    }

    /// Resolves the bicycle facilities of a road from its tags.
    pub fn from_tags(
        tags: &Tags,
        locale: &Locale,
        road_oneway: Oneway,
        warnings: &mut Vec<TagsToLanesMsg>,
    ) -> (r: Result<Self, TagsToLanesMsg>)
        requires
            tags.wf(),
        ensures
            scheme_matches(r, resolve(tags@, locale.driving_side, road_oneway is Yes).0),
            msgs_view(final(warnings)@) == msgs_view(old(warnings)@) + resolve(
                tags@,
                locale.driving_side,
                road_oneway is Yes,
            ).1,
    {
        let ghost w0 = msgs_view(warnings@);
        let oneway = road_oneway.is_yes();
        if tags.get("cycleway").is_some() {
            let kb = TagKey::from("cycleway").add(WaySide::Both.as_str());
            let kl = TagKey::from("cycleway").add(WaySide::Left.as_str());
            let kr = TagKey::from("cycleway").add(WaySide::Right.as_str());
            if tags.get(kb.as_str()).is_some() || tags.get(kl.as_str()).is_some() || tags.get(
                kr.as_str(),
            ).is_some() {
                assert(msgs_view(warnings@) =~= w0 + seq![]);
                return Err(
                    TagsToLanesMsg::UnsupportedStr("cycleway=* with any cycleway:* values".to_owned()),
                );
            }
        }
        match tags.cycleway_variant(None) {
            Ok(Some((v, opposite))) => Self::from_bare(tags, locale, oneway, v, opposite, warnings),
            other => {
                warn_unless_found(warnings, other, Ghost(tags@), Ghost(cycleway_key(None)));
                let r = Self::from_sides(tags, locale, oneway, warnings);
                assert(msgs_view(warnings@) =~= w0 + (class_warning(tags@, cycleway_key(None))
                    + resolve_sides(tags@, locale.driving_side, oneway).1));
                r
            },
        }
    }
}


/// Whether `lane` is the bicycle travel lane that `way` describes.
pub open spec fn is_cycle_lane(lane: LaneBuilder, way: WayView) -> bool {
    &&& lane.lane_type == Infer::Direct(LaneType::Travel)
    &&& lane.direction == Infer::Direct(way.direction)
    &&& lane.designated == Infer::Direct(LaneDesignated::Bicycle)
    &&& match (lane.width, way.width) {
        (Infer::Direct(a), Some(b)) => a@ == b,
        (Infer::Unset, None) => true,
        _ => false,
    }
}

/// `after` is `before` with one bicycle lane for `way` added at the outer edge.
pub open spec fn pushed_cycle_lane(after: Seq<LaneBuilder>, before: Seq<LaneBuilder>, way: WayView) -> bool {
    &&& after.len() == before.len() + 1
    &&& after.drop_last() == before
    &&& is_cycle_lane(after.last(), way)
}

impl LaneBuilder {
    /// A bicycle travel lane with the given direction and tagged width.
    pub fn cycle(direction: LaneDirection, width: Option<String>) -> (r: Self)
        ensures
            is_cycle_lane(r, way_view(Variant::Lane, direction, match width {
                Some(w) => Some(w@),
                None => None,
            })),
    {
        LaneBuilder {
            lane_type: Infer::Direct(LaneType::Travel),
            direction: Infer::Direct(direction),
            designated: Infer::Direct(LaneDesignated::Bicycle),
            width: match width {
                Some(w) => Infer::Direct(w),
                None => Infer::Unset,
            },
        }
    }
}

fn lane_of(way: Way) -> (r: LaneBuilder)
    ensures
        is_cycle_lane(r, way@),
{
    LaneBuilder::cycle(way.direction, way.width)
}

/// Resolves the bicycle scheme of the tags and adds its lanes to the road.
pub fn bicycle(
    tags: &Tags,
    locale: &Locale,
    road: &mut RoadBuilder,
    warnings: &mut Vec<TagsToLanesMsg>,
) -> (r: Result<(), TagsToLanesMsg>)
    requires
        tags.wf(),
    ensures
        msgs_view(final(warnings)@) == msgs_view(old(warnings)@) + resolve(
            tags@,
            locale.driving_side,
            old(road).oneway,
        ).1,
        final(road).oneway == old(road).oneway,
        match resolve(tags@, locale.driving_side, old(road).oneway).0 {
            Err(m) => {
                &&& r matches Err(e) && e@ == m
                &&& final(road).forward_side@ == old(road).forward_side@
                &&& final(road).backward_side@ == old(road).backward_side@
            },
            Ok(LocationView::Absent) => {
                &&& r is Ok
                &&& final(road).forward_side@ == old(road).forward_side@
                &&& final(road).backward_side@ == old(road).backward_side@
            },
            Ok(LocationView::Forward(w)) => {
                &&& r is Ok
                &&& pushed_cycle_lane(final(road).forward_side@, old(road).forward_side@, w)
                &&& final(road).backward_side@ == old(road).backward_side@
            },
            Ok(LocationView::Backward(w)) => {
                &&& r is Ok
                &&& final(road).forward_side@ == old(road).forward_side@
                &&& pushed_cycle_lane(final(road).backward_side@, old(road).backward_side@, w)
            },
            Ok(LocationView::Both(f, b)) => {
                &&& r is Ok
                &&& pushed_cycle_lane(final(road).forward_side@, old(road).forward_side@, f)
                &&& pushed_cycle_lane(final(road).backward_side@, old(road).backward_side@, b)
            },
        },
{
    let oneway = if road.oneway {
        Oneway::Yes
    } else {
        Oneway::No
    };
    let scheme = match Scheme::from_tags(tags, locale, oneway, warnings) {
        Ok(s) => s,
        Err(e) => {
            return Err(e);
        },
    };
    let ghost f0 = road.forward_side@;
    let ghost b0 = road.backward_side@;
    match scheme.0 {
        Location::Absent => {},
        Location::Forward(way) => {
            road.push_forward_outside(lane_of(way));
        },
        Location::Backward(way) => {
            road.push_backward_outside(lane_of(way));
        },
        Location::Both { forward, backward } => {
            road.push_forward_outside(lane_of(forward));
            road.push_backward_outside(lane_of(backward));
        },
    }
    assert(road.forward_side@.len() > f0.len() ==> road.forward_side@.drop_last() =~= f0);
    assert(road.backward_side@.len() > b0.len() ==> road.backward_side@.drop_last() =~= b0);
    Ok(())
}


/// A bare `cycleway` key beside any of `cycleway:both`, `cycleway:left` or `cycleway:right`
/// is a fatal conflict, whatever their values, the driving side and the road's one-way state.
pub proof fn lemma_bare_and_side_keys_conflict(t: TagSeq, ds: DrivingSide, oneway: bool)
    requires
        has_key(t, cycleway_key(None)),
        side_keys_present(t),
    ensures
        resolve(t, ds, oneway).0 == Err::<LocationView, MsgView>(MsgView::UnsupportedStr(conflict_text())),
        resolve(t, ds, oneway).1 == Seq::<MsgView>::empty(),
{
}


/// A cycleway key with its side word `left` and `right` swapped; other keys are kept.
pub open spec fn mirror_key(k: Seq<char>) -> Seq<char> {
    let p = "cycleway:"@;
    if k.len() >= 13 && k.subrange(0, 9) == p && k.subrange(9, 13) == "left"@ {
        p + "right"@ + k.subrange(13, k.len() as int)
    } else if k.len() >= 14 && k.subrange(0, 9) == p && k.subrange(9, 14) == "right"@ {
        p + "left"@ + k.subrange(14, k.len() as int)
    } else {
        k
    }
}

/// The tags with `left` and `right` swapped in every cycleway key.
pub open spec fn mirror_tags(t: TagSeq) -> TagSeq {
    t.map_values(|e: (Seq<char>, Seq<char>)| (mirror_key(e.0), e.1))
}

proof fn lemma_mirror_involution(k: Seq<char>)
    ensures
        mirror_key(mirror_key(k)) == k,
{
    reveal_strlit("cycleway:");
    reveal_strlit("left");
    reveal_strlit("right");
    let p = "cycleway:"@;
    if k.len() >= 13 && k.subrange(0, 9) == p && k.subrange(9, 13) == "left"@ {
        let m = p + "right"@ + k.subrange(13, k.len() as int);
        assert(m.subrange(0, 9) =~= p);
        assert(m.subrange(9, 13)[0] == 'r');
        assert(m.subrange(9, 14) =~= "right"@);
        assert(m.subrange(14, m.len() as int) =~= k.subrange(13, k.len() as int));
        assert(p + "left"@ + m.subrange(14, m.len() as int) =~= k);
    } else if k.len() >= 14 && k.subrange(0, 9) == p && k.subrange(9, 14) == "right"@ {
        let m = p + "left"@ + k.subrange(14, k.len() as int);
        assert(m.subrange(0, 9) =~= p);
        assert(m.subrange(9, 13) =~= "left"@);
        assert(m.subrange(13, m.len() as int) =~= k.subrange(14, k.len() as int));
        assert(p + "right"@ + m.subrange(13, m.len() as int) =~= k);
    }
}

proof fn lemma_mirror_get(t: TagSeq, k: Seq<char>)
    requires
        keys_distinct(t),
    ensures
        keys_distinct(mirror_tags(t)),
        tag_get(mirror_tags(t), k) == tag_get(t, mirror_key(k)),
{
    let mt = mirror_tags(t);
    assert forall|i: int, j: int| 0 <= i < j < mt.len() implies mt[i].0 != mt[j].0 by {
        lemma_mirror_involution(t[i].0);
        lemma_mirror_involution(t[j].0);
    }
    let mk = mirror_key(k);
    lemma_mirror_involution(k);
    if has_key(t, mk) {
        let i = key_index(t, mk);
        assert(mt[i].0 == k);
        assert(has_key(mt, k));
        let j = key_index(mt, k);
        lemma_mirror_involution(t[j].0);
        assert(t[j].0 == mk);
    } else if has_key(mt, k) {
        let j = key_index(mt, k);
        lemma_mirror_involution(t[j].0);
        assert(t[j].0 == mk);
    }
}

proof fn lemma_mirror_cycleway_keys()
    ensures
        mirror_key(cycleway_key(None)) == cycleway_key(None),
        mirror_key(cycleway_key(Some(WaySide::Both))) == cycleway_key(Some(WaySide::Both)),
        mirror_key("oneway:bicycle"@) == "oneway:bicycle"@,
        mirror_key(cycleway_key(Some(WaySide::Left))) == cycleway_key(Some(WaySide::Right)),
        mirror_key(cycleway_key(Some(WaySide::Right))) == cycleway_key(Some(WaySide::Left)),
        mirror_key(sub_key(cycleway_key(Some(WaySide::Left)), "width"@)) == sub_key(
            cycleway_key(Some(WaySide::Right)),
            "width"@,
        ),
        mirror_key(sub_key(cycleway_key(Some(WaySide::Right)), "width"@)) == sub_key(
            cycleway_key(Some(WaySide::Left)),
            "width"@,
        ),
        mirror_key(sub_key(cycleway_key(Some(WaySide::Left)), "oneway"@)) == sub_key(
            cycleway_key(Some(WaySide::Right)),
            "oneway"@,
        ),
        mirror_key(sub_key(cycleway_key(Some(WaySide::Right)), "oneway"@)) == sub_key(
            cycleway_key(Some(WaySide::Left)),
            "oneway"@,
        ),
{
    reveal_strlit("cycleway:");
    reveal_strlit("cycleway");
    reveal_strlit(":");
    reveal_strlit("left");
    reveal_strlit("right");
    reveal_strlit("both");
    reveal_strlit("width");
    reveal_strlit("oneway");
    reveal_strlit("oneway:bicycle");
    let p = "cycleway:"@;
    assert(cycleway_key(None).len() == 8);
    let kb = cycleway_key(Some(WaySide::Both));
    assert(kb.subrange(9, 13)[0] == 'b');
    assert(kb.subrange(9, 13)[0] != "left"@[0]);
    assert(kb.len() < 14);
    assert("oneway:bicycle"@.subrange(0, 9)[0] != p[0]);
    let kl = cycleway_key(Some(WaySide::Left));
    let kr = cycleway_key(Some(WaySide::Right));
    assert(kl.subrange(0, 9) =~= p);
    assert(kl.subrange(9, 13) =~= "left"@);
    assert(p + "right"@ + kl.subrange(13, kl.len() as int) =~= kr);
    assert(kr.subrange(0, 9) =~= p);
    assert(kr.subrange(9, 13)[0] != "left"@[0]);
    assert(kr.subrange(9, 14) =~= "right"@);
    assert(p + "left"@ + kr.subrange(14, kr.len() as int) =~= kl);
    let subs = seq!["width"@, "oneway"@];
    assert forall|i: int| 0 <= i < 2 implies mirror_key(sub_key(kl, #[trigger] subs[i])) == sub_key(kr, subs[i])
        && mirror_key(sub_key(kr, subs[i])) == sub_key(kl, subs[i]) by {
        let x = subs[i];
        let a = sub_key(kl, x);
        let b = sub_key(kr, x);
        assert(a.subrange(0, 9) =~= p);
        assert(a.subrange(9, 13) =~= "left"@);
        assert(p + "right"@ + a.subrange(13, a.len() as int) =~= b);
        assert(b.subrange(0, 9) =~= p);
        assert(b.subrange(9, 13)[0] != "left"@[0]);
        assert(b.subrange(9, 14) =~= "right"@);
        assert(p + "left"@ + b.subrange(14, b.len() as int) =~= a);
    }
    assert(subs[0] == "width"@ && subs[1] == "oneway"@);
}

/// Directions are way-relative: swapping `left` and `right` in every cycleway key and
/// flipping the driving side gives the same scheme, and fails exactly where the unswapped
/// tags fail (the error then names the swapped keys).
pub proof fn lemma_scheme_is_way_relative(t: TagSeq, ds: DrivingSide, oneway: bool)
    requires
        keys_distinct(t),
    ensures
        resolve(mirror_tags(t), ds.spec_opposite(), oneway).0 is Ok <==> resolve(t, ds, oneway).0 is Ok,
        resolve(t, ds, oneway).0 is Ok ==> resolve(mirror_tags(t), ds.spec_opposite(), oneway).0
            == resolve(t, ds, oneway).0,
{
    let mt = mirror_tags(t);
    lemma_mirror_cycleway_keys();
    let kl = cycleway_key(Some(WaySide::Left));
    let kr = cycleway_key(Some(WaySide::Right));
    lemma_mirror_get(t, cycleway_key(None));
    lemma_mirror_get(t, cycleway_key(Some(WaySide::Both)));
    lemma_mirror_get(t, kl);
    lemma_mirror_get(t, kr);
    lemma_mirror_get(t, sub_key(kl, "width"@));
    lemma_mirror_get(t, sub_key(kr, "width"@));
    lemma_mirror_get(t, sub_key(kl, "oneway"@));
    lemma_mirror_get(t, sub_key(kr, "oneway"@));
    lemma_mirror_get(t, "oneway:bicycle"@);
    assert(has_key(mt, cycleway_key(None)) == has_key(t, cycleway_key(None)));
    assert(side_keys_present(mt) == side_keys_present(t));
    let ds2 = ds.spec_opposite();
    assert(near_side(ds2) == far_side(ds) && far_side(ds2) == near_side(ds));
    assert(resolve_far(mt, ds2, oneway).0 is Ok <==> resolve_far(t, ds, oneway).0 is Ok);
    assert(resolve_far(t, ds, oneway).0 is Ok ==> resolve_far(mt, ds2, oneway).0 == resolve_far(t, ds, oneway).0);
    assert(resolve_near(mt, ds2, oneway).0 is Ok <==> resolve_near(t, ds, oneway).0 is Ok);
    assert(resolve_near(t, ds, oneway).0 is Ok ==> resolve_near(mt, ds2, oneway).0 == resolve_near(t, ds, oneway).0);
    assert(resolve_sides(mt, ds2, oneway).0 is Ok <==> resolve_sides(t, ds, oneway).0 is Ok);
    assert(resolve_sides(t, ds, oneway).0 is Ok ==> resolve_sides(mt, ds2, oneway).0 == resolve_sides(t, ds, oneway).0);
}

} // verus!
