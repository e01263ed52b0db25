use vstd::prelude::*;

use crate::lane::{Lane, LaneDesignated, LaneDirection};
use crate::tags::{TagSeq, Tags};

verus! {

/// A diagnostic of the tags-to-lanes transform, either a warning or a fatal error.
#[derive(Debug)]
pub enum TagsToLanesMsg {
    /// The tags hold a value that is not understood.
    UnsupportedTags(Tags),
    /// The tags hold a value that is understood but not modelled.
    UnimplementedTags(Tags),
    /// The tags use a deprecated spelling; `suggested` holds a replacement, where one is known.
    DeprecatedTags { deprecated: Tags, suggested: Tags },
    /// A combination of tags that cannot be resolved, described in words.
    UnsupportedStr(String),
}

/// The abstract content of a diagnostic.
pub enum MsgView {
    UnsupportedTags(TagSeq),
    UnimplementedTags(TagSeq),
    DeprecatedTags(TagSeq, TagSeq),
    UnsupportedStr(Seq<char>),
}

impl View for TagsToLanesMsg {
    type V = MsgView;

    open spec fn view(&self) -> MsgView {
        match self {
            TagsToLanesMsg::UnsupportedTags(t) => MsgView::UnsupportedTags(t@),
            TagsToLanesMsg::UnimplementedTags(t) => MsgView::UnimplementedTags(t@),
            TagsToLanesMsg::DeprecatedTags { deprecated, suggested } => MsgView::DeprecatedTags(
                deprecated@,
                suggested@,
            ),
            TagsToLanesMsg::UnsupportedStr(s) => MsgView::UnsupportedStr(s@),
        }
    }
}

pub open spec fn msgs_view(w: Seq<TagsToLanesMsg>) -> Seq<MsgView> {
    w.map_values(|m: TagsToLanesMsg| m@)
}

/// The kind of a lane, before it is finalized.
#[derive(Clone, Copy, Debug, PartialEq, Eq, Structural)]
pub enum LaneType {
    Travel,
    Parking,
    Shoulder,
    Separator,
}

/// A field that is unset, given directly by the tags, or derived.
#[derive(Clone, Debug, PartialEq, Eq)]
pub enum Infer<T> {
    Unset,
    Direct(T),
    Calculated(T),
}

/// A lane under construction; unset fields are resolved when the road is finalized.
#[derive(Debug)]
pub struct LaneBuilder {
    pub lane_type: Infer<LaneType>,
    pub direction: Infer<LaneDirection>,
    pub designated: Infer<LaneDesignated>,
    /// The target width, as written in the tags.
    pub width: Infer<String>,
}

/// The lanes of a road, each side stacked from the centre line outward.
#[derive(Debug)]
pub struct RoadBuilder {
    pub oneway: bool,
    pub forward_side: Vec<LaneBuilder>,
    pub backward_side: Vec<LaneBuilder>,
}

/// Why a road builder cannot be finalized.
#[derive(Clone, Copy, Debug, PartialEq, Eq, Structural)]
pub enum FinalizeError {
    /// Neither side holds a lane.
    EmptyRoad,
    /// A lane lacks its kind, or a field that its kind needs.
    IncompleteLane,
}

pub open spec fn infer_value<T>(i: Infer<T>) -> Option<T> {
    match i {
        Infer::Direct(x) => Some(x),
        Infer::Calculated(x) => Some(x),
        Infer::Unset => None,
    }
}

/// The finalized lane of a builder, if its fields suffice.
pub open spec fn finalize_lane(b: LaneBuilder) -> Option<Lane> {
    match infer_value(b.lane_type) {
        Some(LaneType::Travel) => match infer_value(b.designated) {
            Some(d) => Some(Lane::Travel { direction: infer_value(b.direction), designated: d }),
            None => None,
        },
        Some(LaneType::Parking) => match (infer_value(b.direction), infer_value(b.designated)) {
            (Some(x), Some(d)) => Some(Lane::Parking { direction: x, designated: d }),
            _ => None,
        },
        Some(LaneType::Shoulder) => Some(Lane::Shoulder),
        Some(LaneType::Separator) => Some(Lane::Separator),
        None => None,
    }
}

/// The lane builders from left to right: the backward side from its outer edge in,
/// then the forward side from the centre out.
pub open spec fn left_to_right(backward: Seq<LaneBuilder>, forward: Seq<LaneBuilder>) -> Seq<LaneBuilder> {
    Seq::new(
        (backward.len() + forward.len()) as nat,
        |i: int|
            if i < backward.len() {
                backward[backward.len() - 1 - i]
            } else {
                forward[i - backward.len()]
            },
    )
}

fn infer_copy<T: Copy>(i: &Infer<T>) -> (r: Option<T>)
    ensures
        r == infer_value(*i),
{
    match i {
        Infer::Direct(x) => Some(*x),
        Infer::Calculated(x) => Some(*x),
        Infer::Unset => None,
    }
}

impl LaneBuilder {
    /// The finalized lane, or `None` where a needed field is unset.
    pub fn build(&self) -> (r: Option<Lane>)
        ensures
            r == finalize_lane(*self),
    {
        match infer_copy(&self.lane_type) {
            Some(LaneType::Travel) => match infer_copy(&self.designated) {
                Some(d) => Some(Lane::Travel { direction: infer_copy(&self.direction), designated: d }),
                None => None,
            },
            Some(LaneType::Parking) => match (infer_copy(&self.direction), infer_copy(&self.designated)) {
                (Some(x), Some(d)) => Some(Lane::Parking { direction: x, designated: d }),
                _ => None,
            },
            Some(LaneType::Shoulder) => Some(Lane::Shoulder),
            Some(LaneType::Separator) => Some(Lane::Separator),
            None => None,
        }
    }
}

impl RoadBuilder {
    /// The finalized lanes from left to right: the backward side reversed, then the forward side.
    pub fn finalize(&self) -> (r: Result<Vec<Lane>, FinalizeError>)
        ensures
            ({
                let order = left_to_right(self.backward_side@, self.forward_side@);
                match r {
                    Ok(lanes) => {
                        &&& order.len() > 0
                        &&& lanes@.len() == order.len()
                        &&& forall|i: int| 0 <= i < order.len() ==> finalize_lane(#[trigger] order[i]) == Some(lanes@[i])
                    },
                    Err(FinalizeError::EmptyRoad) => order.len() == 0,
                    Err(FinalizeError::IncompleteLane) => {
                        &&& order.len() > 0
                        &&& exists|i: int| 0 <= i < order.len() && finalize_lane(#[trigger] order[i]) is None
                    },
                }
            }),
    {
        let ghost order = left_to_right(self.backward_side@, self.forward_side@);
        let nb = self.backward_side.len();
        let nf = self.forward_side.len();
        if nb == 0 && nf == 0 {
            return Err(FinalizeError::EmptyRoad);
        }
        let mut lanes: Vec<Lane> = Vec::new();
        let mut i: usize = 0;
        while i < nb
            invariant
                nb == self.backward_side@.len(),
                nf == self.forward_side@.len(),
                order == left_to_right(self.backward_side@, self.forward_side@),
                i <= nb,
                lanes@.len() == i,
                forall|j: int| 0 <= j < i ==> finalize_lane(#[trigger] order[j]) == Some(lanes@[j]),
            decreases nb - i,
        {
            match self.backward_side[nb - 1 - i].build() {
                Some(lane) => lanes.push(lane),
                None => {
                    assert(order[i as int] == self.backward_side@[nb - 1 - i]);
                    return Err(FinalizeError::IncompleteLane);
                },
            }
            i = i + 1;
        }
        let mut k: usize = 0;
        while k < nf
            invariant
                nb == self.backward_side@.len(),
                nf == self.forward_side@.len(),
                order == left_to_right(self.backward_side@, self.forward_side@),
                k <= nf,
                lanes@.len() == nb + k,
                forall|j: int| 0 <= j < nb + k ==> finalize_lane(#[trigger] order[j]) == Some(lanes@[j]),
            decreases nf - k,
        {
            match self.forward_side[k].build() {
                Some(lane) => lanes.push(lane),
                None => {
                    assert(order[nb + k] == self.forward_side@[k as int]);
                    return Err(FinalizeError::IncompleteLane);
                },
            }
            k = k + 1;
        }
        Ok(lanes)
    }

    pub fn new(oneway: bool) -> (r: RoadBuilder)
        ensures
            r.oneway == oneway,
            r.forward_side@.len() == 0,
            r.backward_side@.len() == 0,
    {
        RoadBuilder { oneway, forward_side: Vec::new(), backward_side: Vec::new() }
    }

    /// Adds a lane at the outer edge of the forward side.
    pub fn push_forward_outside(&mut self, lane: LaneBuilder)
        ensures
            final(self).oneway == old(self).oneway,
            final(self).forward_side@ == old(self).forward_side@.push(lane),
            final(self).backward_side@ == old(self).backward_side@,
    {
        self.forward_side.push(lane);
    }

    /// Adds a lane at the outer edge of the backward side.
    pub fn push_backward_outside(&mut self, lane: LaneBuilder)
        ensures
            final(self).oneway == old(self).oneway,
            final(self).forward_side@ == old(self).forward_side@,
            final(self).backward_side@ == old(self).backward_side@.push(lane),
    {
        self.backward_side.push(lane);
    }
}

} // verus!
