use vstd::prelude::*;

verus! {

/// Direction of travel along a lane, relative to the way's digitization direction.
#[derive(Clone, Copy, Debug, PartialEq, Eq, Structural)]
pub enum LaneDirection {
    Forward,
    Backward,
    Both,
}

/// The transport mode a lane is designated for.
#[derive(Clone, Copy, Debug, PartialEq, Eq, Structural)]
pub enum LaneDesignated {
    Foot,
    Bicycle,
    Motor,
    Bus,
}

/// A single finalized lane of a road's cross-section.
#[derive(Clone, Copy, Debug, PartialEq, Eq, Structural)]
pub enum Lane {
    Travel { direction: Option<LaneDirection>, designated: LaneDesignated },
    Parking { direction: LaneDirection, designated: LaneDesignated },
    Shoulder,
    Separator,
}

impl Lane {
    pub open spec fn spec_is_motor(&self) -> bool {
        self matches Lane::Travel { designated: LaneDesignated::Motor, .. }
    }

    pub open spec fn spec_is_travel_of(&self, d: LaneDesignated) -> bool {
        match self {
            Lane::Travel { designated, .. } => *designated == d,
            _ => false,
        }
    }

    pub open spec fn spec_direction(&self) -> Option<LaneDirection> {
        match self {
            Lane::Travel { direction, .. } => *direction,
            Lane::Parking { direction, .. } => Some(*direction),
            _ => None,
        }
    }

    pub fn is_shoulder(&self) -> (r: bool)
        ensures
            r == (*self is Shoulder),
    {
        matches!(self, Lane::Shoulder)
    }

    pub fn is_parking(&self) -> (r: bool)
        ensures
            r == (*self is Parking),
    {
        matches!(self, Lane::Parking { .. })
    }

    pub fn is_travel_of(&self, d: LaneDesignated) -> (r: bool)
        ensures
            r == self.spec_is_travel_of(d),
    {
        match self {
            Lane::Travel { designated, .. } => *designated == d,
            _ => false,
        }
    }

    pub fn is_motor(&self) -> (r: bool)
        ensures
            r == self.spec_is_motor(),
    {
        matches!(self, Lane::Travel { designated: LaneDesignated::Motor, .. })
    }

    pub fn is_foot(&self) -> (r: bool)
        ensures
            r == self.spec_is_travel_of(LaneDesignated::Foot),
    {
        matches!(self, Lane::Travel { designated: LaneDesignated::Foot, .. })
    }

    pub fn is_bicycle(&self) -> (r: bool)
        ensures
            r == self.spec_is_travel_of(LaneDesignated::Bicycle),
    {
        matches!(self, Lane::Travel { designated: LaneDesignated::Bicycle, .. })
    }

    pub fn is_bus(&self) -> (r: bool)
        ensures
            r == self.spec_is_travel_of(LaneDesignated::Bus),
    {
        matches!(self, Lane::Travel { designated: LaneDesignated::Bus, .. })
    }

    pub fn direction(&self) -> (r: Option<LaneDirection>)
        ensures
            r == self.spec_direction(),
    {
        match self {
            Lane::Travel { direction, .. } => *direction,
            Lane::Parking { direction, .. } => Some(*direction),
            _ => None,
        }
    }
}

/// Display lane detail as printable characters.
pub trait LanePrintable {
    spec fn ascii_glyph(&self) -> char;

    spec fn utf8_glyph(&self) -> char;

    fn as_ascii(&self) -> (r: char)
        ensures
            r == self.ascii_glyph(),
    ;

    fn as_utf8(&self) -> (r: char)
        ensures
            r == self.utf8_glyph(),
    ;
}

impl LanePrintable for Lane {
    open spec fn ascii_glyph(&self) -> char {
        match self {
            Lane::Travel { designated: LaneDesignated::Foot, .. } => 's',
            Lane::Travel { designated: LaneDesignated::Bicycle, .. } => 'b',
            Lane::Travel { designated: LaneDesignated::Motor, .. } => 'd',
            Lane::Travel { designated: LaneDesignated::Bus, .. } => 'B',
            Lane::Shoulder => 'S',
            Lane::Parking { .. } => 'p',
            Lane::Separator => '|',
        }
    }

    open spec fn utf8_glyph(&self) -> char {
        match self {
            Lane::Travel { designated: LaneDesignated::Foot, .. } => '🚶',
            Lane::Travel { designated: LaneDesignated::Bicycle, .. } => '🚲',
            Lane::Travel { designated: LaneDesignated::Motor, .. } => '🚗',
            Lane::Travel { designated: LaneDesignated::Bus, .. } => '🚌',
            Lane::Shoulder => '🛆',
            Lane::Parking { .. } => '🅿',
            Lane::Separator => '|',
        }
    }

    fn as_ascii(&self) -> (r: char) {
        match self {
            Lane::Travel { designated: LaneDesignated::Foot, .. } => 's',
            Lane::Travel { designated: LaneDesignated::Bicycle, .. } => 'b',
            Lane::Travel { designated: LaneDesignated::Motor, .. } => 'd',
            Lane::Travel { designated: LaneDesignated::Bus, .. } => 'B',
            Lane::Shoulder => 'S',
            Lane::Parking { .. } => 'p',
            Lane::Separator => '|',
        }
    }

    fn as_utf8(&self) -> (r: char) {
        match self {
            Lane::Travel { designated: LaneDesignated::Foot, .. } => '🚶',
            Lane::Travel { designated: LaneDesignated::Bicycle, .. } => '🚲',
            Lane::Travel { designated: LaneDesignated::Motor, .. } => '🚗',
            Lane::Travel { designated: LaneDesignated::Bus, .. } => '🚌',
            Lane::Shoulder => '🛆',
            Lane::Parking { .. } => '🅿',
            Lane::Separator => '|',
        }
    }
}

impl LanePrintable for LaneDirection {
    open spec fn ascii_glyph(&self) -> char {
        match self {
            LaneDirection::Forward => '^',
            LaneDirection::Backward => 'v',
            LaneDirection::Both => '|',
        }
    }

    open spec fn utf8_glyph(&self) -> char {
        match self {
            LaneDirection::Forward => '↑',
            LaneDirection::Backward => '↓',
            LaneDirection::Both => '↕',
        }
    }

    fn as_ascii(&self) -> (r: char) {
        match self {
            LaneDirection::Forward => '^',
            LaneDirection::Backward => 'v',
            LaneDirection::Both => '|',
        }
    }

    fn as_utf8(&self) -> (r: char) {
        match self {
            LaneDirection::Forward => '↑',
            LaneDirection::Backward => '↓',
            LaneDirection::Both => '↕',
        }
    }
}

} // verus!
