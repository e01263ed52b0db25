pub mod bicycle;
pub mod lane;
pub mod lanes_to_tags;
pub mod locale;
pub mod road;
pub mod tags;

pub use bicycle::{bicycle, Location, Oneway, Scheme, Variant, VariantError, Way};
pub use lane::{Lane, LaneDesignated, LaneDirection, LanePrintable};
pub use lanes_to_tags::{check_roundtrip, decimal_string, lanes_to_tags, LanesToTagsConfig, RoadError};
pub use locale::{Config, DrivingSide, Locale, WaySide};
pub use road::{FinalizeError, Infer, LaneBuilder, LaneType, RoadBuilder, TagsToLanesMsg};
pub use tags::{DuplicateKeyError, TagKey, Tags, TagsRead, TagsWrite};
