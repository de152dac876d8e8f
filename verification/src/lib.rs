//! Planning "bike buses" (cycle trains) to school: the verified core of the
//! street graph, route aggregation and timetable logic.
pub mod clock;
pub mod config;
pub mod cost;
pub mod graph;
pub mod osm;
pub mod overline;
pub mod router;
pub mod synthetic;
pub mod text;
pub mod timetable;

pub use config::{default_arrival_time, default_max_routes};
pub use clock::parse_hhmm_to_seconds;
pub use cost::RoutingProfile;
