//! A simulation of vehicles crossing one four-way intersection without
//! signals: vehicles arbitrate right of way through conflict tables and a
//! fairness queue, and a collision veto keeps their footprints apart.
//!
//! Lengths are fixed-point, in tenths of a pixel.
pub mod route;
pub mod car;
pub mod lanes;
pub mod arbitration;
pub mod collision;
pub mod model;
pub mod intersection;
mod random;

pub use route::{
    Point, Direction, Turning, Route, CAR_HEIGHT, CAR_LENGTH, CAR_SPEED_NORMAL, CAR_SPEED_SLOW,
    CAR_SPEED_FAST, FIELD_SIZE, ROUTE_COUNT,
};
pub use car::Car;
pub use collision::{intersect, SAFETY_MARGIN};
pub use intersection::{Intersection, PALETTE_SIZE};
