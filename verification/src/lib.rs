//! An in-process tracker that times named tasks.

pub mod clock;
pub mod decimal;
pub mod model;
pub mod record;
pub mod text;
pub mod tracker;

pub use tracker::TimeTracer;
