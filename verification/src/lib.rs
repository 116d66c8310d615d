//! Detection pipeline and temporal stabilization engine for a screen-captured
//! game window: axis-aligned box geometry with IoU, a decoder for a
//! fixed-layout detection tensor, per-class non-maximum suppression, a
//! region-of-interest filter around a single display box, a peak-hold
//! stabilizer that reports a marker count only when it rises, and the poll
//! state machine that drives one capture/decode/stabilize cycle per tick.
//!
//! All coordinates and confidences are fixed-point integers: a confidence or
//! threshold of `SCALE` stands for 1.0. The capture and inference providers
//! live outside this crate and hand in plain integer tensors.

pub mod decoder;
pub mod detection;
pub mod geometry;
pub mod nms;
pub mod pipeline;
pub mod poll;
pub mod region;
pub mod stabilizer;

pub use decoder::decode;
pub use decoder::DecodeError;
pub use detection::Detection;
pub use detection::FrameResult;
pub use geometry::BoundingBox;
pub use geometry::COORD_LIMIT;
pub use geometry::SCALE;
pub use pipeline::process_frame;
pub use pipeline::CycleOutcome;
pub use pipeline::DetectorConfig;
pub use pipeline::Signal;
pub use poll::poll_step;
pub use poll::set_enabled;
pub use poll::PollState;
pub use region::RegionOutcome;
pub use stabilizer::StabilizerState;
