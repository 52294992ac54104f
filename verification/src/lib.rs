//! Frame-orchestration core of a side-scrolling reflex game.
//!
//! The library covers three things: the `Drawable` contract shared by all
//! on-screen layers, the scrolling-tile placement algorithm used by
//! background-style layers, and the fixed-cadence game loop that sequences
//! input handling, per-layer draw+update, frame presentation, and post-frame
//! gameplay checks.
//!
//! All geometry lives in a fixed logical coordinate space of [-1, 1] on both
//! axes, held here in signed fixed-point "nano-units": `units::SCALE`
//! nano-units make one logical unit. Speeds are nano-units per microsecond,
//! durations are microseconds.

pub mod background;
pub mod drawable;
pub mod frame;
pub mod game_loop;
pub mod layer;
pub mod units;
