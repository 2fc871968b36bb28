//! Logic of a desk clock with a binary-coded-decimal face: keeping the time of
//! day, reading the push button, choosing what the screen shows, laying out the
//! clock faces, and synchronising the time over the network.

pub mod time;
pub mod button;
pub mod tz_name;
pub mod text;
pub mod time_sync;
pub mod ui;
pub mod display;
pub mod ui_bcd;
pub mod ui_arc;
pub mod clock;
