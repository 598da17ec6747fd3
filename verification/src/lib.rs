//! Panel-side state, layout decisions and pixel arithmetic for a Kimpanel
//! candidate bar.

pub mod kimpanel;
pub mod model;
pub mod niri;
pub mod pager;
pub mod preview;
pub mod render;
