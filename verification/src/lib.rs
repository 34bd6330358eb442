//! The computational core of a minimal image viewer: choosing an integer
//! downscale factor that fits an image on a screen, and expanding packed
//! three-channel pixels into the four-channel layout of a backbuffer.

pub mod convert;
pub mod error;
pub mod event;
pub mod extent;
pub mod layout;
pub mod scale;

pub use convert::{check_pixel_layout, convert, fill_backbuffer};
pub use error::ViewError;
pub use event::{handle_event, Action, ControlState, Step, ViewerEvent};
pub use extent::Extent;
pub use layout::{plan_layout, Layout};
pub use scale::{calc_scale, scaled_extent, uniform_scale, usable_extent};
