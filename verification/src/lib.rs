//! Two-colour linear gradient extraction from a raster image.
//!
//! The crate holds the integer core of the extraction. It works on plain
//! integers throughout: pixel bytes, whole-number derivatives, and directions
//! and angles in millionths.
//!
//! - `geometry`: the size of the working image that an input is scaled to.
//! - `raster`: images, scalar fields and masks over a pixel grid.
//! - `estimator`: the strong-gradient pixels of a derivative field and the
//!   circular mean of their doubled angles.
//! - `axis`: the dominant axis, a unit direction with its compass angle.
//! - `direction`: the direction at half the angle of the circular mean, as
//!   the caller works it out, held against the mean.
//! - `projector`: the projection of the grid onto the axis and its two
//!   extreme bands.
//! - `sampler`: the mean colour under a mask, written as `#rrggbb`.
//! - `gradient`: the gradient of a smoothed image along its dominant axis.
//!
//! Decoding, resampling, blurring and differentiation are left to the
//! caller, and so is the trigonometry that turns the circular mean into a
//! direction and an angle. A caller sizes the working image with
//! `working_size`, hands the smoothed image and its derivatives over as an
//! `Image` and a `GradientField`, takes the `circular_mean`, works out the
//! `Direction` at half its angle, and calls `extract_gradient_hex`, which
//! holds that direction against the mean before it uses it.

pub mod axis;
pub mod direction;
pub mod error;
pub mod estimator;
pub mod geometry;
pub mod gradient;
pub mod projector;
pub mod raster;
pub mod sampler;

pub use error::{GradientError, Stage};
pub use geometry::{working_size, ImageSize, WorkingSize, WORKING_WIDTH};
pub use raster::{Color, Image, Mask, ScalarField};
pub use sampler::{sample_color, to_hex};
pub use estimator::{
    circular_mean, strong_gradient_mask, GradientField, MeanVector, MIN_STRONG_PIXELS,
};
pub use direction::{resolve_axis, Direction};
pub use axis::{compass_from_cartesian, DominantAxis, FULL_TURN, QUARTER_TURN, UNIT};
pub use projector::{extreme_bands, project};
pub use gradient::{extract_gradient_hex, gradient_along, GradientResult};
