//! Helper utilities.

pub mod bitmap;
pub mod error;
pub mod text;

pub use bitmap::{Bitmap, BitmapIter};
pub use error::SummersetError;
