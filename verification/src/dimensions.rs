//! Width/height pair extracted from embedded media metadata.

use vstd::prelude::*;

verus! {

/// A width and height in pixels.
#[derive(Clone, Copy, PartialEq, Eq, Structural, Debug)]
pub struct Dimensions {
    pub width: i32,
    pub height: i32,
}

impl Dimensions {
    /// Creates a new width and height container.
    pub fn new(width: i32, height: i32) -> (r: Self)
        ensures
            r.width == width,
            r.height == height,
    {
        Self { width, height }
    }

    /// Selects dimensions from tag values read out of embedded metadata:
    /// the pixel-dimension tag wins; failing that, the resolution tag;
    /// failing both, zero.
    pub fn from_tags(
        pixel_x: Option<i32>,
        x_resolution: Option<i32>,
        pixel_y: Option<i32>,
        y_resolution: Option<i32>,
    ) -> (r: Self)
        ensures
            r.width == match pixel_x {
                Option::Some(w) => w,
                Option::None => match x_resolution {
                    Option::Some(w) => w,
                    Option::None => 0,
                },
            },
            r.height == match pixel_y {
                Option::Some(h) => h,
                Option::None => match y_resolution {
                    Option::Some(h) => h,
                    Option::None => 0,
                },
            },
    {
        let width: i32 = match pixel_x {
            Some(w) => w,
            None => match x_resolution {
                Some(w) => w,
                None => 0,
            },
        };
        let height: i32 = match pixel_y {
            Some(h) => h,
            None => match y_resolution {
                Some(h) => h,
                None => 0,
            },
        };
        Self { width, height }
    }
}

impl Default for Dimensions {
    /// The zero-by-zero dimensions.
    fn default() -> (r: Self)
        ensures
            r.width == 0,
            r.height == 0,
    {
        Self { width: 0, height: 0 }
    }
}

} // verus!
