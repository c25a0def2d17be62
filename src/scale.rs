use vstd::prelude::*;
use crate::color::{Color, clear, clear_color};

verus! {

/// How an image whose aspect ratio differs from the display's is fitted.
#[derive(Clone, Copy, Debug, PartialEq, Eq, Structural)]
pub enum Scale {
    Auto,
    Fill,
    Fit,
    Stretch,
    Center,
}

/// The desktop service's image scaling modes that the scales use.
#[derive(Clone, Copy, Debug, PartialEq, Eq, Structural)]
pub enum ImageScaling {
    ProportionallyUpOrDown,
    AxesIndependently,
}

/// Options handed to the desktop service with an image; `None` leaves the
/// service's default in place.
#[derive(Clone, Copy, Debug, PartialEq, Eq, Structural)]
pub struct DesktopImageOptions {
    pub scaling: Option<ImageScaling>,
    pub allow_clipping: Option<bool>,
    pub fill_color: Option<Color>,
}

pub open spec fn no_options() -> DesktopImageOptions {
    DesktopImageOptions { scaling: None, allow_clipping: None, fill_color: None }
}

/// The scaling mode and clipping flag of each scale.
pub open spec fn scale_settings(scale: Scale) -> (Option<ImageScaling>, Option<bool>) {
    match scale {
        Scale::Auto => (None, None),
        Scale::Fill => (Some(ImageScaling::ProportionallyUpOrDown), Some(true)),
        Scale::Fit => (Some(ImageScaling::ProportionallyUpOrDown), Some(false)),
        Scale::Stretch => (Some(ImageScaling::AxesIndependently), Some(true)),
        Scale::Center => (Some(ImageScaling::ProportionallyUpOrDown), Some(false)),
    }
}

/// The options of an image assignment: the scale's settings, and the fill
/// color, transparent unless one is given.
pub open spec fn image_options(scale: Scale, fill_color: Option<Color>) -> DesktopImageOptions {
    DesktopImageOptions {
        scaling: scale_settings(scale).0,
        allow_clipping: scale_settings(scale).1,
        fill_color: Some(
            match fill_color {
                Some(c) => c,
                None => clear_color(),
            },
        ),
    }
}

impl DesktopImageOptions {
    /// Options that set nothing.
    pub fn empty() -> (r: DesktopImageOptions)
        ensures
            r == no_options(),
    {
        DesktopImageOptions { scaling: None, allow_clipping: None, fill_color: None }
    }
}

impl Scale {
    pub fn options(self, fill_color: Option<Color>) -> (r: DesktopImageOptions)
        ensures
            r == image_options(self, fill_color),
    {
        let (scaling, allow_clipping) = match self {
            Scale::Auto => (None, None),
            Scale::Fill => (Some(ImageScaling::ProportionallyUpOrDown), Some(true)),
            Scale::Fit => (Some(ImageScaling::ProportionallyUpOrDown), Some(false)),
            Scale::Stretch => (Some(ImageScaling::AxesIndependently), Some(true)),
            Scale::Center => (Some(ImageScaling::ProportionallyUpOrDown), Some(false)),
        };
        let fill = match fill_color {
            Some(c) => c,
            None => clear(),
        };
        DesktopImageOptions { scaling, allow_clipping, fill_color: Some(fill) }
    }
}

} // verus!
