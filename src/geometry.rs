//! Orientation of a picture and the choice of the size it is converted to.

use vstd::prelude::*;

verus! {

/// Default target width of a portrait picture.
pub const PORTRAIT_WIDTH: u32 = 240;

/// Default target height of a portrait picture.
pub const PORTRAIT_HEIGHT: u32 = 320;

/// Default target width of a landscape (or square) picture.
pub const LANDSCAPE_WIDTH: u32 = 320;

/// Default target height of a landscape (or square) picture.
pub const LANDSCAPE_HEIGHT: u32 = 240;

/// Whether a picture is taller than it is wide.
#[derive(Clone, Copy, Debug, PartialEq, Eq, Structural)]
pub enum Orientation {
    Portrait,
    Landscape,
}

/// The orientation of a `width` x `height` picture: portrait exactly when it is
/// strictly taller than wide, so a square counts as landscape.
pub open spec fn orientation_of(width: int, height: int) -> Orientation {
    if width < height {
        Orientation::Portrait
    } else {
        Orientation::Landscape
    }
}

/// The size a picture of the given orientation is converted to when the caller
/// asks for nothing else.
pub open spec fn default_size_of(o: Orientation) -> (u32, u32) {
    match o {
        Orientation::Portrait => (PORTRAIT_WIDTH, PORTRAIT_HEIGHT),
        Orientation::Landscape => (LANDSCAPE_WIDTH, LANDSCAPE_HEIGHT),
    }
}

/// The name of an orientation.
pub open spec fn orientation_name(o: Orientation) -> Seq<char> {
    match o {
        Orientation::Portrait => "Portrait"@,
        Orientation::Landscape => "Landscape"@,
    }
}

impl Orientation {
    /// Classifies a picture by its `(width, height)`.
    pub fn from_dimensions(dimensions: (u32, u32)) -> (r: Orientation)
        ensures
            r == orientation_of(dimensions.0 as int, dimensions.1 as int),
    {
        let (width, height) = dimensions;
        if width < height {
            Orientation::Portrait
        } else {
            Orientation::Landscape
        }
    }

    /// The default target size for this orientation.
    pub fn default_dimensions(&self) -> (r: (u32, u32))
        ensures
            r == default_size_of(*self),
    {
        match self {
            Orientation::Portrait => (PORTRAIT_WIDTH, PORTRAIT_HEIGHT),
            Orientation::Landscape => (LANDSCAPE_WIDTH, LANDSCAPE_HEIGHT),
        }
    }

    /// The name of the orientation as it appears in a generated header.
    pub fn name(&self) -> (r: &'static str)
        ensures
            r@ == orientation_name(*self),
    {
        match self {
            Orientation::Portrait => "Portrait",
            Orientation::Landscape => "Landscape",
        }
    }
}

/// What to do with a source picture: the orientation it was classified as, the
/// size to convert it to, and whether to resample it at all.
#[derive(Clone, Copy, Debug, PartialEq, Eq, Structural)]
pub struct ResizePlan {
    pub orientation: Orientation,
    pub width: u32,
    pub height: u32,
    pub resize: bool,
}

/// The plan for a `source_width` x `source_height` picture when the caller
/// asked for `requested_width` and `requested_height`: each requested side
/// replaces the orientation's default for that side, and the picture is
/// resampled only when at least one side was requested. A picture for which
/// nothing was requested keeps its own size, however large it is.
pub open spec fn plan_of(
    source_width: int,
    source_height: int,
    requested_width: Option<u32>,
    requested_height: Option<u32>,
) -> ResizePlan {
    let o = orientation_of(source_width, source_height);
    let d = default_size_of(o);
    ResizePlan {
        orientation: o,
        width: match requested_width {
            Some(w) => w,
            None => d.0,
        },
        height: match requested_height {
            Some(h) => h,
            None => d.1,
        },
        resize: requested_width is Some || requested_height is Some,
    }
}

/// Chooses the target size of a `source_width` x `source_height` picture.
pub fn resolve(
    source_width: u32,
    source_height: u32,
    requested_width: Option<u32>,
    requested_height: Option<u32>,
) -> (r: ResizePlan)
    ensures
        r == plan_of(source_width as int, source_height as int, requested_width, requested_height),
{
    let orientation = Orientation::from_dimensions((source_width, source_height));
    let (default_width, default_height) = orientation.default_dimensions();
    let width = match requested_width {
        Some(w) => w,
        None => default_width,
    };
    let height = match requested_height {
        Some(h) => h,
        None => default_height,
    };
    let resize = requested_width.is_some() || requested_height.is_some();
    ResizePlan { orientation, width, height, resize }
}

/// With nothing requested, a portrait picture gets 240 x 320 and any other
/// picture 320 x 240, and neither is resampled.
pub proof fn lemma_defaults_follow_orientation(source_width: u32, source_height: u32)
    ensures
        ({
            let p = plan_of(source_width as int, source_height as int, None, None);
            &&& source_width < source_height ==> p.width == 240 && p.height == 320
            &&& source_width >= source_height ==> p.width == 320 && p.height == 240
            &&& !p.resize
        }),
{
}

/// When exactly one side is requested, that side is taken as given, the other
/// side is the orientation's default, and the picture is resampled.
pub proof fn lemma_one_side_requested(
    source_width: u32,
    source_height: u32,
    requested_width: Option<u32>,
    requested_height: Option<u32>,
)
    requires
        requested_width is Some != requested_height is Some,
    ensures
        ({
            let p = plan_of(source_width as int, source_height as int, requested_width, requested_height);
            let d = default_size_of(orientation_of(source_width as int, source_height as int));
            &&& p.resize
            &&& requested_width is Some ==> p.width == requested_width->Some_0 && p.height == d.1
            &&& requested_height is Some ==> p.height == requested_height->Some_0 && p.width == d.0
        }),
{
}

} // verus!
