use vstd::prelude::*;

verus! {

/// The imaging primitive that was running when a failure was reported.
#[derive(Debug, Clone, Copy, PartialEq, Eq, Structural)]
pub enum Stage {
    /// Area-averaging downsampling to the working size.
    Resize,
    /// Gaussian smoothing of the working image.
    Blur,
    /// Conversion of the smoothed image to luminance.
    Luminance,
    /// Directional derivative along one axis.
    Derivative,
    /// Conversion of the circular mean to a direction and its angle.
    Direction,
}

/// Why an extraction produced no result.
#[derive(Debug, Clone, Copy, PartialEq, Eq, Structural)]
pub enum GradientError {
    /// The reference to the image data cannot be interpreted.
    InvalidInput,
    /// The referenced data cannot be decoded as an image.
    Decode,
    /// The image has zero width or zero height.
    EmptyImage,
    /// An imaging primitive failed at the given stage.
    PrimitiveFailure(Stage),
}

impl Stage {
    /// The name of the stage as it appears in messages.
    pub open spec fn spec_name(self) -> Seq<char> {
        match self {
            Stage::Resize => "resize"@,
            Stage::Blur => "blur"@,
            Stage::Luminance => "luminance"@,
            Stage::Derivative => "derivative"@,
            Stage::Direction => "direction"@,
        }
    }

    /// The name of the stage as it appears in messages.
    pub fn name(&self) -> (s: &'static str)
        ensures
            s@ == self.spec_name(),
    {
        match self {
            Stage::Resize => "resize",
            Stage::Blur => "blur",
            Stage::Luminance => "luminance",
            Stage::Derivative => "derivative",
            Stage::Direction => "direction",
        }
    }
}

impl GradientError {
    /// The text of `message`.
    pub open spec fn spec_message(self) -> Seq<char> {
        match self {
            GradientError::InvalidInput => "image reference cannot be interpreted"@,
            GradientError::Decode => "image data cannot be decoded"@,
            GradientError::EmptyImage => "image has zero width or height"@,
            GradientError::PrimitiveFailure(stage) => "imaging primitive failed: "@
                + stage.spec_name(),
        }
    }

    /// A one-line description of the error, naming the stage of a primitive
    /// failure.
    pub fn message(&self) -> (s: String)
        ensures
            s@ == self.spec_message(),
    {
        match self {
            GradientError::InvalidInput => "image reference cannot be interpreted".to_owned(),
            GradientError::Decode => "image data cannot be decoded".to_owned(),
            GradientError::EmptyImage => "image has zero width or height".to_owned(),
            GradientError::PrimitiveFailure(stage) => {
                let mut s = "imaging primitive failed: ".to_owned();
                s.append(stage.name());
                s
            },
        }
    }
}

} // verus!
