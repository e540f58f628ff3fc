//! Errors of thinning and edge detection.
use vstd::prelude::*;

verus! {

/// Error of edge thinning and edge detection.
#[derive(Clone, Copy, Debug, PartialEq, Eq, Structural)]
pub enum SkeletonizeError {
    /// The image could not be viewed as single-channel 8-bit.
    LumaConversion(LumaConversionErrorKind),
    /// Thinning used up its pass budget without reaching a fixed point.
    MaxThinningIterations,
}

/// Where a single-channel 8-bit view of an image could not be had.
#[derive(Clone, Copy, Debug, PartialEq, Eq, Structural)]
pub enum LumaConversionErrorKind {
    /// Reading the image in edge thinning.
    ImageThinningLuma,
    /// Reading a gradient image in edge detection.
    SobelLuma,
    /// Writing the result image in edge detection.
    SobelMutableLuma,
    /// Writing the image in thresholding.
    ThresholdMutableLuma,
}

impl LumaConversionErrorKind {
    /// The human-readable message of this error.
    pub fn message(&self) -> (r: &'static str)
        ensures
            r@ == self.spec_message(),
    {
        match self {
            LumaConversionErrorKind::ImageThinningLuma => {
                "Could not create a grayscale image in image thinning"
            },
            LumaConversionErrorKind::SobelLuma => {
                "Could not create a grayscale image in edge detection"
            },
            LumaConversionErrorKind::SobelMutableLuma => {
                "Could not create a mutable grayscale image view in edge detection"
            },
            LumaConversionErrorKind::ThresholdMutableLuma => {
                "Could not create a mutable grayscale image view for thresholding"
            },
        }
    }

    /// The message text of each kind.
    pub open spec fn spec_message(&self) -> Seq<char> {
        match self {
            LumaConversionErrorKind::ImageThinningLuma => {
                "Could not create a grayscale image in image thinning"@
            },
            LumaConversionErrorKind::SobelLuma => {
                "Could not create a grayscale image in edge detection"@
            },
            LumaConversionErrorKind::SobelMutableLuma => {
                "Could not create a mutable grayscale image view in edge detection"@
            },
            LumaConversionErrorKind::ThresholdMutableLuma => {
                "Could not create a mutable grayscale image view for thresholding"@
            },
        }
    }
}

impl SkeletonizeError {
    /// The human-readable message of this error.
    pub fn message(&self) -> (r: &'static str)
        ensures
            r@ == self.spec_message(),
    {
        match self {
            SkeletonizeError::LumaConversion(kind) => kind.message(),
            SkeletonizeError::MaxThinningIterations => {
                "Maximum iteration count reached in thinning algorithm"
            },
        }
    }

    /// The message text of each error.
    pub open spec fn spec_message(&self) -> Seq<char> {
        match self {
            SkeletonizeError::LumaConversion(kind) => kind.spec_message(),
            SkeletonizeError::MaxThinningIterations => {
                "Maximum iteration count reached in thinning algorithm"@
            },
        }
    }
}

} // verus!
