//! Transformation specs: what a request asks the image engine to do.

use vstd::prelude::*;

verus! {

/// How a resize samples the source image.
#[derive(Clone, Copy, Debug, PartialEq, Eq, Structural)]
pub enum SampleFilter {
    Undefined,
    Nearest,
    Triangle,
    CatmullRom,
    Gaussian,
    Lanczos3,
}

/// How a resize reaches the target size.
#[derive(Clone, Copy, Debug, PartialEq, Eq, Structural)]
pub enum ResizeMode {
    Normal,
    SeamCarve,
}

/// The colour filters that the engine knows.
#[derive(Clone, Copy, Debug, PartialEq, Eq, Structural)]
pub enum FilterKind {
    Unspecified,
    Oceanic,
    Islands,
    Marine,
}

/// One image operation with its own parameters.
#[derive(Clone, Copy, Debug, PartialEq, Eq, Structural)]
pub enum TransformStep {
    /// Scale to `width` by `height` pixels.
    Resize { width: u32, height: u32, mode: ResizeMode, sampling: SampleFilter },
    /// Keep the rectangle from (`x1`, `y1`) to (`x2`, `y2`).
    Crop { x1: u32, y1: u32, x2: u32, y2: u32 },
    /// Mirror left to right.
    FlipHorizontal,
    /// Mirror top to bottom.
    FlipVertical,
    /// Change the contrast by the level whose bits, as a 32-bit float,
    /// `level_bits` holds.
    Contrast { level_bits: u32 },
    /// Apply a colour filter.
    Filter { kind: FilterKind },
    /// Put the watermark at (`x`, `y`).
    Watermark { x: u32, y: u32 },
}

impl TransformStep {
    /// An ordinary resize to `width` by `height` with the given sampling.
    pub fn resize(width: u32, height: u32, sampling: SampleFilter) -> (step: TransformStep)
        ensures
            step == (TransformStep::Resize { width, height, mode: ResizeMode::Normal, sampling }),
    {
        TransformStep::Resize { width, height, mode: ResizeMode::Normal, sampling }
    }
}

/// An ordered list of transformation steps, applied first to last.
#[derive(Clone, Debug, PartialEq, Eq)]
pub struct TransformSpec {
    steps: Vec<TransformStep>,
}

impl View for TransformSpec {
    type V = Seq<TransformStep>;

    closed spec fn view(&self) -> Seq<TransformStep> {
        self.steps@
    }
}

impl TransformSpec {
    /// The spec that applies `steps` in their order.
    pub fn new(steps: Vec<TransformStep>) -> (spec: TransformSpec)
        ensures
            spec@ == steps@,
    {
        TransformSpec { steps }
    }

    /// The number of steps.
    pub fn len(&self) -> (n: usize)
        ensures
            n == self@.len(),
    {
        self.steps.len()
    }

    /// The steps, in the order in which they are applied.
    pub fn steps(&self) -> (steps: &Vec<TransformStep>)
        ensures
            steps@ == self@,
    {
        &self.steps
    }

    /// Gives up the steps, in the order in which they are applied.
    pub fn into_steps(self) -> (steps: Vec<TransformStep>)
        ensures
            steps@ == self@,
    {
        self.steps
    }
}

/// The container and quality of an encoded image.
#[derive(Clone, Copy, Debug, PartialEq, Eq, Structural)]
pub enum OutputFormat {
    /// JPEG at the given quality, 1 to 100.
    Jpeg { quality: u8 },
}

/// The quality at which responses are encoded.
pub const OUTPUT_QUALITY: u8 = 85;

/// The format of every response: JPEG at the fixed quality.
pub open spec fn output_format() -> OutputFormat {
    OutputFormat::Jpeg { quality: OUTPUT_QUALITY }
}

impl OutputFormat {
    /// The format of every response.
    pub fn fixed() -> (format: OutputFormat)
        ensures
            format == output_format(),
    {
        OutputFormat::Jpeg { quality: OUTPUT_QUALITY }
    }

    /// The value of the `content-type` header for this format.
    pub fn content_type(&self) -> (name: &'static str)
        ensures
            name@ == content_type_of(*self),
    {
        match self {
            OutputFormat::Jpeg { .. } => "image/jpeg",
        }
    }
}

/// The media type of a format.
pub open spec fn content_type_of(format: OutputFormat) -> Seq<char> {
    match format {
        OutputFormat::Jpeg { .. } => "image/jpeg"@,
    }
}

} // verus!
