use vstd::prelude::*;

verus! {

/// Why an operation of the image model failed.
#[derive(Clone, Debug, PartialEq)]
pub enum ImageError {
    /// A channel was added to a layer whose width or height is not set.
    DimensionsNotSet,
    /// A channel's samples do not cover the layer's grid.
    PixelCountMismatch { expected: usize, actual: usize },
    /// A layer lacks its width, its height or complete sample buffers.
    IncompleteLayer,
    /// An image without layers cannot be written.
    EmptyImage,
    /// No handler takes the value stored under `name`; `tried` lists the kinds
    /// of the handlers that were asked, in order.
    UnsupportedAttributeKind { name: String, tried: Vec<String> },
    /// The composite text stored under `name` does not hold `expected_fields`
    /// numbers joined by `-`.
    MalformedCompositeAttribute { name: String, expected_fields: usize },
    /// The codec could not read the image.
    CodecReadError(String),
    /// The codec could not write the image.
    CodecWriteError(String),
    /// The layer at `index` of an image, named `name` if it has a name, is
    /// incomplete, so the image cannot be written.
    IncompleteLayerAt { index: usize, name: Option<String> },
}

} // verus!
