//! An in-memory model of layered, multi-channel images and their typed
//! attributes, with the conversions between attribute values and the
//! dynamically typed values of a host's dictionaries.
pub mod attribute_map;
pub mod attributes;
pub mod composite;
pub mod defaults;
pub mod error;
pub mod host;
pub mod image;
pub mod layer;
pub mod names;
pub mod order;
pub mod registry;
pub mod value;

pub use attribute_map::AttributeMap;
pub use attributes::{
    attributes_from_image, attributes_from_layer, image_attributes_from_attributes,
    layer_attributes_from_attributes, ImageAttributes, LayerAttributes,
};
pub use error::ImageError;
pub use host::{attributes_from_pydict, from_python, pydict_from_attributes, to_python};
pub use image::{CodecImage, ExrImage};
pub use layer::{Channel, CodecLayer, DecodedLayer, ExrLayer};
pub use registry::{AttributeCodecRegistry, AttributeKind, AttributeValueHandler};
pub use value::{AttributeValue, Chromaticities, HostValue, IntegerBounds, TimeCode};
