use exrio::{Channel, DecodedLayer, ExrImage, ExrLayer, HostValue, ImageError, LayerAttributes};

fn bits(v: &[f32]) -> Vec<u32> {
    v.iter().map(|x| x.to_bits()).collect()
}

fn sized_layer(name: &str, width: usize, height: usize) -> ExrLayer {
    let mut layer = ExrLayer::new(Some(name.to_string()));
    layer.with_width(width);
    layer.with_height(height);
    layer
}

#[test]
fn channel_needs_dimensions() {
    let mut layer = ExrLayer::new(None);
    assert_eq!(layer.with_channel_f32("R".to_string(), vec![0]), Err(ImageError::DimensionsNotSet));
    layer.with_width(2);
    assert_eq!(layer.with_channel_f32("R".to_string(), vec![0, 0]), Err(ImageError::DimensionsNotSet));
    assert!(layer.channels().is_empty());
}

#[test]
fn pixel_count_is_checked() {
    let mut layer = sized_layer("beauty", 4, 3);
    let eleven = bits(&[0.5; 11]);
    assert_eq!(
        layer.with_channel_f32("R".to_string(), eleven),
        Err(ImageError::PixelCountMismatch { expected: 12, actual: 11 })
    );
    assert!(layer.channels().is_empty());
    let twelve = bits(&[0.5; 12]);
    assert_eq!(layer.with_channel_f32("R".to_string(), twelve.clone()), Ok(()));
    assert_eq!(layer.channels(), vec!["R".to_string()]);
    assert_eq!(layer.pixels_f32(), Some(vec![twelve]));
}

#[test]
fn overflowing_grid_reports_saturated_count() {
    let mut layer = sized_layer("huge", usize::MAX, 2);
    assert_eq!(
        layer.with_channel_f32("R".to_string(), vec![1, 2]),
        Err(ImageError::PixelCountMismatch { expected: usize::MAX, actual: 2 })
    );
}

#[test]
fn repeated_channel_names_are_kept() {
    let mut layer = sized_layer("l", 1, 1);
    layer.with_channel_f32("A".to_string(), vec![1]).unwrap();
    layer.with_channel_f32("A".to_string(), vec![2]).unwrap();
    assert_eq!(layer.channels(), vec!["A".to_string(), "A".to_string()]);
}

#[test]
fn no_pixels_without_channels() {
    let layer = sized_layer("l", 1, 1);
    assert_eq!(layer.pixels_f32(), None);
    assert_eq!(layer.name(), Some("l".to_string()));
    assert_eq!(layer.width(), Some(1));
    assert_eq!(layer.height(), Some(1));
}

#[test]
fn channels_are_sorted_for_export() {
    let mut layer = sized_layer("beauty", 1, 2);
    layer.with_channel_f32("B".to_string(), vec![1, 2]).unwrap();
    layer.with_channel_f32("R".to_string(), vec![3, 4]).unwrap();
    layer.with_channel_f32("G".to_string(), vec![5, 6]).unwrap();
    let codec = layer.to_codec_layer().unwrap();
    let names: Vec<&str> = codec.channels.iter().map(|c| c.name.as_str()).collect();
    assert_eq!(names, vec!["B", "G", "R"]);
    assert_eq!(codec.channels[1].samples, vec![5, 6]);
    assert_eq!(codec.width, 1);
    assert_eq!(codec.height, 2);
    assert_eq!(codec.attributes.layer_name, Some("beauty".to_string()));
    assert_eq!(layer.channels(), vec!["B".to_string(), "R".to_string(), "G".to_string()]);
}

#[test]
fn sort_orders_by_character_code() {
    let mut layer = sized_layer("l", 1, 1);
    for name in ["b", "B", "a.R", "A", "aa", "a"] {
        layer.with_channel_f32(name.to_string(), vec![0]).unwrap();
    }
    let codec = layer.to_codec_layer().unwrap();
    let names: Vec<&str> = codec.channels.iter().map(|c| c.name.as_str()).collect();
    assert_eq!(names, vec!["A", "B", "a", "a.R", "aa", "b"]);
}

#[test]
fn incomplete_layers_are_refused() {
    let layer = ExrLayer::new(Some("x".to_string()));
    assert!(matches!(layer.to_codec_layer(), Err(ImageError::IncompleteLayer)));
    let sized = sized_layer("x", 2, 2);
    assert!(matches!(sized.to_codec_layer(), Err(ImageError::IncompleteLayer)));
    let mut shrunk = sized_layer("x", 2, 2);
    shrunk.with_channel_f32("R".to_string(), vec![0; 4]).unwrap();
    shrunk.with_width(3);
    assert!(matches!(shrunk.to_codec_layer(), Err(ImageError::IncompleteLayer)));
}

#[test]
fn layer_attributes_merge_and_export() {
    let mut layer = sized_layer("beauty", 1, 1);
    layer.with_channel_f32("Y".to_string(), vec![0]).unwrap();
    let first = vec![
        ("owner".to_string(), HostValue::Text("studio".to_string())),
        ("utc_offset".to_string(), HostValue::Float(3600.0f32.to_bits())),
        ("note".to_string(), HostValue::Text("keep".to_string())),
    ];
    layer.with_attributes(&first).unwrap();
    let second = vec![("note".to_string(), HostValue::Text("replaced".to_string()))];
    layer.with_attributes(&second).unwrap();
    let codec = layer.to_codec_layer().unwrap();
    assert_eq!(codec.attributes.owner, Some("studio".to_string()));
    assert_eq!(codec.attributes.utc_offset, Some(3600.0f32.to_bits()));
    assert_eq!(codec.attributes.screen_window_width, 1.0f32.to_bits());
    assert_eq!(codec.attributes.layer_name, Some("beauty".to_string()));
    assert_eq!(
        codec.attributes.other.get("note").cloned(),
        Some(exrio::AttributeValue::Text("replaced".to_string()))
    );
    let dict = layer.attributes().unwrap();
    assert_eq!(dict.len(), 3);
    assert!(dict.contains(&("owner".to_string(), HostValue::Text("studio".to_string()))));
}

#[test]
fn layer_name_comes_from_the_map_when_unnamed() {
    let mut layer = ExrLayer::new(None);
    layer.with_width(1);
    layer.with_height(1);
    layer.with_channel_f32("Y".to_string(), vec![0]).unwrap();
    layer.with_attributes(&vec![("layer_name".to_string(), HostValue::Text("diffuse".to_string()))]).unwrap();
    let codec = layer.to_codec_layer().unwrap();
    assert_eq!(codec.attributes.layer_name, Some("diffuse".to_string()));
}

#[test]
fn failed_attribute_read_leaves_layer_unchanged() {
    let mut layer = ExrLayer::new(None);
    let dict = vec![
        ("note".to_string(), HostValue::Text("a".to_string())),
        ("owner".to_string(), HostValue::Float(1)),
    ];
    let err = layer.with_attributes(&dict).unwrap_err();
    assert_eq!(
        err,
        ImageError::UnsupportedAttributeKind { name: "owner".to_string(), tried: vec!["text".to_string()] }
    );
    assert_eq!(layer.attributes().unwrap(), vec![]);
}

#[test]
fn decoded_layers_become_layers() {
    let mut attributes = LayerAttributes::new();
    attributes.layer_name = Some("spec".to_string());
    let decoded = DecodedLayer {
        width: 2,
        height: 1,
        channels: vec![
            Channel { name: "G".to_string(), samples: vec![1, 2] },
            Channel { name: "B".to_string(), samples: vec![3, 4] },
        ],
        attributes,
    };
    let image = ExrImage::from_decoded(exrio::ImageAttributes::new(exrio::IntegerBounds { position: (0, 0), size: (2, 1) }), vec![decoded]);
    let layer = &image.layers()[0];
    assert_eq!(layer.name(), Some("spec".to_string()));
    assert_eq!(layer.channels(), vec!["G".to_string(), "B".to_string()]);
    assert_eq!(layer.pixels_f32(), Some(vec![vec![1, 2], vec![3, 4]]));
    let dict = layer.attributes().unwrap();
    assert!(dict.contains(&("layer_name".to_string(), HostValue::Text("spec".to_string()))));
    assert!(dict.contains(&("screen_window_width".to_string(), HostValue::Float(1.0f32.to_bits()))));
}

#[test]
fn equal_names_keep_their_order_on_export() {
    let mut layer = sized_layer("l", 1, 1);
    layer.with_channel_f32("G".to_string(), vec![1]).unwrap();
    layer.with_channel_f32("A".to_string(), vec![2]).unwrap();
    layer.with_channel_f32("G".to_string(), vec![3]).unwrap();
    layer.with_channel_f32("A".to_string(), vec![4]).unwrap();
    let codec = layer.to_codec_layer().unwrap();
    let got: Vec<(&str, u32)> = codec.channels.iter().map(|c| (c.name.as_str(), c.samples[0])).collect();
    assert_eq!(got, vec![("A", 2), ("A", 4), ("G", 1), ("G", 3)]);
}
