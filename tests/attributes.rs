use exrio::composite::{decode_bounds, encode_bounds};
use exrio::defaults::{chromaticities_or_init, time_code_or_init};
use exrio::names::Primary;
use exrio::{
    attributes_from_image, attributes_from_pydict, from_python, image_attributes_from_attributes,
    pydict_from_attributes, to_python, AttributeCodecRegistry, AttributeKind, AttributeMap, AttributeValue,
    ExrImage, ExrLayer, HostValue, ImageAttributes, ImageError, IntegerBounds,
};

fn all_kinds() -> Vec<String> {
    vec!["f32".to_string(), "i32".to_string(), "text".to_string(), "integer_bounds".to_string()]
}

#[test]
fn unknown_text_passes_through() {
    let host = to_python("custom_note", &AttributeValue::Text("hello".to_string())).unwrap();
    assert_eq!(host, HostValue::Text("hello".to_string()));
    let back = from_python("custom_note", &host).unwrap();
    assert_eq!(back, AttributeValue::Text("hello".to_string()));
}

#[test]
fn bounds_round_trip() {
    let b = IntegerBounds { position: (5, -3), size: (10, 20) };
    assert_eq!(encode_bounds(&b), "5--3-10-20");
    let host = to_python("display_window", &AttributeValue::IntegerBounds(b)).unwrap();
    assert_eq!(host, HostValue::Text("5--3-10-20".to_string()));
    assert_eq!(from_python("display_window", &host), Ok(AttributeValue::IntegerBounds(b)));
    assert_eq!(decode_bounds("5--3-10-20"), Some(b));
}

#[test]
fn bounds_with_three_fields_are_malformed() {
    assert_eq!(decode_bounds("1-2-3"), None);
    assert_eq!(
        from_python("display_window", &HostValue::Text("1-2-3".to_string())),
        Err(ImageError::MalformedCompositeAttribute { name: "display_window".to_string(), expected_fields: 4 })
    );
}

#[test]
fn bounds_text_edge_cases() {
    let b = IntegerBounds { position: (i32::MIN, i32::MAX), size: (0, u32::MAX) };
    let text = encode_bounds(&b);
    assert_eq!(text, "-2147483648-2147483647-0-4294967295");
    assert_eq!(decode_bounds(&text), Some(b));
    assert_eq!(decode_bounds("007-0-1-2"), Some(IntegerBounds { position: (7, 0), size: (1, 2) }));
    assert_eq!(decode_bounds("1-2-3-4-5"), None);
    assert_eq!(decode_bounds("1-2--3-4"), None);
    assert_eq!(decode_bounds("2147483648-0-0-0"), None);
    assert_eq!(decode_bounds("0-0-4294967296-0"), None);
    assert_eq!(decode_bounds("a-b-c-d"), None);
    assert_eq!(decode_bounds(""), None);
}

#[test]
fn registry_order_decides_between_text_and_bounds() {
    assert_eq!(
        from_python("custom", &HostValue::Text("1-2-3-4".to_string())),
        Ok(AttributeValue::Text("1-2-3-4".to_string()))
    );
    let mut bounds_first = AttributeCodecRegistry::new();
    bounds_first.register(AttributeKind::IntegerBounds);
    bounds_first.register(AttributeKind::Text);
    assert_eq!(
        bounds_first.decode("custom", &HostValue::Text("1-2-3-4".to_string())),
        Ok(AttributeValue::IntegerBounds(IntegerBounds { position: (1, 2), size: (3, 4) }))
    );
    assert_eq!(
        bounds_first.decode("custom", &HostValue::Text("1-2-3".to_string())),
        Ok(AttributeValue::Text("1-2-3".to_string()))
    );
}

#[test]
fn numbers_from_the_host() {
    assert_eq!(from_python("n", &HostValue::Int(5)), Ok(AttributeValue::Int32(5)));
    assert_eq!(from_python("n", &HostValue::Int(-7)), Ok(AttributeValue::Int32(-7)));
    assert_eq!(
        from_python("big", &HostValue::Int(1 << 40)),
        Ok(AttributeValue::Text("1099511627776".to_string()))
    );
    assert_eq!(
        from_python("small", &HostValue::Int(i64::MIN)),
        Ok(AttributeValue::Text("-9223372036854775808".to_string()))
    );
    assert_eq!(from_python("f", &HostValue::Float(1.5f32.to_bits())), Ok(AttributeValue::Float32(1.5f32.to_bits())));
    assert_eq!(from_python("o", &HostValue::Other("[1, 2]".to_string())), Ok(AttributeValue::Text("[1, 2]".to_string())));
    assert_eq!(to_python("n", &AttributeValue::Int32(-4)), Ok(HostValue::Int(-4)));
}

#[test]
fn empty_registry_keeps_values() {
    let registry = AttributeCodecRegistry::new();
    assert_eq!(registry.decode("x", &HostValue::Float(7)), Ok(AttributeValue::Float32(7)));
    assert_eq!(registry.decode("x", &HostValue::Int(12)), Ok(AttributeValue::Text("12".to_string())));
    assert_eq!(
        registry.encode("x", &AttributeValue::Int32(1)),
        Err(ImageError::UnsupportedAttributeKind { name: "x".to_string(), tried: vec![] })
    );
}

#[test]
fn unsupported_kinds_name_every_handler() {
    assert_eq!(
        to_python("gamma", &AttributeValue::Float64(2.2f64.to_bits())),
        Err(ImageError::UnsupportedAttributeKind { name: "gamma".to_string(), tried: all_kinds() })
    );
    let other = AttributeValue::Other { kind: "preview".to_string(), bytes: vec![1, 2, 3] };
    assert_eq!(
        to_python("thumb", &other),
        Err(ImageError::UnsupportedAttributeKind { name: "thumb".to_string(), tried: all_kinds() })
    );
    assert_eq!(AttributeCodecRegistry::standard().kind_names(), all_kinds());
}

#[test]
fn known_names_take_their_own_kind_only() {
    assert_eq!(
        from_python("pixel_aspect_ratio", &HostValue::Text("wide".to_string())),
        Err(ImageError::UnsupportedAttributeKind { name: "pixel_aspect_ratio".to_string(), tried: vec!["f32".to_string()] })
    );
    assert_eq!(
        from_python("display_window", &HostValue::Int(3)),
        Err(ImageError::UnsupportedAttributeKind { name: "display_window".to_string(), tried: vec!["integer_bounds".to_string()] })
    );
    assert_eq!(
        from_python("owner", &HostValue::Text("me".to_string())),
        Ok(AttributeValue::Text("me".to_string()))
    );
}

#[test]
fn later_writes_replace_earlier_ones() {
    let mut map = AttributeMap::new();
    map.insert("a".to_string(), AttributeValue::Int32(1));
    map.insert("b".to_string(), AttributeValue::Int32(2));
    map.insert("a".to_string(), AttributeValue::Int32(3));
    assert_eq!(map.len(), 2);
    assert_eq!(map.get("a"), Some(&AttributeValue::Int32(3)));
    assert_eq!(map.get("A"), None);
    assert!(map.contains_key("b"));
    let dict = pydict_from_attributes(&map).unwrap();
    assert_eq!(dict, vec![("a".to_string(), HostValue::Int(3)), ("b".to_string(), HostValue::Int(2))]);
    let back = attributes_from_pydict(&dict).unwrap();
    assert_eq!(back.get("a"), Some(&AttributeValue::Int32(3)));
}

#[test]
fn chromaticity_defaults_materialize() {
    let mut image = ExrImage::new();
    image
        .with_attributes(&vec![("chromaticities.red.0".to_string(), HostValue::Float(0.7f32.to_bits()))])
        .unwrap();
    let dict = image.attributes().unwrap();
    let find = |k: &str| dict.iter().find(|(n, _)| n == k).map(|(_, v)| v.clone());
    assert_eq!(find("chromaticities.white.0"), Some(HostValue::Float(0.3127f32.to_bits())));
    assert_eq!(find("chromaticities.red.0"), Some(HostValue::Float(0.7f32.to_bits())));
    assert_eq!(find("chromaticities.red.1"), Some(HostValue::Float(0.33f32.to_bits())));
    assert_eq!(find("chromaticities.blue.1"), Some(HostValue::Float(0.06f32.to_bits())));
}

#[test]
fn fresh_image_has_no_chromaticities() {
    let image = ExrImage::new();
    let dict = image.attributes().unwrap();
    assert_eq!(dict.len(), 2);
    assert!(dict.contains(&("display_window".to_string(), HostValue::Text("0-0-0-0".to_string()))));
    assert!(dict.contains(&("pixel_aspect_ratio".to_string(), HostValue::Float(1.0f32.to_bits()))));
}

#[test]
fn defaults_fill_empty_slots_only() {
    let mut slot = None;
    let c = chromaticities_or_init(&mut slot);
    assert_eq!(c.red, (0.64f32.to_bits(), 0.33f32.to_bits()));
    assert_eq!(c.green, (0.30f32.to_bits(), 0.60f32.to_bits()));
    assert_eq!(c.blue, (0.15f32.to_bits(), 0.06f32.to_bits()));
    assert_eq!(c.white, (0.3127f32.to_bits(), 0.3290f32.to_bits()));
    assert_eq!(slot, Some(c));
    let mut other = c;
    other.red.0 = 1;
    let mut held = Some(other);
    assert_eq!(chromaticities_or_init(&mut held), other);
    let mut t = None;
    let code = time_code_or_init(&mut t);
    assert_eq!((code.hours, code.minutes, code.seconds, code.frame), (0, 0, 0, 0));
    assert!(!code.drop_frame && !code.color_frame && !code.field_phase);
    assert_eq!(t, Some(code));
}

#[test]
fn set_chromaticity_keeps_other_coordinates() {
    let mut attributes = ImageAttributes::new(IntegerBounds { position: (0, 0), size: (1, 1) });
    attributes.set_chromaticity(Primary::Green, true, 9);
    let c = attributes.chromaticities.unwrap();
    assert_eq!(c.green, (0.30f32.to_bits(), 9));
    assert_eq!(c.red, (0.64f32.to_bits(), 0.33f32.to_bits()));
}

#[test]
fn image_attributes_merge() {
    let mut attributes = ImageAttributes::new(IntegerBounds { position: (0, 0), size: (0, 0) });
    let mut first = AttributeMap::new();
    first.insert("keep".to_string(), AttributeValue::Text("a".to_string()));
    image_attributes_from_attributes(&mut attributes, &first).unwrap();
    let mut second = AttributeMap::new();
    second.insert("pixel_aspect_ratio".to_string(), AttributeValue::Float32(2.0f32.to_bits()));
    second.insert("display_window".to_string(), AttributeValue::IntegerBounds(IntegerBounds { position: (1, 1), size: (4, 4) }));
    image_attributes_from_attributes(&mut attributes, &second).unwrap();
    assert_eq!(attributes.pixel_aspect, 2.0f32.to_bits());
    assert_eq!(attributes.display_window, IntegerBounds { position: (1, 1), size: (4, 4) });
    let map = attributes_from_image(&attributes);
    assert_eq!(map.get("keep"), Some(&AttributeValue::Text("a".to_string())));
    let mut bad = AttributeMap::new();
    bad.insert("display_window".to_string(), AttributeValue::Int32(0));
    assert_eq!(
        image_attributes_from_attributes(&mut attributes, &bad),
        Err(ImageError::UnsupportedAttributeKind { name: "display_window".to_string(), tried: vec!["integer_bounds".to_string()] })
    );
    assert_eq!(attributes.display_window, IntegerBounds { position: (1, 1), size: (4, 4) });
}

#[test]
fn empty_image_is_not_saved() {
    let image = ExrImage::new();
    assert!(matches!(image.prepare_save(), Err(ImageError::EmptyImage)));
}

#[test]
fn incomplete_layer_fails_the_save() {
    let mut image = ExrImage::new();
    let mut good = ExrLayer::new(Some("good".to_string()));
    good.with_width(1);
    good.with_height(1);
    good.with_channel_f32("Y".to_string(), vec![0]).unwrap();
    image.with_layer(good);
    image.with_layer(ExrLayer::new(Some("bad".to_string())));
    assert_eq!(
        image.prepare_save().err(),
        Some(ImageError::IncompleteLayerAt { index: 1, name: Some("bad".to_string()) })
    );
}

#[test]
fn display_window_follows_first_layer() {
    let mut image = ExrImage::new();
    image
        .with_attributes(&vec![("display_window".to_string(), HostValue::Text("2-3-100-100".to_string()))])
        .unwrap();
    let mut first = ExrLayer::new(Some("a".to_string()));
    first.with_width(4);
    first.with_height(3);
    first.with_channel_f32("R".to_string(), vec![0; 12]).unwrap();
    let mut second = ExrLayer::new(Some("b".to_string()));
    second.with_width(1);
    second.with_height(1);
    second.with_channel_f32("R".to_string(), vec![0]).unwrap();
    image.with_layer(first);
    image.with_layer(second);
    let saved = image.prepare_save().unwrap();
    assert_eq!(saved.attributes.display_window, IntegerBounds { position: (2, 3), size: (4, 3) });
    assert_eq!(saved.layers.len(), 2);
    assert_eq!(saved.layers[1].attributes.layer_name, Some("b".to_string()));
}

#[test]
fn save_then_load_keeps_layers() {
    let mut image = ExrImage::new();
    let mut layer = ExrLayer::new(Some("beauty".to_string()));
    layer.with_width(2);
    layer.with_height(1);
    layer.with_channel_f32("R".to_string(), vec![1.0f32.to_bits(), 2.0f32.to_bits()]).unwrap();
    layer.with_channel_f32("G".to_string(), vec![3.0f32.to_bits(), f32::NAN.to_bits()]).unwrap();
    image.with_layer(layer);
    let saved = image.prepare_save().unwrap();
    let decoded: Vec<exrio::DecodedLayer> = saved
        .layers
        .into_iter()
        .map(|l| exrio::DecodedLayer { width: l.width, height: l.height, channels: l.channels, attributes: l.attributes })
        .collect();
    let loaded = ExrImage::from_decoded(saved.attributes, decoded);
    let back = &loaded.layers()[0];
    assert_eq!(back.name(), Some("beauty".to_string()));
    assert_eq!(back.channels(), vec!["G".to_string(), "R".to_string()]);
    assert_eq!(
        back.pixels_f32(),
        Some(vec![vec![3.0f32.to_bits(), f32::NAN.to_bits()], vec![1.0f32.to_bits(), 2.0f32.to_bits()]])
    );
    assert_eq!(loaded.attribute_record().display_window, IntegerBounds { position: (0, 0), size: (2, 1) });
}

#[test]
fn time_code_defaults_materialize() {
    let mut image = ExrImage::new();
    image.with_attributes(&vec![("time_code.frame".to_string(), HostValue::Int(12))]).unwrap();
    let dict = image.attributes().unwrap();
    assert!(dict.contains(&("time_code.frame".to_string(), HostValue::Int(12))));
    assert!(dict.contains(&("time_code.hours".to_string(), HostValue::Int(0))));
    assert!(dict.contains(&("time_code.minutes".to_string(), HostValue::Int(0))));
    assert!(dict.contains(&("time_code.seconds".to_string(), HostValue::Int(0))));
    let t = image.attribute_record().time_code.unwrap();
    assert!(!t.drop_frame && t.binary_groups == (0, 0, 0, 0, 0, 0, 0, 0));
}

#[test]
fn time_code_numbers_must_fit_a_byte() {
    let mut image = ExrImage::new();
    assert_eq!(
        image.with_attributes(&vec![("time_code.hours".to_string(), HostValue::Int(300))]),
        Err(ImageError::UnsupportedAttributeKind { name: "time_code.hours".to_string(), tried: vec!["i32".to_string()] })
    );
    assert_eq!(image.attribute_record().time_code, None);
}
