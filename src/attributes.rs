use vstd::prelude::*;
use crate::attribute_map::AttributeMap;
use crate::defaults::{
    chromaticities_or_default, chromaticities_or_init, coordinate, set_coordinate, set_time_code_field,
    time_code_or_default, time_code_or_init, with_coordinate, with_time_code_field,
};
use crate::error::ImageError;
use crate::names::{classify_name, known_name, known_name_text, name_text, KnownName, Primary, TimeCodeField};
use crate::registry::{is_unsupported, kind_name, kind_of, kind_for, AttributeValueHandler};
use crate::value::{AttributeValue, Chromaticities, IntegerBounds, TimeCode, ValueModel};

verus! {

/// The attributes of one layer: those with dedicated storage, and the others
/// by name.
pub struct LayerAttributes {
    pub layer_name: Option<String>,
    pub owner: Option<String>,
    /// Binary32 bit pattern.
    pub screen_window_width: u32,
    /// Binary32 bit pattern.
    pub utc_offset: Option<u32>,
    pub other: AttributeMap,
}

/// What a layer's attribute record holds, with text as sequences.
pub struct LayerAttributesModel {
    pub layer_name: Option<Seq<char>>,
    pub owner: Option<Seq<char>>,
    pub screen_window_width: u32,
    pub utc_offset: Option<u32>,
    pub other: Map<Seq<char>, ValueModel>,
}

pub open spec fn text_view(t: Option<String>) -> Option<Seq<char>> {
    match t {
        Some(s) => Some(s@),
        None => None,
    }
}

impl View for LayerAttributes {
    type V = LayerAttributesModel;

    open spec fn view(&self) -> LayerAttributesModel {
        LayerAttributesModel {
            layer_name: text_view(self.layer_name),
            owner: text_view(self.owner),
            screen_window_width: self.screen_window_width,
            utc_offset: self.utc_offset,
            other: self.other@,
        }
    }
}

/// The screen window width that a layer has unless told otherwise: 1.0.
pub const DEFAULT_SCREEN_WINDOW_WIDTH: u32 = 0x3f800000;

/// The pixel aspect ratio that an image has unless told otherwise: 1.0.
pub const DEFAULT_PIXEL_ASPECT: u32 = 0x3f800000;

impl LayerAttributes {
    /// A record with no name, no owner, the default screen window width, no
    /// offset and no other attributes.
    pub fn new() -> (r: LayerAttributes)
        ensures
            r@ == (LayerAttributesModel {
                layer_name: None,
                owner: None,
                screen_window_width: DEFAULT_SCREEN_WINDOW_WIDTH,
                utc_offset: None,
                other: Map::empty(),
            }),
    {
        LayerAttributes {
            layer_name: None,
            owner: None,
            screen_window_width: DEFAULT_SCREEN_WINDOW_WIDTH,
            utc_offset: None,
            other: AttributeMap::new(),
        }
    }
}

/// The attribute map of a layer record: the other attributes, overridden by
/// those with dedicated storage that are set.
pub open spec fn layer_attribute_map(a: LayerAttributesModel) -> Map<Seq<char>, ValueModel> {
    let m = a.other.insert(
        known_name_text(KnownName::ScreenWindowWidth),
        ValueModel::Float32(a.screen_window_width),
    );
    let m = match a.utc_offset {
        Some(u) => m.insert(known_name_text(KnownName::UtcOffset), ValueModel::Float32(u)),
        None => m,
    };
    let m = match a.owner {
        Some(s) => m.insert(known_name_text(KnownName::Owner), ValueModel::Text(s)),
        None => m,
    };
    match a.layer_name {
        Some(s) => m.insert(known_name_text(KnownName::LayerName), ValueModel::Text(s)),
        None => m,
    }
}

fn known_key(n: KnownName) -> (r: String)
    ensures
        r@ == known_name_text(n),
{
    String::from_str(name_text(n))
}

/// The attribute map of a layer record (see `layer_attribute_map`).
pub fn attributes_from_layer(layer_attributes: &LayerAttributes) -> (r: AttributeMap)
    ensures
        r@ == layer_attribute_map(layer_attributes@),
{
    let mut m = layer_attributes.other.copied();
    m.insert(
        known_key(KnownName::ScreenWindowWidth),
        AttributeValue::Float32(layer_attributes.screen_window_width),
    );
    if let Some(u) = layer_attributes.utc_offset {
        m.insert(known_key(KnownName::UtcOffset), AttributeValue::Float32(u));
    }
    if let Some(s) = &layer_attributes.owner {
        m.insert(known_key(KnownName::Owner), AttributeValue::Text(s.clone()));
    }
    if let Some(s) = &layer_attributes.layer_name {
        m.insert(known_key(KnownName::LayerName), AttributeValue::Text(s.clone()));
    }
    m
}

/// Whether a layer record can take `v` under `k`: a name with dedicated
/// storage in the layer record takes a value of its own kind only.
pub open spec fn layer_entry_fits(k: Seq<char>, v: ValueModel) -> bool {
    match known_name(k) {
        Some(KnownName::LayerName) | Some(KnownName::Owner) => v is Text,
        Some(KnownName::ScreenWindowWidth) | Some(KnownName::UtcOffset) => v is Float32,
        _ => true,
    }
}

/// A layer record after `v` is written under `k`.
pub open spec fn with_layer_entry(a: LayerAttributesModel, k: Seq<char>, v: ValueModel) -> LayerAttributesModel {
    match (known_name(k), v) {
        (Some(KnownName::LayerName), ValueModel::Text(s)) => LayerAttributesModel { layer_name: Some(s), ..a },
        (Some(KnownName::Owner), ValueModel::Text(s)) => LayerAttributesModel { owner: Some(s), ..a },
        (Some(KnownName::ScreenWindowWidth), ValueModel::Float32(b)) => LayerAttributesModel {
            screen_window_width: b,
            ..a
        },
        (Some(KnownName::UtcOffset), ValueModel::Float32(b)) => LayerAttributesModel { utc_offset: Some(b), ..a },
        _ => LayerAttributesModel { other: a.other.insert(k, v), ..a },
    }
}

/// A layer record after the entries of `m` named in `names` are written, in
/// that order.
pub open spec fn with_layer_entries(
    a: LayerAttributesModel,
    m: Map<Seq<char>, ValueModel>,
    names: Seq<Seq<char>>,
) -> LayerAttributesModel
    decreases names.len(),
{
    if names.len() == 0 {
        a
    } else {
        with_layer_entry(with_layer_entries(a, m, names.drop_last()), names.last(), m[names.last()])
    }
}

/// The kind that a known name holds, as the one-element list of an error.
pub open spec fn kind_list(n: KnownName) -> Seq<Seq<char>> {
    seq![kind_name(kind_of(n))]
}

/// `e` reports that the value under the known name `k` is not of its kind.
pub open spec fn is_wrong_kind(e: ImageError, k: Seq<char>) -> bool {
    known_name(k) matches Some(n) && is_unsupported(e, k, kind_list(n))
}

fn kind_error(key: &String, n: KnownName) -> (r: ImageError)
    ensures
        is_unsupported(r, key@, kind_list(n)),
{
    let mut tried: Vec<String> = Vec::new();
    tried.push(String::from_str(AttributeValueHandler { kind: kind_for(n) }.name()));
    assert(crate::registry::texts_of(tried@) =~= kind_list(n));
    ImageError::UnsupportedAttributeKind { name: key.clone(), tried }
}

fn layer_entry_check(key: &String, v: &AttributeValue) -> (r: Result<(), ImageError>)
    ensures
        r is Ok <==> layer_entry_fits(key@, v@),
        r matches Err(e) ==> is_wrong_kind(e, key@),
{
    match classify_name(key.as_str()) {
        Some(KnownName::LayerName) | Some(KnownName::Owner) => match v {
            AttributeValue::Text(_) => Ok(()),
            _ => Err(kind_error(key, classify_name(key.as_str()).unwrap())),
        },
        Some(KnownName::ScreenWindowWidth) | Some(KnownName::UtcOffset) => match v {
            AttributeValue::Float32(_) => Ok(()),
            _ => Err(kind_error(key, classify_name(key.as_str()).unwrap())),
        },
        _ => Ok(()),
    }
}

/// Merges the attribute map `attributes` into a layer record: names with
/// dedicated storage set it, all other names are written to the other
/// attributes, and names not in `attributes` keep their values. Where a value
/// does not fit its name, nothing is written and the error names one such
/// name.
pub fn layer_attributes_from_attributes(
    layer_attributes: &mut LayerAttributes,
    attributes: &AttributeMap,
) -> (r: Result<(), ImageError>)
    ensures
        r is Ok <==> forall|k: Seq<char>| #[trigger] attributes@.contains_key(k) ==> layer_entry_fits(
            k,
            attributes@[k],
        ),
        r is Ok ==> final(layer_attributes)@ == with_layer_entries(
            old(layer_attributes)@,
            attributes@,
            attributes.name_seq(),
        ),
        r matches Err(e) ==> {
            &&& final(layer_attributes)@ == old(layer_attributes)@
            &&& exists|k: Seq<char>| #[trigger] attributes@.contains_key(k) && !layer_entry_fits(
                k,
                attributes@[k],
            ) && is_wrong_kind(e, k)
        },
{
    let n = attributes.len();
    let mut i: usize = 0;
    while i < n
        invariant
            n == attributes.name_seq().len(),
            forall|k: Seq<char>| #[trigger] attributes@.contains_key(k) <==> attributes.name_seq().contains(k),
            i <= n,
            forall|j: int| 0 <= j < i ==> layer_entry_fits(
                #[trigger] attributes.name_seq()[j],
                attributes@[attributes.name_seq()[j]],
            ),
        decreases n - i,
    {
        let key = attributes.name_at(i);
        let v = attributes.value_at(i);
        match layer_entry_check(key, v) {
            Ok(()) => {},
            Err(e) => {
                return Err(e);
            },
        }
        i = i + 1;
    }
    proof {
        assert forall|k: Seq<char>| #[trigger] attributes@.contains_key(k) implies layer_entry_fits(
            k,
            attributes@[k],
        ) by {
            let j = choose|j: int| 0 <= j < n && attributes.name_seq()[j] == k;
        }
    }
    let mut i: usize = 0;
    while i < n
        invariant
            n == attributes.name_seq().len(),
            i <= n,
            forall|k: Seq<char>| #[trigger] attributes@.contains_key(k) <==> attributes.name_seq().contains(k),
            layer_attributes@ == with_layer_entries(
                old(layer_attributes)@,
                attributes@,
                attributes.name_seq().subrange(0, i as int),
            ),
        decreases n - i,
    {
        let key = attributes.name_at(i);
        let v = attributes.value_at(i);
        proof {
            let pre = attributes.name_seq().subrange(0, i as int);
            let post = attributes.name_seq().subrange(0, i + 1);
            assert(post.drop_last() =~= pre);
            assert(post.last() == key@);
        }
        match (classify_name(key.as_str()), v) {
            (Some(KnownName::LayerName), AttributeValue::Text(s)) => {
                layer_attributes.layer_name = Some(s.clone());
            },
            (Some(KnownName::Owner), AttributeValue::Text(s)) => {
                layer_attributes.owner = Some(s.clone());
            },
            (Some(KnownName::ScreenWindowWidth), AttributeValue::Float32(b)) => {
                layer_attributes.screen_window_width = *b;
            },
            (Some(KnownName::UtcOffset), AttributeValue::Float32(b)) => {
                layer_attributes.utc_offset = Some(*b);
            },
            _ => {
                layer_attributes.other.insert(key.clone(), v.copied());
            },
        }
        i = i + 1;
    }
    assert(attributes.name_seq().subrange(0, n as int) =~= attributes.name_seq());
    Ok(())
}

/// The attributes of a whole image: those with dedicated storage, and the
/// others by name.
pub struct ImageAttributes {
    pub display_window: IntegerBounds,
    /// Binary32 bit pattern.
    pub pixel_aspect: u32,
    pub chromaticities: Option<Chromaticities>,
    pub time_code: Option<TimeCode>,
    pub other: AttributeMap,
}

/// What an image's attribute record holds.
pub struct ImageAttributesModel {
    pub display_window: IntegerBounds,
    pub pixel_aspect: u32,
    pub chromaticities: Option<Chromaticities>,
    pub time_code: Option<TimeCode>,
    pub other: Map<Seq<char>, ValueModel>,
}

impl View for ImageAttributes {
    type V = ImageAttributesModel;

    open spec fn view(&self) -> ImageAttributesModel {
        ImageAttributesModel {
            display_window: self.display_window,
            pixel_aspect: self.pixel_aspect,
            chromaticities: self.chromaticities,
            time_code: self.time_code,
            other: self.other@,
        }
    }
}

impl ImageAttributes {
    /// A record with the given display window, the default pixel aspect ratio,
    /// no chromaticities, no time code and no other attributes.
    pub fn new(display_window: IntegerBounds) -> (r: ImageAttributes)
        ensures
            r@ == (ImageAttributesModel {
                display_window,
                pixel_aspect: DEFAULT_PIXEL_ASPECT,
                chromaticities: None,
                time_code: None,
                other: Map::empty(),
            }),
    {
        ImageAttributes {
            display_window,
            pixel_aspect: DEFAULT_PIXEL_ASPECT,
            chromaticities: None,
            time_code: None,
            other: AttributeMap::new(),
        }
    }

    /// Writes one chromaticity coordinate, first storing the default
    /// chromaticities where there were none, so that the other seven
    /// coordinates are kept or defaulted, never lost.
    pub fn set_chromaticity(&mut self, p: Primary, y: bool, bits: u32)
        ensures
            final(self)@ == (ImageAttributesModel {
                chromaticities: Some(with_coordinate(chromaticities_or_default(old(self).chromaticities), p, y, bits)),
                ..old(self)@
            }),
    {
        let mut c = chromaticities_or_init(&mut self.chromaticities);
        set_coordinate(&mut c, p, y, bits);
        self.chromaticities = Some(c);
    }
}

impl ImageAttributes {
    /// Writes one number of the time code, first storing the default time
    /// code where there was none, so that the other fields are kept or
    /// defaulted, never lost.
    pub fn set_time_code_field(&mut self, f: TimeCodeField, v: u8)
        ensures
            final(self)@ == (ImageAttributesModel {
                time_code: Some(with_time_code_field(time_code_or_default(old(self).time_code), f, v)),
                ..old(self)@
            }),
    {
        let mut t = time_code_or_init(&mut self.time_code);
        set_time_code_field(&mut t, f, v);
        self.time_code = Some(t);
    }
}

/// The map of the four numbers of the time code `t`, by their names.
pub open spec fn time_code_entries(m: Map<Seq<char>, ValueModel>, t: TimeCode) -> Map<Seq<char>, ValueModel> {
    m.insert(known_name_text(KnownName::TimeCode(TimeCodeField::Hours)), ValueModel::Int32(t.hours as i32))
     .insert(known_name_text(KnownName::TimeCode(TimeCodeField::Minutes)), ValueModel::Int32(t.minutes as i32))
     .insert(known_name_text(KnownName::TimeCode(TimeCodeField::Seconds)), ValueModel::Int32(t.seconds as i32))
     .insert(known_name_text(KnownName::TimeCode(TimeCodeField::Frame)), ValueModel::Int32(t.frame as i32))
}

/// The map of the eight chromaticity coordinates of `c`, by their names.
pub open spec fn chromaticity_entries(m: Map<Seq<char>, ValueModel>, c: Chromaticities) -> Map<Seq<char>, ValueModel> {
    m.insert(known_name_text(KnownName::Chromaticity(Primary::Red, false)), ValueModel::Float32(c.red.0))
     .insert(known_name_text(KnownName::Chromaticity(Primary::Red, true)), ValueModel::Float32(c.red.1))
     .insert(known_name_text(KnownName::Chromaticity(Primary::Green, false)), ValueModel::Float32(c.green.0))
     .insert(known_name_text(KnownName::Chromaticity(Primary::Green, true)), ValueModel::Float32(c.green.1))
     .insert(known_name_text(KnownName::Chromaticity(Primary::Blue, false)), ValueModel::Float32(c.blue.0))
     .insert(known_name_text(KnownName::Chromaticity(Primary::Blue, true)), ValueModel::Float32(c.blue.1))
     .insert(known_name_text(KnownName::Chromaticity(Primary::White, false)), ValueModel::Float32(c.white.0))
     .insert(known_name_text(KnownName::Chromaticity(Primary::White, true)), ValueModel::Float32(c.white.1))
}

/// The attribute map of an image record: the other attributes, overridden by
/// the display window, the pixel aspect ratio and, where they are set, the
/// eight chromaticity coordinates and the four numbers of the time code.
pub open spec fn image_attribute_map(a: ImageAttributesModel) -> Map<Seq<char>, ValueModel> {
    let m = a.other.insert(
        known_name_text(KnownName::DisplayWindow),
        ValueModel::IntegerBounds(a.display_window),
    ).insert(known_name_text(KnownName::PixelAspectRatio), ValueModel::Float32(a.pixel_aspect));
    let m = match a.chromaticities {
        Some(c) => chromaticity_entries(m, c),
        None => m,
    };
    match a.time_code {
        Some(t) => time_code_entries(m, t),
        None => m,
    }
}

/// The attribute map of an image record (see `image_attribute_map`).
pub fn attributes_from_image(attributes: &ImageAttributes) -> (r: AttributeMap)
    ensures
        r@ == image_attribute_map(attributes@),
{
    let mut m = attributes.other.copied();
    m.insert(known_key(KnownName::DisplayWindow), AttributeValue::IntegerBounds(attributes.display_window));
    m.insert(known_key(KnownName::PixelAspectRatio), AttributeValue::Float32(attributes.pixel_aspect));
    if let Some(c) = attributes.chromaticities {
        m.insert(known_key(KnownName::Chromaticity(Primary::Red, false)), AttributeValue::Float32(c.red.0));
        m.insert(known_key(KnownName::Chromaticity(Primary::Red, true)), AttributeValue::Float32(c.red.1));
        m.insert(known_key(KnownName::Chromaticity(Primary::Green, false)), AttributeValue::Float32(c.green.0));
        m.insert(known_key(KnownName::Chromaticity(Primary::Green, true)), AttributeValue::Float32(c.green.1));
        m.insert(known_key(KnownName::Chromaticity(Primary::Blue, false)), AttributeValue::Float32(c.blue.0));
        m.insert(known_key(KnownName::Chromaticity(Primary::Blue, true)), AttributeValue::Float32(c.blue.1));
        m.insert(known_key(KnownName::Chromaticity(Primary::White, false)), AttributeValue::Float32(c.white.0));
        m.insert(known_key(KnownName::Chromaticity(Primary::White, true)), AttributeValue::Float32(c.white.1));
    }
    if let Some(t) = attributes.time_code {
        m.insert(known_key(KnownName::TimeCode(TimeCodeField::Hours)), AttributeValue::Int32(t.hours as i32));
        m.insert(known_key(KnownName::TimeCode(TimeCodeField::Minutes)), AttributeValue::Int32(t.minutes as i32));
        m.insert(known_key(KnownName::TimeCode(TimeCodeField::Seconds)), AttributeValue::Int32(t.seconds as i32));
        m.insert(known_key(KnownName::TimeCode(TimeCodeField::Frame)), AttributeValue::Int32(t.frame as i32));
    }
    m
}

/// Whether an image record can take `v` under `k`: a name with dedicated
/// storage in the image record takes a value of its own kind only, and a
/// number of the time code one from 0 to 255.
pub open spec fn image_entry_fits(k: Seq<char>, v: ValueModel) -> bool {
    match known_name(k) {
        Some(KnownName::DisplayWindow) => v is IntegerBounds,
        Some(KnownName::PixelAspectRatio) | Some(KnownName::Chromaticity(_, _)) => v is Float32,
        Some(KnownName::TimeCode(_)) => v matches ValueModel::Int32(i) && 0 <= i <= 255,
        _ => true,
    }
}

/// An image record after `v` is written under `k`. A chromaticity coordinate
/// is written into the chromaticities held, or into the defaults where none
/// are; a number of the time code likewise.
pub open spec fn with_image_entry(a: ImageAttributesModel, k: Seq<char>, v: ValueModel) -> ImageAttributesModel {
    match (known_name(k), v) {
        (Some(KnownName::DisplayWindow), ValueModel::IntegerBounds(b)) => ImageAttributesModel {
            display_window: b,
            ..a
        },
        (Some(KnownName::PixelAspectRatio), ValueModel::Float32(b)) => ImageAttributesModel { pixel_aspect: b, ..a },
        (Some(KnownName::Chromaticity(p, y)), ValueModel::Float32(b)) => ImageAttributesModel {
            chromaticities: Some(with_coordinate(chromaticities_or_default(a.chromaticities), p, y, b)),
            ..a
        },
        (Some(KnownName::TimeCode(f)), ValueModel::Int32(i)) => ImageAttributesModel {
            time_code: Some(with_time_code_field(time_code_or_default(a.time_code), f, i as u8)),
            ..a
        },
        _ => ImageAttributesModel { other: a.other.insert(k, v), ..a },
    }
}

/// An image record after the entries of `m` named in `names` are written, in
/// that order.
pub open spec fn with_image_entries(
    a: ImageAttributesModel,
    m: Map<Seq<char>, ValueModel>,
    names: Seq<Seq<char>>,
) -> ImageAttributesModel
    decreases names.len(),
{
    if names.len() == 0 {
        a
    } else {
        with_image_entry(with_image_entries(a, m, names.drop_last()), names.last(), m[names.last()])
    }
}

fn image_entry_check(key: &String, v: &AttributeValue) -> (r: Result<(), ImageError>)
    ensures
        r is Ok <==> image_entry_fits(key@, v@),
        r matches Err(e) ==> is_wrong_kind(e, key@),
{
    match classify_name(key.as_str()) {
        Some(KnownName::DisplayWindow) => match v {
            AttributeValue::IntegerBounds(_) => Ok(()),
            _ => Err(kind_error(key, KnownName::DisplayWindow)),
        },
        Some(KnownName::PixelAspectRatio) => match v {
            AttributeValue::Float32(_) => Ok(()),
            _ => Err(kind_error(key, KnownName::PixelAspectRatio)),
        },
        Some(KnownName::Chromaticity(p, y)) => match v {
            AttributeValue::Float32(_) => Ok(()),
            _ => Err(kind_error(key, KnownName::Chromaticity(p, y))),
        },
        Some(KnownName::TimeCode(f)) => match v {
            AttributeValue::Int32(i) => {
                if 0 <= *i && *i <= 255 {
                    Ok(())
                } else {
                    Err(kind_error(key, KnownName::TimeCode(f)))
                }
            },
            _ => Err(kind_error(key, KnownName::TimeCode(f))),
        },
        _ => Ok(()),
    }
}

/// Merges the attribute map `attributes` into an image record: names with
/// dedicated storage set it, all other names are written to the other
/// attributes, and names not in `attributes` keep their values. Where a value
/// does not fit its name, nothing is written and the error names one such
/// name.
pub fn image_attributes_from_attributes(
    image_attributes: &mut ImageAttributes,
    attributes: &AttributeMap,
) -> (r: Result<(), ImageError>)
    ensures
        r is Ok <==> forall|k: Seq<char>| #[trigger] attributes@.contains_key(k) ==> image_entry_fits(
            k,
            attributes@[k],
        ),
        r is Ok ==> final(image_attributes)@ == with_image_entries(
            old(image_attributes)@,
            attributes@,
            attributes.name_seq(),
        ),
        r matches Err(e) ==> {
            &&& final(image_attributes)@ == old(image_attributes)@
            &&& exists|k: Seq<char>| #[trigger] attributes@.contains_key(k) && !image_entry_fits(
                k,
                attributes@[k],
            ) && is_wrong_kind(e, k)
        },
{
    let n = attributes.len();
    let mut i: usize = 0;
    while i < n
        invariant
            n == attributes.name_seq().len(),
            forall|k: Seq<char>| #[trigger] attributes@.contains_key(k) <==> attributes.name_seq().contains(k),
            i <= n,
            forall|j: int| 0 <= j < i ==> image_entry_fits(
                #[trigger] attributes.name_seq()[j],
                attributes@[attributes.name_seq()[j]],
            ),
        decreases n - i,
    {
        let key = attributes.name_at(i);
        let v = attributes.value_at(i);
        match image_entry_check(key, v) {
            Ok(()) => {},
            Err(e) => {
                return Err(e);
            },
        }
        i = i + 1;
    }
    proof {
        assert forall|k: Seq<char>| #[trigger] attributes@.contains_key(k) implies image_entry_fits(
            k,
            attributes@[k],
        ) by {
            let j = choose|j: int| 0 <= j < n && attributes.name_seq()[j] == k;
        }
    }
    let mut i: usize = 0;
    while i < n
        invariant
            n == attributes.name_seq().len(),
            i <= n,
            forall|k: Seq<char>| #[trigger] attributes@.contains_key(k) <==> attributes.name_seq().contains(k),
            image_attributes@ == with_image_entries(
                old(image_attributes)@,
                attributes@,
                attributes.name_seq().subrange(0, i as int),
            ),
        decreases n - i,
    {
        let key = attributes.name_at(i);
        let v = attributes.value_at(i);
        proof {
            let pre = attributes.name_seq().subrange(0, i as int);
            let post = attributes.name_seq().subrange(0, i + 1);
            assert(post.drop_last() =~= pre);
            assert(post.last() == key@);
        }
        match (classify_name(key.as_str()), v) {
            (Some(KnownName::DisplayWindow), AttributeValue::IntegerBounds(b)) => {
                image_attributes.display_window = *b;
            },
            (Some(KnownName::PixelAspectRatio), AttributeValue::Float32(b)) => {
                image_attributes.pixel_aspect = *b;
            },
            (Some(KnownName::Chromaticity(p, y)), AttributeValue::Float32(b)) => {
                image_attributes.set_chromaticity(p, y, *b);
            },
            (Some(KnownName::TimeCode(f)), AttributeValue::Int32(i)) => {
                image_attributes.set_time_code_field(f, *i as u8);
            },
            _ => {
                image_attributes.other.insert(key.clone(), v.copied());
            },
        }
        i = i + 1;
    }
    assert(attributes.name_seq().subrange(0, n as int) =~= attributes.name_seq());
    Ok(())
}

/// On an image record without chromaticities, writing one chromaticity
/// coordinate by name leaves the seven others at their default values: the
/// attribute map then gives the written value under its name and the default
/// under each other coordinate's name.
pub proof fn lemma_chromaticity_write_keeps_defaults(
    a: ImageAttributesModel,
    p: Primary,
    y: bool,
    bits: u32,
    q: Primary,
    z: bool,
)
    requires
        a.chromaticities is None,
    ensures
        image_attribute_map(
            with_image_entry(a, known_name_text(KnownName::Chromaticity(p, y)), ValueModel::Float32(bits)),
        )[known_name_text(KnownName::Chromaticity(q, z))] == ValueModel::Float32(
            if q == p && z == y { bits } else { coordinate(crate::defaults::default_chromaticities(), q, z) },
        ),
{
    crate::names::lemma_known_name_text(KnownName::Chromaticity(p, y));
    crate::names::lemma_known_name_text(KnownName::Chromaticity(Primary::Red, false));
    crate::names::lemma_known_name_text(KnownName::Chromaticity(Primary::Red, true));
    crate::names::lemma_known_name_text(KnownName::Chromaticity(Primary::Green, false));
    crate::names::lemma_known_name_text(KnownName::Chromaticity(Primary::Green, true));
    crate::names::lemma_known_name_text(KnownName::Chromaticity(Primary::Blue, false));
    crate::names::lemma_known_name_text(KnownName::Chromaticity(Primary::Blue, true));
    crate::names::lemma_known_name_text(KnownName::Chromaticity(Primary::White, false));
    crate::names::lemma_known_name_text(KnownName::Chromaticity(Primary::White, true));
    crate::names::lemma_known_name_text(KnownName::TimeCode(TimeCodeField::Hours));
    crate::names::lemma_known_name_text(KnownName::TimeCode(TimeCodeField::Minutes));
    crate::names::lemma_known_name_text(KnownName::TimeCode(TimeCodeField::Seconds));
    crate::names::lemma_known_name_text(KnownName::TimeCode(TimeCodeField::Frame));
}

} // verus!
