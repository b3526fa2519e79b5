use vstd::prelude::*;
use crate::attribute_map::AttributeMap;
use crate::attributes::{
    is_wrong_kind, layer_attribute_map, layer_attributes_from_attributes, layer_entry_fits, text_view,
    with_layer_entries, with_layer_entry, LayerAttributes, LayerAttributesModel, DEFAULT_SCREEN_WINDOW_WIDTH,
};
use crate::names::{known_name, known_name_text, lemma_known_name_text, KnownName};
use crate::error::ImageError;
use crate::host::{attributes_from_pydict, dict_attributes, dict_view, entry_reads, pydict_from_attributes};
use crate::order::{lemma_text_le_refl, lemma_text_le_total, lemma_text_le_transitive, text_le, text_le_exec};
use crate::registry::{decode_outcome, decoded_as, first_encoding, is_unsupported, standard_kinds};
use crate::host::standard_kind_names;
use crate::value::{HostValue, ValueModel};

verus! {

broadcast use vstd::seq_lib::to_multiset_insert;

/// One named plane of samples. Each sample is the bit pattern of an IEEE-754
/// binary32 number.
#[derive(Clone, Debug, PartialEq)]
pub struct Channel {
    pub name: String,
    pub samples: Vec<u32>,
}

/// What a channel holds, with its name and samples as sequences.
pub struct ChannelModel {
    pub name: Seq<char>,
    pub samples: Seq<u32>,
}

impl View for Channel {
    type V = ChannelModel;

    open spec fn view(&self) -> ChannelModel {
        ChannelModel { name: self.name@, samples: self.samples@ }
    }
}

/// The views of a sequence of channels.
pub open spec fn channel_views(s: Seq<Channel>) -> Seq<ChannelModel> {
    s.map_values(|c: Channel| c@)
}

/// Whether the channels are in order of their names.
pub open spec fn names_sorted(s: Seq<ChannelModel>) -> bool {
    forall|i: int, j: int| 0 <= i < j < s.len() ==> text_le(s[i].name, s[j].name)
}

/// Whether a channel is named `n`.
pub open spec fn has_name(n: Seq<char>) -> spec_fn(ChannelModel) -> bool {
    |c: ChannelModel| c.name == n
}

/// The channels named `n`, in order.
pub open spec fn named(s: Seq<ChannelModel>, n: Seq<char>) -> Seq<ChannelModel> {
    s.filter(has_name(n))
}

/// Whether `out` holds, for each name, the channels of that name in `src` in
/// the same order: the order of channels of equal names is kept.
pub open spec fn same_order_per_name(out: Seq<ChannelModel>, src: Seq<ChannelModel>) -> bool {
    forall|n: Seq<char>| #[trigger] named(out, n) == named(src, n)
}

proof fn lemma_filter_none<A>(b: Seq<A>, f: spec_fn(A) -> bool)
    requires
        forall|i: int| 0 <= i < b.len() ==> !f(#[trigger] b[i]),
    ensures
        b.filter(f) == Seq::<A>::empty(),
{
    if b.filter(f).len() > 0 {
        let e = b.filter(f)[0];
        b.lemma_filter_pred(f, 0);
        assert(b.filter(f).contains(e));
        b.lemma_filter_contains_rev(f, e);
    }
    assert(b.filter(f) =~= Seq::<A>::empty());
}

proof fn lemma_filter_insert<A>(s: Seq<A>, p: int, x: A, f: spec_fn(A) -> bool)
    requires
        0 <= p <= s.len(),
        f(x) ==> forall|j: int| p <= j < s.len() ==> !f(#[trigger] s[j]),
    ensures
        s.insert(p, x).filter(f) == if f(x) { s.filter(f).push(x) } else { s.filter(f) },
{
    let a = s.subrange(0, p);
    let b = s.subrange(p, s.len() as int);
    assert(s =~= a + b);
    assert(s.insert(p, x) =~= a.push(x) + b);
    Seq::filter_distributes_over_add(a.push(x), b, f);
    Seq::filter_distributes_over_add(a, b, f);
    a.lemma_filter_push(x, f);
    if f(x) {
        lemma_filter_none(b, f);
        assert(s.filter(f) =~= a.filter(f));
        assert(s.insert(p, x).filter(f) =~= s.filter(f).push(x));
    }
}

/// Copies a sample vector element by element.
pub fn copy_samples(v: &Vec<u32>) -> (r: Vec<u32>)
    ensures
        r@ == v@,
{
    let mut r: Vec<u32> = Vec::new();
    let mut i: usize = 0;
    while i < v.len()
        invariant
            i <= v.len(),
            r@ == v@.subrange(0, i as int),
        decreases v.len() - i,
    {
        r.push(v[i]);
        i = i + 1;
    }
    assert(r@ =~= v@);
    r
}

impl Channel {
    /// A copy of this channel.
    pub fn copied(&self) -> (r: Channel)
        ensures
            r@ == self@,
    {
        Channel { name: self.name.clone(), samples: copy_samples(&self.samples) }
    }
}

/// Copies of the channels, in order of their names: the same channels, each
/// as often as before, with names ascending, and channels of equal names in
/// their former order.
pub fn sorted_by_name(channels: &Vec<Channel>) -> (r: Vec<Channel>)
    ensures
        names_sorted(channel_views(r@)),
        channel_views(r@).to_multiset() == channel_views(channels@).to_multiset(),
        same_order_per_name(channel_views(r@), channel_views(channels@)),
{
    let mut out: Vec<Channel> = Vec::new();
    let mut i: usize = 0;
    assert(channel_views(out@) =~= Seq::<ChannelModel>::empty());
    assert(channel_views(channels@).subrange(0, 0) =~= Seq::<ChannelModel>::empty());
    while i < channels.len()
        invariant
            i <= channels@.len(),
            names_sorted(channel_views(out@)),
            channel_views(out@).to_multiset() == channel_views(channels@).subrange(
                0,
                i as int,
            ).to_multiset(),
            same_order_per_name(channel_views(out@), channel_views(channels@).subrange(0, i as int)),
        decreases channels@.len() - i,
    {
        let x = channels[i].copied();
        let mut p: usize = 0;
        while p < out.len() && text_le_exec(out[p].name.as_str(), x.name.as_str())
            invariant
                p <= out@.len(),
                forall|k: int| 0 <= k < p ==> text_le(out@[k].name@, x.name@),
            decreases out@.len() - p,
        {
            p = p + 1;
        }
        let ghost before = channel_views(out@);
        proof {
            if p < out@.len() {
                lemma_text_le_total(out@[p as int].name@, x.name@);
            }
        }
        out.insert(p, x);
        proof {
            let after = channel_views(out@);
            assert(after =~= before.insert(p as int, x@));
            assert forall|a: int, b: int| 0 <= a < b < after.len() implies text_le(
                after[a].name,
                after[b].name,
            ) by {
                if a < p && b == p {
                } else if a == p && b > p {
                    if b - 1 > p {
                        lemma_text_le_transitive(x@.name, before[p as int].name, before[b - 1].name);
                    }
                } else if a < p && b > p {
                } else {
                }
            }
            let src = channel_views(channels@);
            assert(src.subrange(0, i + 1) =~= src.subrange(0, i as int).push(x@));
            vstd::seq_lib::to_multiset_build(src.subrange(0, i as int), x@);
            assert forall|n: Seq<char>| #[trigger] named(after, n) == named(src.subrange(0, i + 1), n) by {
                let f = has_name(n);
                if f(x@) {
                    assert forall|j: int| p <= j < before.len() implies !f(#[trigger] before[j]) by {
                        if before[j].name == x@.name {
                            lemma_text_le_refl(x@.name);
                            if j > p {
                                lemma_text_le_transitive(before[p as int].name, before[j].name, x@.name);
                            }
                        }
                    }
                }
                lemma_filter_insert(before, p as int, x@, f);
                src.subrange(0, i as int).lemma_filter_push(x@, f);
                assert(named(before, n) == named(src.subrange(0, i as int), n));
                assert(named(after, n) == if f(x@) { named(before, n).push(x@) } else { named(before, n) });
                assert(named(src.subrange(0, i + 1), n) == if f(x@) {
                    named(src.subrange(0, i as int), n).push(x@)
                } else {
                    named(src.subrange(0, i as int), n)
                });
            }
        }
        i = i + 1;
    }
    assert(channel_views(channels@).subrange(0, i as int) =~= channel_views(channels@));
    out
}

/// A layer: a name, the dimensions of its pixel grid once set, its channels
/// in the order they were added, and its attributes by name.
pub struct ExrLayer {
    name: Option<String>,
    channels: Vec<Channel>,
    width: Option<usize>,
    height: Option<usize>,
    attributes: AttributeMap,
}

/// What a layer holds. `attribute_names` is the order in which its attribute
/// names were first written.
pub struct LayerModel {
    pub name: Option<Seq<char>>,
    pub width: Option<usize>,
    pub height: Option<usize>,
    pub channels: Seq<ChannelModel>,
    pub attributes: Map<Seq<char>, ValueModel>,
    pub attribute_names: Seq<Seq<char>>,
}

impl View for ExrLayer {
    type V = LayerModel;

    closed spec fn view(&self) -> LayerModel {
        LayerModel {
            name: text_view(self.name),
            width: self.width,
            height: self.height,
            channels: channel_views(self.channels@),
            attributes: self.attributes@,
            attribute_names: self.attributes.name_seq(),
        }
    }
}

/// Whether a layer can be handed to the codec: its width and height are set,
/// it has channels, and each channel holds one sample per pixel.
pub open spec fn layer_complete(l: LayerModel) -> bool {
    &&& l.width is Some
    &&& l.height is Some
    &&& l.channels.len() > 0
    &&& forall|i: int| 0 <= i < l.channels.len() ==> (#[trigger] l.channels[i]).samples.len()
        == l.width->0 * l.height->0
}

/// Whether every attribute of the layer fits the layer record.
pub open spec fn layer_attributes_fit(l: LayerModel) -> bool {
    forall|k: Seq<char>| #[trigger] l.attributes.contains_key(k) ==> layer_entry_fits(k, l.attributes[k])
}

/// The attribute record that a layer hands to the codec: its attributes
/// written into a fresh record, and its own name, where it has one, as the
/// layer name.
pub open spec fn codec_layer_attributes(l: LayerModel) -> LayerAttributesModel {
    let fresh = LayerAttributesModel {
        layer_name: None,
        owner: None,
        screen_window_width: DEFAULT_SCREEN_WINDOW_WIDTH,
        utc_offset: None,
        other: Map::empty(),
    };
    let a = with_layer_entries(fresh, l.attributes, l.attribute_names);
    match l.name {
        Some(n) => LayerAttributesModel { layer_name: Some(n), ..a },
        None => a,
    }
}

/// A layer as the codec takes it: its dimensions, its attribute record and its
/// channels in order of their names.
pub struct CodecLayer {
    pub width: usize,
    pub height: usize,
    pub attributes: LayerAttributes,
    pub channels: Vec<Channel>,
}

/// `c` is what the layer `l` becomes for the codec (see
/// `ExrLayer::to_codec_layer`).
pub open spec fn exported_as(c: CodecLayer, l: LayerModel) -> bool {
    &&& Some(c.width) == l.width
    &&& Some(c.height) == l.height
    &&& c.attributes@ == codec_layer_attributes(l)
    &&& names_sorted(channel_views(c.channels@))
    &&& channel_views(c.channels@).to_multiset() == l.channels.to_multiset()
    &&& same_order_per_name(channel_views(c.channels@), l.channels)
}

/// The number of samples in a grid of the given dimensions, saturated at
/// `usize::MAX`.
pub open spec fn grid_samples(width: usize, height: usize) -> usize {
    if width * height <= usize::MAX { (width * height) as usize } else { usize::MAX }
}

impl ExrLayer {
    /// An empty layer: no dimensions, no channels, no attributes.
    pub fn new(name: Option<String>) -> (r: ExrLayer)
        ensures
            r@ == (LayerModel {
                name: text_view(name),
                width: None,
                height: None,
                channels: Seq::empty(),
                attributes: Map::empty(),
                attribute_names: Seq::empty(),
            }),
    {
        let r = ExrLayer { name, channels: Vec::new(), width: None, height: None, attributes: AttributeMap::new() };
        assert(channel_views(r.channels@) =~= Seq::<ChannelModel>::empty());
        r
    }

    /// A copy of this layer.
    pub fn copied(&self) -> (r: ExrLayer)
        ensures
            r@ == self@,
    {
        let mut channels: Vec<Channel> = Vec::new();
        let mut i: usize = 0;
        while i < self.channels.len()
            invariant
                i <= self.channels@.len(),
                channels@.len() == i,
                forall|j: int| 0 <= j < i ==> (#[trigger] channels@[j])@ == self.channels@[j]@,
            decreases self.channels@.len() - i,
        {
            channels.push(self.channels[i].copied());
            i = i + 1;
        }
        let r = ExrLayer {
            name: self.name(),
            channels,
            width: self.width,
            height: self.height,
            attributes: self.attributes.copied(),
        };
        assert(channel_views(r.channels@) =~= channel_views(self.channels@));
        r
    }

    /// The layer's own name, if it has one.
    pub fn name(&self) -> (r: Option<String>)
        ensures
            text_view(r) == self@.name,
    {
        match &self.name {
            Some(n) => Some(n.clone()),
            None => None,
        }
    }

    /// The names of the channels, in the order they were added.
    pub fn channels(&self) -> (r: Vec<String>)
        ensures
            r@.len() == self@.channels.len(),
            forall|i: int| 0 <= i < r@.len() ==> (#[trigger] r@[i])@ == self@.channels[i].name,
    {
        let mut r: Vec<String> = Vec::new();
        let mut i: usize = 0;
        while i < self.channels.len()
            invariant
                i <= self.channels@.len(),
                r@.len() == i,
                forall|j: int| 0 <= j < i ==> (#[trigger] r@[j])@ == self.channels@[j].name@,
            decreases self.channels@.len() - i,
        {
            r.push(self.channels[i].name.clone());
            i = i + 1;
        }
        r
    }

    /// The width of the pixel grid, once set.
    pub fn width(&self) -> (r: Option<usize>)
        ensures
            r == self@.width,
    {
        self.width
    }

    /// Sets the width; the channels are not checked against it.
    pub fn with_width(&mut self, width: usize)
        ensures
            final(self)@ == (LayerModel { width: Some(width), ..old(self)@ }),
    {
        self.width = Some(width);
    }

    /// The height of the pixel grid, once set.
    pub fn height(&self) -> (r: Option<usize>)
        ensures
            r == self@.height,
    {
        self.height
    }

    /// Sets the height; the channels are not checked against it.
    pub fn with_height(&mut self, height: usize)
        ensures
            final(self)@ == (LayerModel { height: Some(height), ..old(self)@ }),
    {
        self.height = Some(height);
    }

    /// The samples of each channel, in channel order; nothing where the layer
    /// has no channels.
    pub fn pixels_f32(&self) -> (r: Option<Vec<Vec<u32>>>)
        ensures
            self@.channels.len() == 0 ==> r is None,
            self@.channels.len() > 0 ==> (r matches Some(p) && p@.len() == self@.channels.len() && forall|i: int|
                0 <= i < p@.len() ==> (#[trigger] p@[i])@ == self@.channels[i].samples),
    {
        if self.channels.len() == 0 {
            return None;
        }
        let mut r: Vec<Vec<u32>> = Vec::new();
        let mut i: usize = 0;
        while i < self.channels.len()
            invariant
                i <= self.channels@.len(),
                r@.len() == i,
                forall|j: int| 0 <= j < i ==> (#[trigger] r@[j])@ == self.channels@[j].samples@,
            decreases self.channels@.len() - i,
        {
            r.push(copy_samples(&self.channels[i].samples));
            i = i + 1;
        }
        Some(r)
    }

    /// Adds a channel after the others. The width and height must be set, and
    /// `pixels` must hold exactly one sample per pixel; otherwise the layer is
    /// unchanged and the error says which. A name already present is not
    /// refused: the layer then has two channels of that name.
    pub fn with_channel_f32(&mut self, channel: String, pixels: Vec<u32>) -> (r: Result<(), ImageError>)
        ensures
            match (old(self)@.width, old(self)@.height) {
                (Some(w), Some(h)) => if pixels@.len() == w * h {
                    r is Ok && final(self)@ == (LayerModel {
                        channels: old(self)@.channels.push(ChannelModel { name: channel@, samples: pixels@ }),
                        ..old(self)@
                    })
                } else {
                    r == Err::<(), ImageError>(
                        ImageError::PixelCountMismatch {
                            expected: grid_samples(w, h),
                            actual: pixels@.len() as usize,
                        },
                    ) && final(self)@ == old(self)@
                },
                _ => r matches Err(ImageError::DimensionsNotSet) && final(self)@ == old(self)@,
            },
    {
        let (width, height) = match (self.width, self.height) {
            (Some(w), Some(h)) => (w, h),
            _ => return Err(ImageError::DimensionsNotSet),
        };
        let expected = match width.checked_mul(height) {
            Some(n) => n,
            None => usize::MAX,
        };
        if width.checked_mul(height).is_none() || pixels.len() != expected {
            return Err(ImageError::PixelCountMismatch { expected, actual: pixels.len() });
        }
        let ghost old_channels = channel_views(self.channels@);
        let c = Channel { name: channel, samples: pixels };
        self.channels.push(c);
        assert(channel_views(self.channels@) =~= old_channels.push(c@));
        Ok(())
    }

    /// The layer's attributes by name.
    pub fn attribute_map(&self) -> (r: &AttributeMap)
        ensures
            r@ == self@.attributes,
            r.name_seq() == self@.attribute_names,
            self@.attribute_names.no_duplicates(),
            forall|k: Seq<char>| #[trigger] self@.attributes.contains_key(k) <==> self@.attribute_names.contains(k),
    {
        let _ = self.attributes.len();
        &self.attributes
    }

    /// The layer's attributes as a host dictionary (see
    /// `pydict_from_attributes`).
    pub fn attributes(&self) -> (r: Result<Vec<(String, HostValue)>, ImageError>)
        ensures
            r is Ok <==> forall|k: Seq<char>| #[trigger] self@.attributes.contains_key(k) ==> first_encoding(
                standard_kinds(),
                self@.attributes[k],
            ) is Some,
            r matches Ok(d) ==> {
                &&& d@.len() == self@.attribute_names.len()
                &&& forall|i: int| 0 <= i < d@.len() ==> (#[trigger] d@[i]).0@ == self@.attribute_names[i]
                    && Some(d@[i].1@) == first_encoding(standard_kinds(), self@.attributes[self@.attribute_names[i]])
            },
            r matches Err(e) ==> exists|i: int| 0 <= i < self@.attribute_names.len() && first_encoding(
                standard_kinds(),
                self@.attributes[#[trigger] self@.attribute_names[i]],
            ) is None && (forall|j: int| 0 <= j < i ==> first_encoding(
                standard_kinds(),
                self@.attributes[#[trigger] self@.attribute_names[j]],
            ) is Some) && is_unsupported(e, self@.attribute_names[i], standard_kind_names()),
    {
        pydict_from_attributes(&self.attributes)
    }

    /// Merges an attribute map into the layer's: names of `attributes` take
    /// its values, the other names keep theirs.
    pub fn with_attribute_map(&mut self, attributes: &AttributeMap)
        ensures
            final(self)@.attributes == old(self)@.attributes.union_prefer_right(attributes@),
            final(self)@.name == old(self)@.name,
            final(self)@.width == old(self)@.width,
            final(self)@.height == old(self)@.height,
            final(self)@.channels == old(self)@.channels,
    {
        self.attributes.merge_from(attributes);
    }

    /// Reads a host dictionary (see `attributes_from_pydict`) and merges it
    /// into the layer's attributes. Where an entry cannot be read, the layer
    /// is unchanged and the error is that of the first such entry.
    pub fn with_attributes(&mut self, dict: &Vec<(String, HostValue)>) -> (r: Result<(), ImageError>)
        ensures
            r is Ok <==> forall|i: int| 0 <= i < dict@.len() ==> entry_reads(#[trigger] dict_view(dict@)[i]),
            r is Ok ==> final(self)@.attributes == old(self)@.attributes.union_prefer_right(
                dict_attributes(dict_view(dict@)),
            ),
            r is Ok ==> final(self)@.channels == old(self)@.channels && final(self)@.name == old(self)@.name
                && final(self)@.width == old(self)@.width && final(self)@.height == old(self)@.height,
            r matches Err(e) ==> final(self)@ == old(self)@ && exists|i: int| 0 <= i < dict@.len() && !entry_reads(
                #[trigger] dict_view(dict@)[i],
            ) && (forall|j: int| 0 <= j < i ==> entry_reads(dict_view(dict@)[j])) && decoded_as(
                Err(e),
                dict@[i].0@,
                decode_outcome(standard_kinds(), dict@[i].0@, dict@[i].1@),
            ),
    {
        match attributes_from_pydict(dict) {
            Ok(m) => {
                self.attributes.merge_from(&m);
                Ok(())
            },
            Err(e) => Err(e),
        }
    }

    /// The layer as the codec takes it (see `codec_layer_attributes`), its
    /// channels in order of their names. An incomplete layer is refused with
    /// `IncompleteLayer`; an attribute that does not fit the layer record, with
    /// the error of `layer_attributes_from_attributes`.
    pub fn to_codec_layer(&self) -> (r: Result<CodecLayer, ImageError>)
        ensures
            !layer_complete(self@) ==> r matches Err(ImageError::IncompleteLayer),
            layer_complete(self@) && !layer_attributes_fit(self@) ==> (r matches Err(e) && exists|k: Seq<char>|
                #[trigger] self@.attributes.contains_key(k) && !layer_entry_fits(k, self@.attributes[k])
                    && is_wrong_kind(e, k)),
            layer_complete(self@) && layer_attributes_fit(self@) ==> (r matches Ok(c) && exported_as(c, self@)),
    {
        let (width, height) = match (self.width, self.height) {
            (Some(w), Some(h)) => (w, h),
            _ => return Err(ImageError::IncompleteLayer),
        };
        if self.channels.len() == 0 {
            return Err(ImageError::IncompleteLayer);
        }
        let expected = match width.checked_mul(height) {
            Some(n) => n,
            None => {
                proof {
                    assert(self@.channels[0] == self.channels@[0]@);
                    assert(self.channels@[0].samples@.len() == self.channels@[0].samples.len());
                }
                return Err(ImageError::IncompleteLayer);
            },
        };
        let mut i: usize = 0;
        while i < self.channels.len()
            invariant
                i <= self.channels@.len(),
                expected == width * height,
                self.width == Some(width),
                self.height == Some(height),
                forall|j: int| 0 <= j < i ==> (#[trigger] self.channels@[j]).samples@.len() == expected,
            decreases self.channels@.len() - i,
        {
            if self.channels[i].samples.len() != expected {
                proof {
                    assert(self@.channels[i as int] == self.channels@[i as int]@);
                    assert(self@.channels[i as int].samples.len() != width * height);
                }
                return Err(ImageError::IncompleteLayer);
            }
            i = i + 1;
        }
        proof {
            assert forall|j: int| 0 <= j < self@.channels.len() implies (#[trigger] self@.channels[j]).samples.len()
                == width * height by {
                assert(self@.channels[j] == self.channels@[j]@);
            }
        }
        let mut attributes = LayerAttributes::new();
        match layer_attributes_from_attributes(&mut attributes, &self.attributes) {
            Ok(()) => {},
            Err(e) => return Err(e),
        }
        if let Some(n) = &self.name {
            attributes.layer_name = Some(n.clone());
        }
        let channels = sorted_by_name(&self.channels);
        Ok(CodecLayer { width, height, attributes, channels })
    }
}

/// A layer as the codec gives it back: its name, dimensions, channels in the
/// codec's order and attribute record.
pub struct DecodedLayer {
    pub width: usize,
    pub height: usize,
    pub channels: Vec<Channel>,
    pub attributes: LayerAttributes,
}

/// The layer that a decoded layer becomes: named by its layer name, with its
/// dimensions and channels as decoded, and the attribute map of its record.
pub fn layer_from_exr(decoded: DecodedLayer) -> (r: ExrLayer)
    ensures
        r@.name == decoded.attributes@.layer_name,
        r@.width == Some(decoded.width),
        r@.height == Some(decoded.height),
        r@.channels == channel_views(decoded.channels@),
        r@.attributes == crate::attributes::layer_attribute_map(decoded.attributes@),
{
    let attributes = crate::attributes::attributes_from_layer(&decoded.attributes);
    let name = match &decoded.attributes.layer_name {
        Some(n) => Some(n.clone()),
        None => None,
    };
    ExrLayer {
        name,
        channels: decoded.channels,
        width: Some(decoded.width),
        height: Some(decoded.height),
        attributes,
    }
}

/// Writing a value that fits under a name changes the layer record's attribute
/// map at that name only.
proof fn lemma_layer_entry_map(a: LayerAttributesModel, k: Seq<char>, v: ValueModel)
    requires
        layer_entry_fits(k, v),
    ensures
        layer_attribute_map(with_layer_entry(a, k, v)) == layer_attribute_map(a).insert(k, v),
{
    lemma_known_name_text(KnownName::LayerName);
    lemma_known_name_text(KnownName::Owner);
    lemma_known_name_text(KnownName::ScreenWindowWidth);
    lemma_known_name_text(KnownName::UtcOffset);
    let lhs = layer_attribute_map(with_layer_entry(a, k, v));
    let rhs = layer_attribute_map(a).insert(k, v);
    match known_name(k) {
        Some(KnownName::LayerName) => {
            assert(k == known_name_text(KnownName::LayerName));
        },
        Some(KnownName::Owner) => {
            assert(k == known_name_text(KnownName::Owner));
        },
        Some(KnownName::ScreenWindowWidth) => {
            assert(k == known_name_text(KnownName::ScreenWindowWidth));
        },
        Some(KnownName::UtcOffset) => {
            assert(k == known_name_text(KnownName::UtcOffset));
        },
        _ => {},
    }
    assert(lhs =~= rhs);
}

/// After the entries of `m` named in `names` are written, the attribute map of
/// the record holds `m`'s value under each of those names.
proof fn lemma_layer_entries_map(a: LayerAttributesModel, m: Map<Seq<char>, ValueModel>, names: Seq<Seq<char>>, k: Seq<char>)
    requires
        forall|i: int| 0 <= i < names.len() ==> m.contains_key(#[trigger] names[i]),
        forall|i: int| 0 <= i < names.len() ==> layer_entry_fits(#[trigger] names[i], m[names[i]]),
        names.contains(k),
    ensures
        layer_attribute_map(with_layer_entries(a, m, names)).contains_key(k),
        layer_attribute_map(with_layer_entries(a, m, names))[k] == m[k],
    decreases names.len(),
{
    let pre = names.drop_last();
    let last = names.last();
    lemma_layer_entry_map(with_layer_entries(a, m, pre), last, m[last]);
    if k != last {
        let i = choose|i: int| 0 <= i < names.len() && names[i] == k;
        assert(pre[i] == k);
        lemma_layer_entries_map(a, m, pre, k);
    }
}

/// A layer handed to the codec and given back unchanged keeps its dimensions,
/// its channels (each with its samples, in name order), its name where it has
/// one, and the value of each of its attributes (under the layer-name
/// attribute, its own name wins where it has one).
pub proof fn lemma_codec_layer_keeps_layer(l: LayerModel, c: CodecLayer, k: Seq<char>)
    requires
        exported_as(c, l),
        layer_attributes_fit(l),
        forall|k: Seq<char>| #[trigger] l.attributes.contains_key(k) <==> l.attribute_names.contains(k),
        l.attributes.contains_key(k),
        !(l.name is Some && k == known_name_text(KnownName::LayerName)),
    ensures
        Some(c.width) == l.width,
        Some(c.height) == l.height,
        channel_views(c.channels@).to_multiset() == l.channels.to_multiset(),
        l.name is Some ==> c.attributes@.layer_name == l.name,
        layer_attribute_map(c.attributes@).contains_key(k),
        layer_attribute_map(c.attributes@)[k] == l.attributes[k],
{
    let fresh = LayerAttributesModel {
        layer_name: None,
        owner: None,
        screen_window_width: DEFAULT_SCREEN_WINDOW_WIDTH,
        utc_offset: None,
        other: Map::empty(),
    };
    let names = l.attribute_names;
    assert forall|i: int| 0 <= i < names.len() implies l.attributes.contains_key(#[trigger] names[i]) by {
        assert(names.contains(names[i]));
    }
    lemma_layer_entries_map(fresh, l.attributes, names, k);
    let a = with_layer_entries(fresh, l.attributes, names);
    if let Some(n) = l.name {
        lemma_known_name_text(KnownName::LayerName);
        let lnk = known_name_text(KnownName::LayerName);
        assert(with_layer_entry(a, lnk, ValueModel::Text(n)) == LayerAttributesModel { layer_name: Some(n), ..a });
        lemma_layer_entry_map(a, lnk, ValueModel::Text(n));
    }
}

} // verus!
