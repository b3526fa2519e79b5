use vstd::prelude::*;
use crate::attributes::{
    attributes_from_image, image_attribute_map, image_attributes_from_attributes, image_entry_fits,
    is_wrong_kind, with_image_entries, ImageAttributes, ImageAttributesModel, DEFAULT_PIXEL_ASPECT,
};
use crate::error::ImageError;
use crate::host::{
    attributes_from_pydict, dict_attributes, dict_names, dict_view, entry_reads, pydict_from_attributes,
    standard_kind_names,
};
use crate::layer::{
    channel_views, exported_as, layer_attributes_fit, layer_complete, layer_from_exr, CodecLayer, DecodedLayer, ExrLayer, LayerModel,
};
use crate::attributes::layer_attribute_map;
use crate::layer::lemma_codec_layer_keeps_layer;
use crate::names::{known_name_text, KnownName};
use crate::registry::{decode_outcome, decoded_as, first_encoding, is_unsupported, standard_kinds};
use crate::value::{HostValue, IntegerBounds};

verus! {

/// An image: its layers in order, and its attribute record.
pub struct ExrImage {
    layers: Vec<ExrLayer>,
    attributes: ImageAttributes,
}

/// What an image holds.
pub struct ImageModel {
    pub layers: Seq<LayerModel>,
    pub attributes: ImageAttributesModel,
}

/// The views of a sequence of layers.
pub open spec fn layer_views(s: Seq<ExrLayer>) -> Seq<LayerModel> {
    s.map_values(|l: ExrLayer| l@)
}

impl View for ExrImage {
    type V = ImageModel;

    closed spec fn view(&self) -> ImageModel {
        ImageModel { layers: layer_views(self.layers@), attributes: self.attributes@ }
    }
}

/// Whether a layer can be handed to the codec as it is.
pub open spec fn layer_exports(l: LayerModel) -> bool {
    layer_complete(l) && layer_attributes_fit(l)
}

/// An image as the codec takes it: its attribute record and its layers.
pub struct CodecImage {
    pub attributes: ImageAttributes,
    pub layers: Vec<CodecLayer>,
}

/// The attribute record written with an image: its own, with the size of the
/// display window taken from the first layer.
pub open spec fn saved_attributes(a: ImageAttributesModel, first: LayerModel) -> ImageAttributesModel {
    ImageAttributesModel {
        display_window: IntegerBounds {
            position: a.display_window.position,
            size: (first.width->0 as u32, first.height->0 as u32),
        },
        ..a
    }
}

/// `e` is the error for the layer `l` at `index` that cannot be exported.
pub open spec fn layer_error(e: ImageError, index: int, l: LayerModel) -> bool {
    if !layer_complete(l) {
        e matches ImageError::IncompleteLayerAt { index: i, name } && i == index && match name {
            Some(n) => l.name == Some(n@),
            None => l.name is None,
        }
    } else {
        exists|k: Seq<char>| #[trigger] l.attributes.contains_key(k) && !crate::attributes::layer_entry_fits(
            k,
            l.attributes[k],
        ) && is_wrong_kind(e, k)
    }
}

impl ExrImage {
    /// An image without layers, with an empty display window and the default
    /// attributes.
    pub fn new() -> (r: ExrImage)
        ensures
            r@.layers == Seq::<LayerModel>::empty(),
            r@.attributes == (ImageAttributesModel {
                display_window: IntegerBounds { position: (0, 0), size: (0, 0) },
                pixel_aspect: DEFAULT_PIXEL_ASPECT,
                chromaticities: None,
                time_code: None,
                other: Map::empty(),
            }),
    {
        let r = ExrImage {
            layers: Vec::new(),
            attributes: ImageAttributes::new(IntegerBounds { position: (0, 0), size: (0, 0) }),
        };
        assert(layer_views(r.layers@) =~= Seq::<LayerModel>::empty());
        r
    }

    /// The image's attribute record.
    pub fn attribute_record(&self) -> (r: &ImageAttributes)
        ensures
            r@ == self@.attributes,
    {
        &self.attributes
    }

    /// The image's attributes as a host dictionary: the attribute map of its
    /// record (see `image_attribute_map`), each value turned by `to_python`.
    pub fn attributes(&self) -> (r: Result<Vec<(String, HostValue)>, ImageError>)
        ensures
            r is Ok <==> forall|k: Seq<char>| #[trigger] image_attribute_map(self@.attributes).contains_key(k)
                ==> first_encoding(standard_kinds(), image_attribute_map(self@.attributes)[k]) is Some,
            r matches Ok(d) ==> {
                &&& forall|k: Seq<char>| #[trigger] image_attribute_map(self@.attributes).contains_key(k)
                    ==> exists|i: int| 0 <= i < d@.len() && (#[trigger] d@[i]).0@ == k
                &&& forall|i: int| 0 <= i < d@.len() ==> image_attribute_map(self@.attributes).contains_key(
                    (#[trigger] d@[i]).0@,
                ) && Some(d@[i].1@) == first_encoding(
                    standard_kinds(),
                    image_attribute_map(self@.attributes)[d@[i].0@],
                )
                &&& forall|i: int, j: int| 0 <= i < j < d@.len() ==> d@[i].0@ != d@[j].0@
            },
            r matches Err(e) ==> exists|k: Seq<char>| #[trigger] image_attribute_map(self@.attributes).contains_key(k)
                && first_encoding(standard_kinds(), image_attribute_map(self@.attributes)[k]) is None
                && is_unsupported(e, k, standard_kind_names()),
    {
        let m = attributes_from_image(&self.attributes);
        let _ = m.len();
        let r = pydict_from_attributes(&m);
        proof {
            if r is Err {
                let i = choose|i: int| 0 <= i < m.name_seq().len() && first_encoding(
                    standard_kinds(),
                    m@[#[trigger] m.name_seq()[i]],
                ) is None && (forall|j: int| 0 <= j < i ==> first_encoding(
                    standard_kinds(),
                    m@[#[trigger] m.name_seq()[j]],
                ) is Some) && is_unsupported(r->Err_0, m.name_seq()[i], standard_kind_names());
                let k = m.name_seq()[i];
                assert(m.name_seq().contains(k));
                assert(image_attribute_map(self@.attributes).contains_key(k));
                assert(first_encoding(standard_kinds(), image_attribute_map(self@.attributes)[k]) is None);
            }
            if r is Ok {
                let d = r->Ok_0;
                assert forall|k: Seq<char>| #[trigger] image_attribute_map(self@.attributes).contains_key(k)
                    implies exists|i: int| 0 <= i < d@.len() && (#[trigger] d@[i]).0@ == k by {
                    let i = choose|i: int| 0 <= i < m.name_seq().len() && m.name_seq()[i] == k;
                    assert(d@[i].0@ == k);
                }
                assert forall|i: int, j: int| 0 <= i < j < d@.len() implies d@[i].0@ != d@[j].0@ by {
                    assert(m.name_seq()[i] != m.name_seq()[j]);
                }
                assert forall|i: int| 0 <= i < d@.len() implies image_attribute_map(self@.attributes).contains_key(
                    (#[trigger] d@[i]).0@,
                ) by {
                    assert(m.name_seq().contains(m.name_seq()[i]));
                }
            }
        }
        r
    }

    /// Reads a host dictionary (see `attributes_from_pydict`) and merges it
    /// into the image's attribute record (see
    /// `image_attributes_from_attributes`). On an error the image is unchanged.
    pub fn with_attributes(&mut self, dict: &Vec<(String, HostValue)>) -> (r: Result<(), ImageError>)
        ensures
            r is Ok <==> (forall|i: int| 0 <= i < dict@.len() ==> entry_reads(#[trigger] dict_view(dict@)[i]))
                && (forall|k: Seq<char>| #[trigger] dict_attributes(dict_view(dict@)).contains_key(k)
                ==> image_entry_fits(k, dict_attributes(dict_view(dict@))[k])),
            r is Ok ==> final(self)@ == (ImageModel {
                attributes: with_image_entries(
                    old(self)@.attributes,
                    dict_attributes(dict_view(dict@)),
                    dict_names(dict_view(dict@)),
                ),
                ..old(self)@
            }),
            r is Err ==> final(self)@ == old(self)@,
            !(forall|i: int| 0 <= i < dict@.len() ==> entry_reads(#[trigger] dict_view(dict@)[i])) ==> (r matches Err(e)
                && exists|i: int| 0 <= i < dict@.len() && !entry_reads(#[trigger] dict_view(dict@)[i]) && (forall|j: int|
                0 <= j < i ==> entry_reads(dict_view(dict@)[j])) && decoded_as(
                Err(e),
                dict@[i].0@,
                decode_outcome(standard_kinds(), dict@[i].0@, dict@[i].1@),
            )),
            r matches Err(e) ==> ((forall|i: int| 0 <= i < dict@.len() ==> entry_reads(
                #[trigger] dict_view(dict@)[i],
            )) ==> exists|k: Seq<char>| #[trigger] dict_attributes(dict_view(dict@)).contains_key(k)
                && !image_entry_fits(k, dict_attributes(dict_view(dict@))[k]) && is_wrong_kind(e, k)),
    {
        match attributes_from_pydict(dict) {
            Ok(m) => image_attributes_from_attributes(&mut self.attributes, &m),
            Err(e) => Err(e),
        }
    }

    /// The layers, in order.
    pub fn layers(&self) -> (r: &Vec<ExrLayer>)
        ensures
            layer_views(r@) == self@.layers,
    {
        &self.layers
    }

    /// Adds a layer after the others.
    pub fn with_layer(&mut self, layer: ExrLayer)
        ensures
            final(self)@ == (ImageModel { layers: old(self)@.layers.push(layer@), ..old(self)@ }),
    {
        self.layers.push(layer);
        assert(layer_views(self.layers@) =~= layer_views(old(self).layers@).push(layer@));
    }

    /// The image as the codec takes it. An image without layers is refused
    /// with `EmptyImage`. Every layer is converted (see
    /// `ExrLayer::to_codec_layer`); where one cannot be, the whole image is
    /// refused with the error of the first such layer, an incomplete one
    /// reported with its index and name. The display window takes the first
    /// layer's dimensions, which must fit `u32`.
    pub fn prepare_save(&self) -> (r: Result<CodecImage, ImageError>)
        ensures
            self@.layers.len() == 0 ==> r matches Err(ImageError::EmptyImage),
            self@.layers.len() > 0 ==> {
                let first_bad = exists|i: int| 0 <= i < self@.layers.len() && !layer_exports(
                    #[trigger] self@.layers[i],
                );
                let fits = self@.layers[0].width->0 <= u32::MAX && self@.layers[0].height->0 <= u32::MAX;
                &&& first_bad ==> (r matches Err(e) && exists|i: int| 0 <= i < self@.layers.len() && !layer_exports(
                    #[trigger] self@.layers[i],
                ) && (forall|j: int| 0 <= j < i ==> layer_exports(self@.layers[j])) && layer_error(
                    e,
                    i,
                    self@.layers[i],
                ))
                &&& !first_bad && !fits ==> (r matches Err(ImageError::CodecWriteError(_)))
                &&& !first_bad && fits ==> (r matches Ok(c) && {
                    &&& c.attributes@ == saved_attributes(self@.attributes, self@.layers[0])
                    &&& c.layers@.len() == self@.layers.len()
                    &&& forall|i: int| 0 <= i < c.layers@.len() ==> exported_as(
                        #[trigger] c.layers@[i],
                        self@.layers[i],
                    )
                })
            },
    {
        if self.layers.len() == 0 {
            return Err(ImageError::EmptyImage);
        }
        let mut out: Vec<CodecLayer> = Vec::new();
        let mut i: usize = 0;
        while i < self.layers.len()
            invariant
                i <= self.layers@.len(),
                out@.len() == i,
                forall|j: int| 0 <= j < i ==> layer_exports(#[trigger] self@.layers[j]),
                forall|j: int| 0 <= j < i ==> exported_as(#[trigger] out@[j], self@.layers[j]),
            decreases self.layers@.len() - i,
        {
            let layer = &self.layers[i];
            assert(self@.layers[i as int] == layer@);
            match layer.to_codec_layer() {
                Ok(c) => {
                    out.push(c);
                },
                Err(e) => {
                    if let ImageError::IncompleteLayer = e {
                        return Err(ImageError::IncompleteLayerAt { index: i, name: layer.name() });
                    }
                    return Err(e);
                },
            }
            i = i + 1;
        }
        let first = &self.layers[0];
        assert(self@.layers[0] == first@);
        let (w, h) = match (first.width(), first.height()) {
            (Some(w), Some(h)) => (w, h),
            _ => return Err(ImageError::IncompleteLayerAt { index: 0, name: first.name() }),
        };
        if w > 4294967295 || h > 4294967295 {
            return Err(ImageError::CodecWriteError(String::from_str("the first layer is too large for a display window")));
        }
        let attributes = ImageAttributes {
            display_window: IntegerBounds {
                position: self.attributes.display_window.position,
                size: (w as u32, h as u32),
            },
            pixel_aspect: self.attributes.pixel_aspect,
            chromaticities: self.attributes.chromaticities,
            time_code: self.attributes.time_code,
            other: self.attributes.other.copied(),
        };
        Ok(CodecImage { attributes, layers: out })
    }

    /// The image that the codec's decoded layers and attribute record make:
    /// each layer as `layer_from_exr` makes it, in the codec's order.
    pub fn from_decoded(attributes: ImageAttributes, layers: Vec<DecodedLayer>) -> (r: ExrImage)
        ensures
            r@.attributes == attributes@,
            r@.layers.len() == layers@.len(),
            forall|i: int| 0 <= i < layers@.len() ==> {
                &&& (#[trigger] r@.layers[i]).name == layers@[i].attributes@.layer_name
                &&& r@.layers[i].width == Some(layers@[i].width)
                &&& r@.layers[i].height == Some(layers@[i].height)
                &&& r@.layers[i].channels == channel_views(layers@[i].channels@)
                &&& r@.layers[i].attributes == crate::attributes::layer_attribute_map(layers@[i].attributes@)
            },
    {
        let mut layers = layers;
        let ghost given = layers@;
        let mut out: Vec<ExrLayer> = Vec::new();
        let mut rev: Vec<DecodedLayer> = Vec::new();
        while layers.len() > 0
            invariant
                rev@.len() + layers@.len() == given.len(),
                forall|j: int| 0 <= j < layers@.len() ==> layers@[j] == given[j],
                forall|j: int| 0 <= j < rev@.len() ==> rev@[j] == given[given.len() - 1 - j],
            decreases layers@.len(),
        {
            let d = layers.pop().unwrap();
            rev.push(d);
        }
        while rev.len() > 0
            invariant
                out@.len() + rev@.len() == given.len(),
                forall|j: int| 0 <= j < rev@.len() ==> rev@[j] == given[given.len() - 1 - j],
                forall|j: int| 0 <= j < out@.len() ==> {
                    &&& (#[trigger] out@[j])@.name == given[j].attributes@.layer_name
                    &&& out@[j]@.width == Some(given[j].width)
                    &&& out@[j]@.height == Some(given[j].height)
                    &&& out@[j]@.channels == channel_views(given[j].channels@)
                    &&& out@[j]@.attributes == crate::attributes::layer_attribute_map(given[j].attributes@)
                },
            decreases rev@.len(),
        {
            let d = rev.pop().unwrap();
            out.push(layer_from_exr(d));
        }
        ExrImage { layers: out, attributes }
    }
}

/// `loaded` is the image that `ExrImage::from_decoded` makes of the layers and
/// record of `c`, given back by the codec as they were handed to it.
pub open spec fn loaded_from(loaded: ImageModel, c: CodecImage) -> bool {
    &&& loaded.attributes == c.attributes@
    &&& loaded.layers.len() == c.layers@.len()
    &&& forall|i: int| 0 <= i < c.layers@.len() ==> {
        &&& (#[trigger] loaded.layers[i]).name == c.layers@[i].attributes@.layer_name
        &&& loaded.layers[i].width == Some(c.layers@[i].width)
        &&& loaded.layers[i].height == Some(c.layers@[i].height)
        &&& loaded.layers[i].channels == channel_views(c.layers@[i].channels@)
        &&& loaded.layers[i].attributes == layer_attribute_map(c.layers@[i].attributes@)
    }
}

/// Saving an image and loading it back, through a codec that gives back what
/// it was handed, keeps the number of layers and, for each layer, its name
/// where it has one, its dimensions, its channels with their samples (in name
/// order), and the value of each of its attributes (under the layer-name
/// attribute, its own name wins where it has one). The image's attribute
/// record comes back as it was, but for the size of the display window, which
/// the first layer gives.
pub proof fn lemma_save_load_round_trip(img: ImageModel, c: CodecImage, loaded: ImageModel, i: int, k: Seq<char>)
    requires
        0 <= i < img.layers.len(),
        forall|n: Seq<char>| #[trigger] img.layers[i].attributes.contains_key(n)
            <==> img.layers[i].attribute_names.contains(n),
        c.attributes@ == saved_attributes(img.attributes, img.layers[0]),
        c.layers@.len() == img.layers.len(),
        forall|j: int| 0 <= j < c.layers@.len() ==> exported_as(#[trigger] c.layers@[j], img.layers[j]),
        forall|j: int| 0 <= j < img.layers.len() ==> layer_exports(#[trigger] img.layers[j]),
        loaded_from(loaded, c),
        img.layers[i].attributes.contains_key(k),
        !(img.layers[i].name is Some && k == known_name_text(KnownName::LayerName)),
    ensures
        loaded.layers.len() == img.layers.len(),
        img.layers[i].name is Some ==> loaded.layers[i].name == img.layers[i].name,
        loaded.layers[i].width == img.layers[i].width,
        loaded.layers[i].height == img.layers[i].height,
        loaded.layers[i].channels.to_multiset() == img.layers[i].channels.to_multiset(),
        loaded.layers[i].attributes.contains_key(k),
        loaded.layers[i].attributes[k] == img.layers[i].attributes[k],
        loaded.attributes == saved_attributes(img.attributes, img.layers[0]),
{
    assert(exported_as(c.layers@[i], img.layers[i]));
    assert(layer_exports(img.layers[i]));
    assert(loaded.layers[i].name == c.layers@[i].attributes@.layer_name);
    lemma_codec_layer_keeps_layer(img.layers[i], c.layers@[i], k);
}

} // verus!
