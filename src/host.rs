use vstd::prelude::*;
use crate::attribute_map::AttributeMap;
use crate::error::ImageError;
use crate::registry::{
    decode_outcome, decoded_as, first_encoding, is_unsupported, kind_name, standard_kinds,
    AttributeCodecRegistry, AttributeKind, DecodeOutcome,
};
use crate::value::{AttributeValue, HostModel, HostValue, ValueModel};

verus! {

/// The names of the standard registry's kinds, in order.
pub open spec fn standard_kind_names() -> Seq<Seq<char>> {
    standard_kinds().map_values(|k: AttributeKind| kind_name(k))
}

/// Turns an attribute value stored under `key` into a host value, with the
/// standard registry.
pub fn to_python(key: &str, value: &AttributeValue) -> (r: Result<HostValue, ImageError>)
    ensures
        match first_encoding(standard_kinds(), value@) {
            Some(h) => r matches Ok(x) && x@ == h,
            None => r matches Err(e) && is_unsupported(e, key@, standard_kind_names()),
        },
{
    AttributeCodecRegistry::standard().encode(key, value)
}

/// Turns a host value stored under `key` into an attribute value, with the
/// standard registry.
pub fn from_python(key: &str, value: &HostValue) -> (r: Result<AttributeValue, ImageError>)
    ensures
        decoded_as(r, key@, decode_outcome(standard_kinds(), key@, value@)),
{
    AttributeCodecRegistry::standard().decode(key, value)
}

/// The views of a host dictionary's entries.
pub open spec fn dict_view(d: Seq<(String, HostValue)>) -> Seq<(Seq<char>, HostModel)> {
    d.map_values(|e: (String, HostValue)| (e.0@, e.1@))
}

/// Whether the entry `e` of a host dictionary reads as a value.
pub open spec fn entry_reads(e: (Seq<char>, HostModel)) -> bool {
    decode_outcome(standard_kinds(), e.0, e.1) is Value
}

/// The attribute map that the entries of a host dictionary give, each read by
/// `from_python`, a later entry replacing an earlier one of the same name.
pub open spec fn dict_attributes(d: Seq<(Seq<char>, HostModel)>) -> Map<Seq<char>, ValueModel>
    decreases d.len(),
{
    if d.len() == 0 {
        Map::empty()
    } else {
        let e = d.last();
        dict_attributes(d.drop_last()).insert(
            e.0,
            decode_outcome(standard_kinds(), e.0, e.1)->Value_0,
        )
    }
}

/// The names of the attribute map that the entries of a host dictionary give,
/// in the order of their first entries.
pub open spec fn dict_names(d: Seq<(Seq<char>, HostModel)>) -> Seq<Seq<char>>
    decreases d.len(),
{
    if d.len() == 0 {
        Seq::empty()
    } else if dict_attributes(d.drop_last()).contains_key(d.last().0) {
        dict_names(d.drop_last())
    } else {
        dict_names(d.drop_last()).push(d.last().0)
    }
}

/// The host dictionary of an attribute map, in the map's name order: each value
/// turned by `to_python`. Where a value cannot be turned, the error of the
/// first such name in that order.
pub fn pydict_from_attributes(attributes: &AttributeMap) -> (r: Result<Vec<(String, HostValue)>, ImageError>)
    ensures
        r is Ok <==> forall|k: Seq<char>| #[trigger] attributes@.contains_key(k) ==> first_encoding(
            standard_kinds(),
            attributes@[k],
        ) is Some,
        r matches Ok(d) ==> {
            &&& d@.len() == attributes.name_seq().len()
            &&& forall|i: int| 0 <= i < d@.len() ==> (#[trigger] d@[i]).0@ == attributes.name_seq()[i]
                && Some(d@[i].1@) == first_encoding(standard_kinds(), attributes@[attributes.name_seq()[i]])
        },
        r matches Err(e) ==> exists|i: int| 0 <= i < attributes.name_seq().len() && first_encoding(
            standard_kinds(),
            attributes@[#[trigger] attributes.name_seq()[i]],
        ) is None && (forall|j: int| 0 <= j < i ==> first_encoding(
            standard_kinds(),
            attributes@[#[trigger] attributes.name_seq()[j]],
        ) is Some) && is_unsupported(e, attributes.name_seq()[i], standard_kind_names()),
{
    let n = attributes.len();
    let mut d: Vec<(String, HostValue)> = Vec::new();
    let mut i: usize = 0;
    while i < n
        invariant
            n == attributes.name_seq().len(),
            forall|k: Seq<char>| #[trigger] attributes@.contains_key(k) <==> attributes.name_seq().contains(k),
            i <= n,
            d@.len() == i,
            forall|j: int| 0 <= j < i ==> (#[trigger] d@[j]).0@ == attributes.name_seq()[j]
                && Some(d@[j].1@) == first_encoding(standard_kinds(), attributes@[attributes.name_seq()[j]]),
        decreases n - i,
    {
        let key = attributes.name_at(i);
        let value = attributes.value_at(i);
        match to_python(key.as_str(), value) {
            Ok(h) => {
                d.push((key.clone(), h));
            },
            Err(e) => {
                proof {
                    assert forall|j: int| 0 <= j < i implies first_encoding(
                        standard_kinds(),
                        attributes@[#[trigger] attributes.name_seq()[j]],
                    ) is Some by {
                        assert(Some(d@[j].1@) == first_encoding(standard_kinds(), attributes@[attributes.name_seq()[j]]));
                    }
                }
                return Err(e);
            },
        }
        i = i + 1;
    }
    proof {
        assert forall|k: Seq<char>| #[trigger] attributes@.contains_key(k) implies first_encoding(
            standard_kinds(),
            attributes@[k],
        ) is Some by {
            let j = choose|j: int| 0 <= j < n && attributes.name_seq()[j] == k;
            assert(d@[j].0@ == k);
        }
    }
    Ok(d)
}

/// The attribute map of a host dictionary (see `dict_attributes`). Where an
/// entry cannot be read, the error of the first such entry.
pub fn attributes_from_pydict(dict: &Vec<(String, HostValue)>) -> (r: Result<AttributeMap, ImageError>)
    ensures
        r is Ok <==> forall|i: int| 0 <= i < dict@.len() ==> entry_reads(#[trigger] dict_view(dict@)[i]),
        r matches Ok(m) ==> m@ == dict_attributes(dict_view(dict@)) && m.name_seq() == dict_names(
            dict_view(dict@),
        ),
        r matches Err(e) ==> exists|i: int| 0 <= i < dict@.len() && !entry_reads(
            #[trigger] dict_view(dict@)[i],
        ) && (forall|j: int| 0 <= j < i ==> entry_reads(dict_view(dict@)[j])) && decoded_as(
            Err(e),
            dict@[i].0@,
            decode_outcome(standard_kinds(), dict@[i].0@, dict@[i].1@),
        ),
{
    let mut m = AttributeMap::new();
    let mut i: usize = 0;
    while i < dict.len()
        invariant
            i <= dict@.len(),
            forall|j: int| 0 <= j < i ==> entry_reads(#[trigger] dict_view(dict@)[j]),
            m@ == dict_attributes(dict_view(dict@).subrange(0, i as int)),
            m.name_seq() == dict_names(dict_view(dict@).subrange(0, i as int)),
        decreases dict@.len() - i,
    {
        let entry = &dict[i];
        let ghost o = decode_outcome(standard_kinds(), entry.0@, entry.1@);
        assert(dict_view(dict@)[i as int] == (entry.0@, entry.1@));
        match from_python(entry.0.as_str(), &entry.1) {
            Ok(v) => {
                m.insert(entry.0.clone(), v);
                proof {
                    let pre = dict_view(dict@).subrange(0, i as int);
                    let post = dict_view(dict@).subrange(0, i + 1);
                    assert(post.drop_last() =~= pre);
                    assert(post.last() == (entry.0@, entry.1@));
                }
            },
            Err(e) => {
                return Err(e);
            },
        }
        i = i + 1;
    }
    assert(dict_view(dict@).subrange(0, i as int) =~= dict_view(dict@));
    Ok(m)
}

/// A text stored under a name without dedicated storage comes back unchanged
/// from `to_python` followed by `from_python`.
pub proof fn lemma_unknown_text_round_trip(key: Seq<char>, text: Seq<char>)
    requires
        crate::names::known_name(key) is None,
    ensures
        first_encoding(standard_kinds(), ValueModel::Text(text)) == Some(HostModel::Text(text)),
        decode_outcome(standard_kinds(), key, HostModel::Text(text)) == DecodeOutcome::Value(
            ValueModel::Text(text),
        ),
{
    reveal_with_fuel(first_encoding, 4);
    reveal_with_fuel(crate::registry::first_decoding, 4);
    let k = standard_kinds();
    assert(k.drop_first() =~= seq![AttributeKind::I32, AttributeKind::Text, AttributeKind::IntegerBounds]);
    assert(k.drop_first().drop_first() =~= seq![AttributeKind::Text, AttributeKind::IntegerBounds]);
}

/// A bounds record stored as the display window comes back unchanged from
/// `to_python` followed by `from_python`.
pub proof fn lemma_display_window_round_trip(b: crate::value::IntegerBounds)
    ensures
        first_encoding(standard_kinds(), ValueModel::IntegerBounds(b)) == Some(
            HostModel::Text(crate::composite::bounds_text(b)),
        ),
        decode_outcome(
            standard_kinds(),
            crate::names::known_name_text(crate::names::KnownName::DisplayWindow),
            HostModel::Text(crate::composite::bounds_text(b)),
        ) == DecodeOutcome::Value(ValueModel::IntegerBounds(b)),
{
    reveal_with_fuel(first_encoding, 5);
    let k = standard_kinds();
    assert(k.drop_first() =~= seq![AttributeKind::I32, AttributeKind::Text, AttributeKind::IntegerBounds]);
    assert(k.drop_first().drop_first() =~= seq![AttributeKind::Text, AttributeKind::IntegerBounds]);
    assert(k.drop_first().drop_first().drop_first() =~= seq![AttributeKind::IntegerBounds]);
    crate::names::lemma_known_name_text(crate::names::KnownName::DisplayWindow);
    crate::composite::lemma_bounds_text_round_trip(b);
}

} // verus!
