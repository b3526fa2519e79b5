use vstd::prelude::*;
use crate::composite::{bounds_text, decode_bounds, encode_bounds, int_text, parse_bounds_text, append_int};
use crate::error::ImageError;
use crate::names::{classify_name, known_name, KnownName};
use crate::value::{AttributeValue, HostModel, HostValue, ValueModel};

verus! {

/// The kinds of attribute value that handlers exist for.
#[derive(Clone, Copy, Debug, PartialEq, Eq, Structural)]
pub enum AttributeKind {
    F32,
    I32,
    Text,
    IntegerBounds,
}

/// The name under which a kind is listed in error reports.
pub open spec fn kind_name(k: AttributeKind) -> Seq<char> {
    match k {
        AttributeKind::F32 => "f32"@,
        AttributeKind::I32 => "i32"@,
        AttributeKind::Text => "text"@,
        AttributeKind::IntegerBounds => "integer_bounds"@,
    }
}

/// The kind of value that a known name holds.
pub open spec fn kind_of(n: KnownName) -> AttributeKind {
    match n {
        KnownName::DisplayWindow => AttributeKind::IntegerBounds,
        KnownName::LayerName | KnownName::Owner => AttributeKind::Text,
        KnownName::TimeCode(_) => AttributeKind::I32,
        _ => AttributeKind::F32,
    }
}

/// The host value that a handler of kind `k` makes of `v`, if it takes `v`.
pub open spec fn encode_by(k: AttributeKind, v: ValueModel) -> Option<HostModel> {
    match (k, v) {
        (AttributeKind::F32, ValueModel::Float32(b)) => Some(HostModel::Float(b)),
        (AttributeKind::I32, ValueModel::Int32(i)) => Some(HostModel::Int(i as i64)),
        (AttributeKind::Text, ValueModel::Text(s)) => Some(HostModel::Text(s)),
        (AttributeKind::IntegerBounds, ValueModel::IntegerBounds(b)) => Some(
            HostModel::Text(bounds_text(b)),
        ),
        _ => None,
    }
}

/// The attribute value that a handler of kind `k` makes of `h`, if it takes `h`.
pub open spec fn decode_by(k: AttributeKind, h: HostModel) -> Option<ValueModel> {
    match (k, h) {
        (AttributeKind::F32, HostModel::Float(b)) => Some(ValueModel::Float32(b)),
        (AttributeKind::I32, HostModel::Int(i)) => if i32::MIN <= i <= i32::MAX {
            Some(ValueModel::Int32(i as i32))
        } else {
            None
        },
        (AttributeKind::Text, HostModel::Text(s)) => Some(ValueModel::Text(s)),
        (AttributeKind::IntegerBounds, HostModel::Text(s)) => match parse_bounds_text(s) {
            Some(b) => Some(ValueModel::IntegerBounds(b)),
            None => None,
        },
        _ => None,
    }
}

/// What the first handler in `kinds` that takes `v` makes of it.
pub open spec fn first_encoding(kinds: Seq<AttributeKind>, v: ValueModel) -> Option<HostModel>
    decreases kinds.len(),
{
    if kinds.len() == 0 {
        None
    } else {
        match encode_by(kinds[0], v) {
            Some(h) => Some(h),
            None => first_encoding(kinds.drop_first(), v),
        }
    }
}

/// What the first handler in `kinds` that takes `h` makes of it.
pub open spec fn first_decoding(kinds: Seq<AttributeKind>, h: HostModel) -> Option<ValueModel>
    decreases kinds.len(),
{
    if kinds.len() == 0 {
        None
    } else {
        match decode_by(kinds[0], h) {
            Some(v) => Some(v),
            None => first_decoding(kinds.drop_first(), h),
        }
    }
}

/// What a host value that no handler takes is kept as: a number as itself where
/// it can be, anything else as its text.
pub open spec fn fallback_value(h: HostModel) -> ValueModel {
    match h {
        HostModel::Float(b) => ValueModel::Float32(b),
        HostModel::Int(i) => ValueModel::Text(int_text(i as int)),
        HostModel::Text(s) => ValueModel::Text(s),
        HostModel::Other(s) => ValueModel::Text(s),
    }
}

/// The outcome of reading a host value under a name.
pub enum DecodeOutcome {
    Value(ValueModel),
    Unsupported(Seq<Seq<char>>),
    Malformed,
}

/// Reading `h` under `key`: a known name is read by the handler of its kind
/// alone; any other name by the first handler in `kinds` that takes the value,
/// or else by `fallback_value`.
pub open spec fn decode_outcome(kinds: Seq<AttributeKind>, key: Seq<char>, h: HostModel) -> DecodeOutcome {
    match known_name(key) {
        Some(n) => match decode_by(kind_of(n), h) {
            Some(v) => DecodeOutcome::Value(v),
            None => if kind_of(n) == AttributeKind::IntegerBounds && h is Text {
                DecodeOutcome::Malformed
            } else {
                DecodeOutcome::Unsupported(seq![kind_name(kind_of(n))])
            },
        },
        None => match first_decoding(kinds, h) {
            Some(v) => DecodeOutcome::Value(v),
            None => DecodeOutcome::Value(fallback_value(h)),
        },
    }
}

/// The views of a sequence of strings.
pub open spec fn texts_of(v: Seq<String>) -> Seq<Seq<char>> {
    v.map_values(|s: String| s@)
}

/// `e` reports that no handler of kinds `tried` takes the value under `key`.
pub open spec fn is_unsupported(e: ImageError, key: Seq<char>, tried: Seq<Seq<char>>) -> bool {
    e matches ImageError::UnsupportedAttributeKind { name, tried: t } && name@ == key && texts_of(
        t@,
    ) == tried
}

/// `e` reports a composite text under `key` without its four fields.
pub open spec fn is_malformed(e: ImageError, key: Seq<char>) -> bool {
    e matches ImageError::MalformedCompositeAttribute { name, expected_fields } && name@ == key
        && expected_fields == 4
}

/// `r` is what the outcome `o` of reading under `key` calls for.
pub open spec fn decoded_as(r: Result<AttributeValue, ImageError>, key: Seq<char>, o: DecodeOutcome) -> bool {
    match o {
        DecodeOutcome::Value(v) => r matches Ok(x) && x@ == v,
        DecodeOutcome::Unsupported(tried) => r matches Err(e) && is_unsupported(e, key, tried),
        DecodeOutcome::Malformed => r matches Err(e) && is_malformed(e, key),
    }
}

/// One entry of the codec registry: the handler of one kind of value.
#[derive(Clone, Copy, Debug, PartialEq, Eq)]
pub struct AttributeValueHandler {
    pub kind: AttributeKind,
}

impl AttributeValueHandler {
    /// The name of the handler's kind.
    pub fn name(&self) -> (r: &'static str)
        ensures
            r@ == kind_name(self.kind),
    {
        match self.kind {
            AttributeKind::F32 => "f32",
            AttributeKind::I32 => "i32",
            AttributeKind::Text => "text",
            AttributeKind::IntegerBounds => "integer_bounds",
        }
    }

    /// The host value that this handler makes of `v`, if it takes `v`.
    pub fn encode(&self, v: &AttributeValue) -> (r: Option<HostValue>)
        ensures
            match encode_by(self.kind, v@) {
                Some(h) => r matches Some(x) && x@ == h,
                None => r is None,
            },
    {
        match (self.kind, v) {
            (AttributeKind::F32, AttributeValue::Float32(b)) => Some(HostValue::Float(*b)),
            (AttributeKind::I32, AttributeValue::Int32(i)) => Some(HostValue::Int(*i as i64)),
            (AttributeKind::Text, AttributeValue::Text(s)) => Some(HostValue::Text(s.clone())),
            (AttributeKind::IntegerBounds, AttributeValue::IntegerBounds(b)) => Some(
                HostValue::Text(encode_bounds(b)),
            ),
            _ => None,
        }
    }

    /// The attribute value that this handler makes of `h`, if it takes `h`.
    pub fn decode(&self, h: &HostValue) -> (r: Option<AttributeValue>)
        ensures
            match decode_by(self.kind, h@) {
                Some(v) => r matches Some(x) && x@ == v,
                None => r is None,
            },
    {
        match (self.kind, h) {
            (AttributeKind::F32, HostValue::Float(b)) => Some(AttributeValue::Float32(*b)),
            (AttributeKind::I32, HostValue::Int(i)) => {
                if -2147483648 <= *i && *i <= 2147483647 {
                    Some(AttributeValue::Int32(*i as i32))
                } else {
                    None
                }
            },
            (AttributeKind::Text, HostValue::Text(s)) => Some(AttributeValue::Text(s.clone())),
            (AttributeKind::IntegerBounds, HostValue::Text(s)) => match decode_bounds(s.as_str()) {
                Some(b) => Some(AttributeValue::IntegerBounds(b)),
                None => None,
            },
            _ => None,
        }
    }
}

/// What a host value that no handler takes is kept as (see `fallback_value`).
pub fn fallback(h: &HostValue) -> (r: AttributeValue)
    ensures
        r@ == fallback_value(h@),
{
    match h {
        HostValue::Float(b) => AttributeValue::Float32(*b),
        HostValue::Int(i) => {
            let mut s = String::new();
            append_int(&mut s, *i);
            assert(s@ =~= int_text(*i as int));
            AttributeValue::Text(s)
        },
        HostValue::Text(s) => AttributeValue::Text(s.clone()),
        HostValue::Other(s) => AttributeValue::Text(s.clone()),
    }
}

/// An ordered list of handlers, one per kind. Where two handlers would take
/// the same value, the one registered first wins: the order is part of what a
/// registry means, not an accident of its making.
pub struct AttributeCodecRegistry {
    handlers: Vec<AttributeValueHandler>,
}

impl View for AttributeCodecRegistry {
    type V = Seq<AttributeKind>;

    closed spec fn view(&self) -> Seq<AttributeKind> {
        self.handlers@.map_values(|h: AttributeValueHandler| h.kind)
    }
}

impl AttributeCodecRegistry {
    /// A registry without handlers.
    pub fn new() -> (r: AttributeCodecRegistry)
        ensures
            r@ == Seq::<AttributeKind>::empty(),
    {
        let r = AttributeCodecRegistry { handlers: Vec::new() };
        assert(r@ =~= Seq::<AttributeKind>::empty());
        r
    }

    /// Adds a handler of kind `kind` after those registered before.
    pub fn register(&mut self, kind: AttributeKind)
        ensures
            final(self)@ == old(self)@.push(kind),
    {
        self.handlers.push(AttributeValueHandler { kind });
        assert(final(self)@ =~= old(self)@.push(kind));
    }

    /// The registry that the host boundary uses: `f32`, `i32`, `text`,
    /// `integer_bounds`, in this order. A text that is also a composite bounds
    /// text is therefore read as text wherever the name alone does not call
    /// for bounds.
    pub fn standard() -> (r: AttributeCodecRegistry)
        ensures
            r@ == standard_kinds(),
    {
        let mut r = AttributeCodecRegistry::new();
        r.register(AttributeKind::F32);
        r.register(AttributeKind::I32);
        r.register(AttributeKind::Text);
        r.register(AttributeKind::IntegerBounds);
        assert(r@ =~= standard_kinds());
        r
    }

    /// The names of the registered kinds, in order.
    pub fn kind_names(&self) -> (r: Vec<String>)
        ensures
            texts_of(r@) == self@.map_values(|k: AttributeKind| kind_name(k)),
    {
        let mut r: Vec<String> = Vec::new();
        let mut i: usize = 0;
        while i < self.handlers.len()
            invariant
                i <= self.handlers@.len(),
                r@.len() == i,
                forall|j: int| 0 <= j < i ==> (#[trigger] r@[j])@ == kind_name(self@[j]),
            decreases self.handlers@.len() - i,
        {
            let name = self.handlers[i].name();
            r.push(String::from_str(name));
            i = i + 1;
        }
        assert(texts_of(r@) =~= self@.map_values(|k: AttributeKind| kind_name(k)));
        r
    }

    /// Turns `value`, stored under `key`, into a host value: the first handler
    /// that takes it makes the result; where none does, the error names `key`
    /// and every registered kind.
    pub fn encode(&self, key: &str, value: &AttributeValue) -> (r: Result<HostValue, ImageError>)
        ensures
            match first_encoding(self@, value@) {
                Some(h) => r matches Ok(x) && x@ == h,
                None => r matches Err(e) && is_unsupported(
                    e,
                    key@,
                    self@.map_values(|k: AttributeKind| kind_name(k)),
                ),
            },
    {
        let mut i: usize = 0;
        assert(self@.subrange(0, self@.len() as int) =~= self@);
        while i < self.handlers.len()
            invariant
                i <= self.handlers@.len(),
                first_encoding(self@, value@) == first_encoding(self@.subrange(i as int, self@.len() as int), value@),
            decreases self.handlers@.len() - i,
        {
            proof {
                let rest = self@.subrange(i as int, self@.len() as int);
                assert(rest[0] == self.handlers@[i as int].kind);
                assert(rest.drop_first() =~= self@.subrange(i + 1, self@.len() as int));
            }
            match self.handlers[i].encode(value) {
                Some(h) => return Ok(h),
                None => {},
            }
            i = i + 1;
        }
        Err(ImageError::UnsupportedAttributeKind { name: String::from_str(key), tried: self.kind_names() })
    }

    /// Turns the host value `h`, stored under `key`, into an attribute value
    /// (see `decode_outcome`).
    pub fn decode(&self, key: &str, h: &HostValue) -> (r: Result<AttributeValue, ImageError>)
        ensures
            decoded_as(r, key@, decode_outcome(self@, key@, h@)),
    {
        match classify_name(key) {
            Some(n) => {
                let handler = AttributeValueHandler { kind: kind_for(n) };
                match handler.decode(h) {
                    Some(v) => Ok(v),
                    None => {
                        if handler.kind == AttributeKind::IntegerBounds && h.is_text() {
                            Err(ImageError::MalformedCompositeAttribute {
                                name: String::from_str(key),
                                expected_fields: 4,
                            })
                        } else {
                            let mut tried: Vec<String> = Vec::new();
                            tried.push(String::from_str(handler.name()));
                            assert(texts_of(tried@) =~= seq![kind_name(kind_of(n))]);
                            Err(ImageError::UnsupportedAttributeKind { name: String::from_str(key), tried })
                        }
                    },
                }
            },
            None => {
                let mut i: usize = 0;
                assert(self@.subrange(0, self@.len() as int) =~= self@);
                while i < self.handlers.len()
                    invariant
                        i <= self.handlers@.len(),
                        known_name(key@) is None,
                        first_decoding(self@, h@) == first_decoding(self@.subrange(i as int, self@.len() as int), h@),
                    decreases self.handlers@.len() - i,
                {
                    proof {
                        let rest = self@.subrange(i as int, self@.len() as int);
                        assert(rest.len() > 0);
                        assert(rest[0] == self.handlers@[i as int].kind);
                        assert(rest.drop_first() =~= self@.subrange(i + 1, self@.len() as int));
                    }
                    match self.handlers[i].decode(h) {
                        Some(v) => {
                            assert(first_decoding(self@.subrange(i as int, self@.len() as int), h@) == Some(v@));
                            return Ok(v);
                        },
                        None => {},
                    }
                    i = i + 1;
                }
                Ok(fallback(h))
            },
        }
    }
}

/// The kinds of the standard registry, in order.
pub open spec fn standard_kinds() -> Seq<AttributeKind> {
    seq![AttributeKind::F32, AttributeKind::I32, AttributeKind::Text, AttributeKind::IntegerBounds]
}

/// The kind of value that a known name holds.
pub fn kind_for(n: KnownName) -> (r: AttributeKind)
    ensures
        r == kind_of(n),
{
    match n {
        KnownName::DisplayWindow => AttributeKind::IntegerBounds,
        KnownName::LayerName | KnownName::Owner => AttributeKind::Text,
        KnownName::TimeCode(_) => AttributeKind::I32,
        _ => AttributeKind::F32,
    }
}

impl HostValue {
    /// Whether this is a text value.
    pub fn is_text(&self) -> (r: bool)
        ensures
            r == self@ is Text,
    {
        match self {
            HostValue::Text(_) => true,
            _ => false,
        }
    }
}

} // verus!
