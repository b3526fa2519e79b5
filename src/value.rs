use vstd::prelude::*;

verus! {

/// A rectangle on the integer pixel grid: its corner and its extent.
#[derive(Clone, Copy, Debug, PartialEq, Eq)]
pub struct IntegerBounds {
    pub position: (i32, i32),
    pub size: (u32, u32),
}

/// The CIE x,y coordinates of the three primaries and the white point.
/// Each coordinate is held as the bit pattern of an IEEE-754 binary32 number.
#[derive(Clone, Copy, Debug, PartialEq, Eq)]
pub struct Chromaticities {
    pub red: (u32, u32),
    pub green: (u32, u32),
    pub blue: (u32, u32),
    pub white: (u32, u32),
}

/// An SMPTE time code with its flag bits and user-defined binary groups.
#[derive(Clone, Copy, Debug, PartialEq, Eq)]
pub struct TimeCode {
    pub hours: u8,
    pub minutes: u8,
    pub seconds: u8,
    pub frame: u8,
    pub drop_frame: bool,
    pub color_frame: bool,
    pub field_phase: bool,
    pub binary_group_flags: (bool, bool, bool),
    pub binary_groups: (u8, u8, u8, u8, u8, u8, u8, u8),
}

/// The value of one attribute. Floating-point values are held as their IEEE-754
/// bit patterns, so that they are carried bit for bit.
#[derive(Clone, Debug, PartialEq)]
pub enum AttributeValue {
    Int32(i32),
    Float32(u32),
    Float64(u64),
    Text(String),
    IntegerBounds(IntegerBounds),
    Chromaticities(Chromaticities),
    TimeCode(TimeCode),
    /// An attribute of a kind that the library does not interpret: the name of
    /// its kind and its serialized bytes, kept as they are.
    Other { kind: String, bytes: Vec<u8> },
}

/// What an attribute value denotes, with text and bytes as sequences.
pub enum ValueModel {
    Int32(i32),
    Float32(u32),
    Float64(u64),
    Text(Seq<char>),
    IntegerBounds(IntegerBounds),
    Chromaticities(Chromaticities),
    TimeCode(TimeCode),
    Other { kind: Seq<char>, bytes: Seq<u8> },
}

impl View for AttributeValue {
    type V = ValueModel;

    open spec fn view(&self) -> ValueModel {
        match self {
            AttributeValue::Int32(v) => ValueModel::Int32(*v),
            AttributeValue::Float32(v) => ValueModel::Float32(*v),
            AttributeValue::Float64(v) => ValueModel::Float64(*v),
            AttributeValue::Text(s) => ValueModel::Text(s@),
            AttributeValue::IntegerBounds(b) => ValueModel::IntegerBounds(*b),
            AttributeValue::Chromaticities(c) => ValueModel::Chromaticities(*c),
            AttributeValue::TimeCode(t) => ValueModel::TimeCode(*t),
            AttributeValue::Other { kind, bytes } => ValueModel::Other { kind: kind@, bytes: bytes@ },
        }
    }
}

/// A value as the host's dynamic dictionaries hold it.
#[derive(Clone, Debug, PartialEq)]
pub enum HostValue {
    Int(i64),
    /// A floating-point number, as the bit pattern of an IEEE-754 binary32 number.
    Float(u32),
    Text(String),
    /// Any other host object, given by its string representation.
    Other(String),
}

/// What a host value denotes, with text as sequences.
pub enum HostModel {
    Int(i64),
    Float(u32),
    Text(Seq<char>),
    Other(Seq<char>),
}

impl View for HostValue {
    type V = HostModel;

    open spec fn view(&self) -> HostModel {
        match self {
            HostValue::Int(v) => HostModel::Int(*v),
            HostValue::Float(v) => HostModel::Float(*v),
            HostValue::Text(s) => HostModel::Text(s@),
            HostValue::Other(s) => HostModel::Other(s@),
        }
    }
}

/// Copies a byte vector element by element.
pub fn copy_bytes(b: &Vec<u8>) -> (r: Vec<u8>)
    ensures
        r@ == b@,
{
    let mut r: Vec<u8> = Vec::new();
    let mut i: usize = 0;
    while i < b.len()
        invariant
            i <= b.len(),
            r@ == b@.subrange(0, i as int),
        decreases b.len() - i,
    {
        r.push(b[i]);
        i = i + 1;
    }
    assert(r@ =~= b@);
    r
}

impl AttributeValue {
    /// A copy of this value that denotes the same.
    pub fn copied(&self) -> (r: AttributeValue)
        ensures
            r@ == self@,
    {
        match self {
            AttributeValue::Int32(v) => AttributeValue::Int32(*v),
            AttributeValue::Float32(v) => AttributeValue::Float32(*v),
            AttributeValue::Float64(v) => AttributeValue::Float64(*v),
            AttributeValue::Text(s) => AttributeValue::Text(s.clone()),
            AttributeValue::IntegerBounds(b) => AttributeValue::IntegerBounds(*b),
            AttributeValue::Chromaticities(c) => AttributeValue::Chromaticities(*c),
            AttributeValue::TimeCode(t) => AttributeValue::TimeCode(*t),
            AttributeValue::Other { kind, bytes } => AttributeValue::Other {
                kind: kind.clone(),
                bytes: copy_bytes(bytes),
            },
        }
    }
}

impl HostValue {
    /// A copy of this value that denotes the same.
    pub fn copied(&self) -> (r: HostValue)
        ensures
            r@ == self@,
    {
        match self {
            HostValue::Int(v) => HostValue::Int(*v),
            HostValue::Float(v) => HostValue::Float(*v),
            HostValue::Text(s) => HostValue::Text(s.clone()),
            HostValue::Other(s) => HostValue::Other(s.clone()),
        }
    }
}

} // verus!
