use vstd::prelude::*;
use crate::names::{Primary, TimeCodeField};
use crate::value::{Chromaticities, TimeCode};

verus! {

/// The chromaticities assumed where an image gives none: red (0.64, 0.33),
/// green (0.30, 0.60), blue (0.15, 0.06) and white (0.3127, 0.3290), as
/// binary32 bit patterns.
pub open spec fn default_chromaticities() -> Chromaticities {
    Chromaticities {
        red: (0x3f23d70a, 0x3ea8f5c3),
        green: (0x3e99999a, 0x3f19999a),
        blue: (0x3e19999a, 0x3d75c28f),
        white: (0x3ea01a37, 0x3ea872b0),
    }
}

/// The time code assumed where an image gives none: every number zero, every
/// flag unset.
pub open spec fn default_time_code() -> TimeCode {
    TimeCode {
        hours: 0,
        minutes: 0,
        seconds: 0,
        frame: 0,
        drop_frame: false,
        color_frame: false,
        field_phase: false,
        binary_group_flags: (false, false, false),
        binary_groups: (0, 0, 0, 0, 0, 0, 0, 0),
    }
}

/// The default chromaticities (see `default_chromaticities`).
pub fn standard_chromaticities() -> (r: Chromaticities)
    ensures
        r == default_chromaticities(),
{
    Chromaticities {
        red: (0x3f23d70a, 0x3ea8f5c3),
        green: (0x3e99999a, 0x3f19999a),
        blue: (0x3e19999a, 0x3d75c28f),
        white: (0x3ea01a37, 0x3ea872b0),
    }
}

/// The default time code (see `default_time_code`).
pub fn zero_time_code() -> (r: TimeCode)
    ensures
        r == default_time_code(),
{
    TimeCode {
        hours: 0,
        minutes: 0,
        seconds: 0,
        frame: 0,
        drop_frame: false,
        color_frame: false,
        field_phase: false,
        binary_group_flags: (false, false, false),
        binary_groups: (0, 0, 0, 0, 0, 0, 0, 0),
    }
}

/// The chromaticities held, or the defaults where there are none.
pub open spec fn chromaticities_or_default(c: Option<Chromaticities>) -> Chromaticities {
    match c {
        Some(c) => c,
        None => default_chromaticities(),
    }
}

/// The time code held, or the default where there is none.
pub open spec fn time_code_or_default(t: Option<TimeCode>) -> TimeCode {
    match t {
        Some(t) => t,
        None => default_time_code(),
    }
}

/// Returns the chromaticities in `slot`, first storing the defaults there
/// where it is empty.
pub fn chromaticities_or_init(slot: &mut Option<Chromaticities>) -> (r: Chromaticities)
    ensures
        r == chromaticities_or_default(*old(slot)),
        *final(slot) == Some(r),
{
    match *slot {
        Some(c) => c,
        None => {
            let c = standard_chromaticities();
            *slot = Some(c);
            c
        },
    }
}

/// Returns the time code in `slot`, first storing the default there where it
/// is empty.
pub fn time_code_or_init(slot: &mut Option<TimeCode>) -> (r: TimeCode)
    ensures
        r == time_code_or_default(*old(slot)),
        *final(slot) == Some(r),
{
    match *slot {
        Some(t) => t,
        None => {
            let t = zero_time_code();
            *slot = Some(t);
            t
        },
    }
}

/// One coordinate of one point: its y coordinate where `y` holds, else its x.
pub open spec fn coordinate(c: Chromaticities, p: Primary, y: bool) -> u32 {
    let point = match p {
        Primary::Red => c.red,
        Primary::Green => c.green,
        Primary::Blue => c.blue,
        Primary::White => c.white,
    };
    if y { point.1 } else { point.0 }
}

/// `c` with one coordinate of one point replaced by `bits`.
pub open spec fn with_coordinate(c: Chromaticities, p: Primary, y: bool, bits: u32) -> Chromaticities {
    let point = match p {
        Primary::Red => c.red,
        Primary::Green => c.green,
        Primary::Blue => c.blue,
        Primary::White => c.white,
    };
    let moved = if y { (point.0, bits) } else { (bits, point.1) };
    match p {
        Primary::Red => Chromaticities { red: moved, ..c },
        Primary::Green => Chromaticities { green: moved, ..c },
        Primary::Blue => Chromaticities { blue: moved, ..c },
        Primary::White => Chromaticities { white: moved, ..c },
    }
}

/// Replaces one coordinate of one point (see `with_coordinate`).
pub fn set_coordinate(c: &mut Chromaticities, p: Primary, y: bool, bits: u32)
    ensures
        *final(c) == with_coordinate(*old(c), p, y, bits),
{
    match (p, y) {
        (Primary::Red, false) => c.red.0 = bits,
        (Primary::Red, true) => c.red.1 = bits,
        (Primary::Green, false) => c.green.0 = bits,
        (Primary::Green, true) => c.green.1 = bits,
        (Primary::Blue, false) => c.blue.0 = bits,
        (Primary::Blue, true) => c.blue.1 = bits,
        (Primary::White, false) => c.white.0 = bits,
        (Primary::White, true) => c.white.1 = bits,
    }
}

/// One number of a time code.
pub open spec fn time_code_field(t: TimeCode, f: TimeCodeField) -> u8 {
    match f {
        TimeCodeField::Hours => t.hours,
        TimeCodeField::Minutes => t.minutes,
        TimeCodeField::Seconds => t.seconds,
        TimeCodeField::Frame => t.frame,
    }
}

/// `t` with one number replaced by `v`.
pub open spec fn with_time_code_field(t: TimeCode, f: TimeCodeField, v: u8) -> TimeCode {
    match f {
        TimeCodeField::Hours => TimeCode { hours: v, ..t },
        TimeCodeField::Minutes => TimeCode { minutes: v, ..t },
        TimeCodeField::Seconds => TimeCode { seconds: v, ..t },
        TimeCodeField::Frame => TimeCode { frame: v, ..t },
    }
}

/// Replaces one number of a time code (see `with_time_code_field`).
pub fn set_time_code_field(t: &mut TimeCode, f: TimeCodeField, v: u8)
    ensures
        *final(t) == with_time_code_field(*old(t), f, v),
{
    match f {
        TimeCodeField::Hours => t.hours = v,
        TimeCodeField::Minutes => t.minutes = v,
        TimeCodeField::Seconds => t.seconds = v,
        TimeCodeField::Frame => t.frame = v,
    }
}

} // verus!
