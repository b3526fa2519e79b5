use vstd::prelude::*;
use crate::attribute_map::same_text;

verus! {

/// One of the four points of a set of chromaticities.
#[derive(Clone, Copy, Debug, PartialEq, Eq, Structural)]
pub enum Primary {
    Red,
    Green,
    Blue,
    White,
}

/// One of the numbers of a time code.
#[derive(Clone, Copy, Debug, PartialEq, Eq, Structural)]
pub enum TimeCodeField {
    Hours,
    Minutes,
    Seconds,
    Frame,
}

/// An attribute name that has dedicated storage in the image or layer records.
/// `Chromaticity(p, y)` names the x coordinate of point `p`, or its y
/// coordinate where `y` holds; `TimeCode(f)` names one number of the time code.
#[derive(Clone, Copy, Debug, PartialEq, Eq, Structural)]
pub enum KnownName {
    DisplayWindow,
    PixelAspectRatio,
    ScreenWindowWidth,
    UtcOffset,
    LayerName,
    Owner,
    Chromaticity(Primary, bool),
    TimeCode(TimeCodeField),
}

/// The known name that `key` spells, if any.
pub open spec fn known_name(key: Seq<char>) -> Option<KnownName> {
    if key == "display_window"@ {
        Some(KnownName::DisplayWindow)
    } else if key == "pixel_aspect_ratio"@ {
        Some(KnownName::PixelAspectRatio)
    } else if key == "screen_window_width"@ {
        Some(KnownName::ScreenWindowWidth)
    } else if key == "utc_offset"@ {
        Some(KnownName::UtcOffset)
    } else if key == "layer_name"@ {
        Some(KnownName::LayerName)
    } else if key == "owner"@ {
        Some(KnownName::Owner)
    } else if key == "chromaticities.red.0"@ {
        Some(KnownName::Chromaticity(Primary::Red, false))
    } else if key == "chromaticities.red.1"@ {
        Some(KnownName::Chromaticity(Primary::Red, true))
    } else if key == "chromaticities.green.0"@ {
        Some(KnownName::Chromaticity(Primary::Green, false))
    } else if key == "chromaticities.green.1"@ {
        Some(KnownName::Chromaticity(Primary::Green, true))
    } else if key == "chromaticities.blue.0"@ {
        Some(KnownName::Chromaticity(Primary::Blue, false))
    } else if key == "chromaticities.blue.1"@ {
        Some(KnownName::Chromaticity(Primary::Blue, true))
    } else if key == "chromaticities.white.0"@ {
        Some(KnownName::Chromaticity(Primary::White, false))
    } else if key == "chromaticities.white.1"@ {
        Some(KnownName::Chromaticity(Primary::White, true))
    } else if key == "time_code.hours"@ {
        Some(KnownName::TimeCode(TimeCodeField::Hours))
    } else if key == "time_code.minutes"@ {
        Some(KnownName::TimeCode(TimeCodeField::Minutes))
    } else if key == "time_code.seconds"@ {
        Some(KnownName::TimeCode(TimeCodeField::Seconds))
    } else if key == "time_code.frame"@ {
        Some(KnownName::TimeCode(TimeCodeField::Frame))
    } else {
        None
    }
}

/// How a known name is spelled.
pub open spec fn known_name_text(n: KnownName) -> Seq<char> {
    match n {
        KnownName::DisplayWindow => "display_window"@,
        KnownName::PixelAspectRatio => "pixel_aspect_ratio"@,
        KnownName::ScreenWindowWidth => "screen_window_width"@,
        KnownName::UtcOffset => "utc_offset"@,
        KnownName::LayerName => "layer_name"@,
        KnownName::Owner => "owner"@,
        KnownName::Chromaticity(p, y) => match (p, y) {
            (Primary::Red, false) => "chromaticities.red.0"@,
            (Primary::Red, true) => "chromaticities.red.1"@,
            (Primary::Green, false) => "chromaticities.green.0"@,
            (Primary::Green, true) => "chromaticities.green.1"@,
            (Primary::Blue, false) => "chromaticities.blue.0"@,
            (Primary::Blue, true) => "chromaticities.blue.1"@,
            (Primary::White, false) => "chromaticities.white.0"@,
            (Primary::White, true) => "chromaticities.white.1"@,
        },
        KnownName::TimeCode(f) => match f {
            TimeCodeField::Hours => "time_code.hours"@,
            TimeCodeField::Minutes => "time_code.minutes"@,
            TimeCodeField::Seconds => "time_code.seconds"@,
            TimeCodeField::Frame => "time_code.frame"@,
        },
    }
}

/// The known name that `key` spells, if any.
pub fn classify_name(key: &str) -> (r: Option<KnownName>)
    ensures
        r == known_name(key@),
{
    if same_text(key, "display_window") {
        Some(KnownName::DisplayWindow)
    } else if same_text(key, "pixel_aspect_ratio") {
        Some(KnownName::PixelAspectRatio)
    } else if same_text(key, "screen_window_width") {
        Some(KnownName::ScreenWindowWidth)
    } else if same_text(key, "utc_offset") {
        Some(KnownName::UtcOffset)
    } else if same_text(key, "layer_name") {
        Some(KnownName::LayerName)
    } else if same_text(key, "owner") {
        Some(KnownName::Owner)
    } else if same_text(key, "chromaticities.red.0") {
        Some(KnownName::Chromaticity(Primary::Red, false))
    } else if same_text(key, "chromaticities.red.1") {
        Some(KnownName::Chromaticity(Primary::Red, true))
    } else if same_text(key, "chromaticities.green.0") {
        Some(KnownName::Chromaticity(Primary::Green, false))
    } else if same_text(key, "chromaticities.green.1") {
        Some(KnownName::Chromaticity(Primary::Green, true))
    } else if same_text(key, "chromaticities.blue.0") {
        Some(KnownName::Chromaticity(Primary::Blue, false))
    } else if same_text(key, "chromaticities.blue.1") {
        Some(KnownName::Chromaticity(Primary::Blue, true))
    } else if same_text(key, "chromaticities.white.0") {
        Some(KnownName::Chromaticity(Primary::White, false))
    } else if same_text(key, "chromaticities.white.1") {
        Some(KnownName::Chromaticity(Primary::White, true))
    } else if same_text(key, "time_code.hours") {
        Some(KnownName::TimeCode(TimeCodeField::Hours))
    } else if same_text(key, "time_code.minutes") {
        Some(KnownName::TimeCode(TimeCodeField::Minutes))
    } else if same_text(key, "time_code.seconds") {
        Some(KnownName::TimeCode(TimeCodeField::Seconds))
    } else if same_text(key, "time_code.frame") {
        Some(KnownName::TimeCode(TimeCodeField::Frame))
    } else {
        None
    }
}

/// How a known name is spelled.
pub fn name_text(n: KnownName) -> (r: &'static str)
    ensures
        r@ == known_name_text(n),
{
    match n {
        KnownName::DisplayWindow => "display_window",
        KnownName::PixelAspectRatio => "pixel_aspect_ratio",
        KnownName::ScreenWindowWidth => "screen_window_width",
        KnownName::UtcOffset => "utc_offset",
        KnownName::LayerName => "layer_name",
        KnownName::Owner => "owner",
        KnownName::Chromaticity(p, y) => match (p, y) {
            (Primary::Red, false) => "chromaticities.red.0",
            (Primary::Red, true) => "chromaticities.red.1",
            (Primary::Green, false) => "chromaticities.green.0",
            (Primary::Green, true) => "chromaticities.green.1",
            (Primary::Blue, false) => "chromaticities.blue.0",
            (Primary::Blue, true) => "chromaticities.blue.1",
            (Primary::White, false) => "chromaticities.white.0",
            (Primary::White, true) => "chromaticities.white.1",
        },
        KnownName::TimeCode(f) => match f {
            TimeCodeField::Hours => "time_code.hours",
            TimeCodeField::Minutes => "time_code.minutes",
            TimeCodeField::Seconds => "time_code.seconds",
            TimeCodeField::Frame => "time_code.frame",
        },
    }
}

/// Each known name is recognised from its spelling.
pub proof fn lemma_known_name_text(n: KnownName)
    ensures
        known_name(known_name_text(n)) == Some(n),
{
    reveal_strlit("display_window");
    reveal_strlit("pixel_aspect_ratio");
    reveal_strlit("screen_window_width");
    reveal_strlit("utc_offset");
    reveal_strlit("layer_name");
    reveal_strlit("owner");
    reveal_strlit("chromaticities.red.0");
    reveal_strlit("chromaticities.red.1");
    reveal_strlit("chromaticities.green.0");
    reveal_strlit("chromaticities.green.1");
    reveal_strlit("chromaticities.blue.0");
    reveal_strlit("chromaticities.blue.1");
    reveal_strlit("chromaticities.white.0");
    reveal_strlit("chromaticities.white.1");
    reveal_strlit("time_code.hours");
    reveal_strlit("time_code.minutes");
    reveal_strlit("time_code.seconds");
    reveal_strlit("time_code.frame");
    // Any two spellings differ in length or in their first, sixteenth or last
    // character.
    assert("display_window"@.len() == 14
        && "display_window"@[0] == 'd'
        && "display_window"@[13] == 'w');
    assert("pixel_aspect_ratio"@.len() == 18
        && "pixel_aspect_ratio"@[0] == 'p'
        && "pixel_aspect_ratio"@[15] == 't'
        && "pixel_aspect_ratio"@[17] == 'o');
    assert("screen_window_width"@.len() == 19
        && "screen_window_width"@[0] == 's'
        && "screen_window_width"@[15] == 'i'
        && "screen_window_width"@[18] == 'h');
    assert("utc_offset"@.len() == 10
        && "utc_offset"@[0] == 'u'
        && "utc_offset"@[9] == 't');
    assert("layer_name"@.len() == 10
        && "layer_name"@[0] == 'l'
        && "layer_name"@[9] == 'e');
    assert("owner"@.len() == 5
        && "owner"@[0] == 'o'
        && "owner"@[4] == 'r');
    assert("chromaticities.red.0"@.len() == 20
        && "chromaticities.red.0"@[0] == 'c'
        && "chromaticities.red.0"@[15] == 'r'
        && "chromaticities.red.0"@[19] == '0');
    assert("chromaticities.red.1"@.len() == 20
        && "chromaticities.red.1"@[0] == 'c'
        && "chromaticities.red.1"@[15] == 'r'
        && "chromaticities.red.1"@[19] == '1');
    assert("chromaticities.green.0"@.len() == 22
        && "chromaticities.green.0"@[0] == 'c'
        && "chromaticities.green.0"@[15] == 'g'
        && "chromaticities.green.0"@[21] == '0');
    assert("chromaticities.green.1"@.len() == 22
        && "chromaticities.green.1"@[0] == 'c'
        && "chromaticities.green.1"@[15] == 'g'
        && "chromaticities.green.1"@[21] == '1');
    assert("chromaticities.blue.0"@.len() == 21
        && "chromaticities.blue.0"@[0] == 'c'
        && "chromaticities.blue.0"@[15] == 'b'
        && "chromaticities.blue.0"@[20] == '0');
    assert("chromaticities.blue.1"@.len() == 21
        && "chromaticities.blue.1"@[0] == 'c'
        && "chromaticities.blue.1"@[15] == 'b'
        && "chromaticities.blue.1"@[20] == '1');
    assert("chromaticities.white.0"@.len() == 22
        && "chromaticities.white.0"@[0] == 'c'
        && "chromaticities.white.0"@[15] == 'w'
        && "chromaticities.white.0"@[21] == '0');
    assert("chromaticities.white.1"@.len() == 22
        && "chromaticities.white.1"@[0] == 'c'
        && "chromaticities.white.1"@[15] == 'w'
        && "chromaticities.white.1"@[21] == '1');
    assert("time_code.hours"@.len() == 15
        && "time_code.hours"@[0] == 't'
        && "time_code.hours"@[14] == 's');
    assert("time_code.minutes"@.len() == 17
        && "time_code.minutes"@[0] == 't'
        && "time_code.minutes"@[15] == 'e'
        && "time_code.minutes"@[16] == 's');
    assert("time_code.seconds"@.len() == 17
        && "time_code.seconds"@[0] == 't'
        && "time_code.seconds"@[15] == 'd'
        && "time_code.seconds"@[16] == 's');
    assert("time_code.frame"@.len() == 15
        && "time_code.frame"@[0] == 't'
        && "time_code.frame"@[14] == 'e');
}

} // verus!
