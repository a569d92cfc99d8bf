use vstd::prelude::*;

verus! {

/// One output pixel: an 8-bit value per red, green and blue channel.
#[derive(Clone, Copy, Debug, PartialEq, Eq, Structural)]
pub struct Rgb8 {
    pub red: u8,
    pub green: u8,
    pub blue: u8,
}

/// The 8-bit value of an accumulated channel level: levels above 255 are
/// capped at 255 and negative levels at 0, so nothing wraps.
pub open spec fn channel_of(level: i64) -> u8 {
    if level > 255 {
        255u8
    } else if level < 0 {
        0u8
    } else {
        level as u8
    }
}

/// Quantizes one accumulated channel level to 8 bits by clamping.
pub fn channel_from_level(level: i64) -> (r: u8)
    ensures
        r == channel_of(level),
{
    if level > 255 {
        255
    } else if level < 0 {
        0
    } else {
        level as u8
    }
}

impl Rgb8 {
    /// The pixel whose channels are the clamped 8-bit values of the given
    /// accumulated levels.
    pub fn from_levels(red: i64, green: i64, blue: i64) -> (r: Rgb8)
        ensures
            r.red == channel_of(red),
            r.green == channel_of(green),
            r.blue == channel_of(blue),
    {
        Rgb8 {
            red: channel_from_level(red),
            green: channel_from_level(green),
            blue: channel_from_level(blue),
        }
    }

    /// The background written where a primary ray hits nothing, unless the
    /// renderer is given another one: a dark blue-grey.
    pub fn default_background() -> (r: Rgb8)
        ensures
            r.red == 40 && r.green == 40 && r.blue == 60,
    {
        Rgb8 { red: 40, green: 40, blue: 60 }
    }
}

/// Clamping never wraps: a level above the channel maximum gives exactly the
/// maximum, a negative level gives zero, and any other level is kept.
pub proof fn lemma_channel_saturates(level: i64)
    ensures
        level > 255 ==> channel_of(level) == 255,
        level < 0 ==> channel_of(level) == 0,
        0 <= level <= 255 ==> channel_of(level) as i64 == level,
        channel_of(level) as i64 <= 255,
{
}

} // verus!
