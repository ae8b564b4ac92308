//! The colour model: opaque RGB triples with one byte per channel.

use vstd::prelude::*;

verus! {

/// An opaque colour. Two colours are equal exactly when their three channels are.
#[derive(Clone, Copy, Debug, PartialEq, Eq, Structural)]
pub struct Color {
    pub red: u8,
    pub green: u8,
    pub blue: u8,
}

/// Why a colour could not be built.
#[derive(Clone, Copy, Debug, PartialEq, Eq, Structural)]
pub enum ColorError {
    /// A channel value lies above 255.
    InvalidChannel,
}

/// Whether a channel value fits in one byte.
pub open spec fn channel_in_range(value: u32) -> bool {
    value <= 255
}

impl Color {
    /// Builds a colour from three channel values, rejecting any value above 255.
    pub fn new(red: u32, green: u32, blue: u32) -> (made: Result<Color, ColorError>)
        ensures
            channel_in_range(red) && channel_in_range(green) && channel_in_range(blue) ==> made
                == Ok::<Color, ColorError>(
                (Color { red: red as u8, green: green as u8, blue: blue as u8 }),
            ),
            !(channel_in_range(red) && channel_in_range(green) && channel_in_range(blue)) ==> made
                == Err::<Color, ColorError>(ColorError::InvalidChannel),
    {
        if red > 255 || green > 255 || blue > 255 {
            Err(ColorError::InvalidChannel)
        } else {
            Ok(Color { red: red as u8, green: green as u8, blue: blue as u8 })
        }
    }

    /// Black, the background of a freshly allocated canvas.
    pub fn black() -> (made: Color)
        ensures
            made == (Color { red: 0, green: 0, blue: 0 }),
    {
        Color { red: 0, green: 0, blue: 0 }
    }
}

} // verus!
