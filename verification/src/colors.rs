use vstd::prelude::*;

verus! {

/// A 24-bit colour. Entities and log entries carry one for whoever draws
/// them; nothing in the simulation depends on its value.
#[derive(Clone, Copy, Debug, PartialEq, Eq, Structural)]
pub struct Color {
    pub r: u8,
    pub g: u8,
    pub b: u8,
}

#[verifier::allow_in_spec]
pub fn white() -> Color
    returns
        (Color { r: 255, g: 255, b: 255 }),
{
    Color { r: 255, g: 255, b: 255 }
}

#[verifier::allow_in_spec]
pub fn red() -> Color
    returns
        (Color { r: 255, g: 0, b: 0 }),
{
    Color { r: 255, g: 0, b: 0 }
}

#[verifier::allow_in_spec]
pub fn green() -> Color
    returns
        (Color { r: 0, g: 255, b: 0 }),
{
    Color { r: 0, g: 255, b: 0 }
}

#[verifier::allow_in_spec]
pub fn yellow() -> Color
    returns
        (Color { r: 255, g: 255, b: 0 }),
{
    Color { r: 255, g: 255, b: 0 }
}

#[verifier::allow_in_spec]
pub fn orange() -> Color
    returns
        (Color { r: 255, g: 127, b: 0 }),
{
    Color { r: 255, g: 127, b: 0 }
}

#[verifier::allow_in_spec]
pub fn violet() -> Color
    returns
        (Color { r: 127, g: 0, b: 255 }),
{
    Color { r: 127, g: 0, b: 255 }
}

#[verifier::allow_in_spec]
pub fn sky() -> Color
    returns
        (Color { r: 0, g: 191, b: 255 }),
{
    Color { r: 0, g: 191, b: 255 }
}

#[verifier::allow_in_spec]
pub fn light_violet() -> Color
    returns
        (Color { r: 159, g: 63, b: 255 }),
{
    Color { r: 159, g: 63, b: 255 }
}

#[verifier::allow_in_spec]
pub fn light_blue() -> Color
    returns
        (Color { r: 63, g: 63, b: 255 }),
{
    Color { r: 63, g: 63, b: 255 }
}

#[verifier::allow_in_spec]
pub fn light_cyan() -> Color
    returns
        (Color { r: 63, g: 255, b: 255 }),
{
    Color { r: 63, g: 255, b: 255 }
}

#[verifier::allow_in_spec]
pub fn light_green() -> Color
    returns
        (Color { r: 63, g: 255, b: 63 }),
{
    Color { r: 63, g: 255, b: 63 }
}

#[verifier::allow_in_spec]
pub fn light_yellow() -> Color
    returns
        (Color { r: 255, g: 255, b: 63 }),
{
    Color { r: 255, g: 255, b: 63 }
}

#[verifier::allow_in_spec]
pub fn dark_red() -> Color
    returns
        (Color { r: 191, g: 0, b: 0 }),
{
    Color { r: 191, g: 0, b: 0 }
}

#[verifier::allow_in_spec]
pub fn desaturated_green() -> Color
    returns
        (Color { r: 63, g: 127, b: 63 }),
{
    Color { r: 63, g: 127, b: 63 }
}

#[verifier::allow_in_spec]
pub fn darker_green() -> Color
    returns
        (Color { r: 0, g: 127, b: 0 }),
{
    Color { r: 0, g: 127, b: 0 }
}

#[verifier::allow_in_spec]
pub fn darker_orange() -> Color
    returns
        (Color { r: 127, g: 63, b: 0 }),
{
    Color { r: 127, g: 63, b: 0 }
}

#[verifier::allow_in_spec]
pub fn darkest_orange() -> Color
    returns
        (Color { r: 63, g: 31, b: 0 }),
{
    Color { r: 63, g: 31, b: 0 }
}

} // verus!
