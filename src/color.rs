use colors_transform::{Color as ColorSpace, Rgb};
use vstd::prelude::*;

verus! {

/// An 8-bit RGB color.
#[derive(Clone, Copy, PartialEq, Eq, Debug, Default, Structural)]
pub struct Color {
    pub r: u8,
    pub g: u8,
    pub b: u8,
}

/// The color `c` with its HSL lightness moved by `amount` percentage points.
pub uninterp spec fn lightened(c: Color, amount: int) -> Color;

/// The color `c` with its HSL lightness set to `lightness` percent.
pub uninterp spec fn relit(c: Color, lightness: int) -> Color;

/// Relies on `colors_transform::Rgb::lighten`, which depends on the color and
/// the amount alone.
#[verifier::external_body]
pub(crate) fn lighten(c: Color, amount: i16) -> (r: Color)
    ensures
        r == lightened(c, amount as int),
{
    let rgb = Rgb::from(c.r.into(), c.g.into(), c.b.into()).lighten(amount.into());
    Color { r: rgb.get_red() as u8, g: rgb.get_green() as u8, b: rgb.get_blue() as u8 }
}

/// Relies on `colors_transform::Rgb::set_lightness`, which depends on the color
/// and the lightness alone.
#[verifier::external_body]
pub(crate) fn set_lightness(c: Color, lightness: u8) -> (r: Color)
    ensures
        r == relit(c, lightness as int),
{
    let rgb = Rgb::from(c.r.into(), c.g.into(), c.b.into()).set_lightness(lightness.into());
    Color { r: rgb.get_red() as u8, g: rgb.get_green() as u8, b: rgb.get_blue() as u8 }
}

} // verus!
