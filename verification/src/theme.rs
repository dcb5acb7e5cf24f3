//! Lemon Fresh theme tokens (palette v2, light theme).
//!
//! The single source of the brand and chrome colors shared by the HUD and
//! the menus. Colors are 8-bit sRGB channels with straight alpha, in the
//! order red, green, blue, alpha; renderers that take channels in `0..=1`
//! divide by 255.
use vstd::prelude::*;

pub mod brand;

verus! {

/// The color `c` with its alpha channel replaced by `a` (faint variants).
pub open spec fn alpha_spec(c: [u8; 4], a: u8) -> Seq<u8> {
    seq![c[0], c[1], c[2], a]
}

/// Overrides the alpha channel of a theme color.
pub fn alpha(c: [u8; 4], a: u8) -> (r: [u8; 4])
    ensures
        r@ == alpha_spec(c, a),
        r[0] == c[0] && r[1] == c[1] && r[2] == c[2] && r[3] == a,
{
    let r = [c[0], c[1], c[2], a];
    assert(r@ =~= alpha_spec(c, a));
    r
}

} // verus!
