//! Container style: the background of a container and its border.
use vstd::prelude::*;

verus! {

/// The border of a container; `H` is the caller's image handle.
#[derive(Debug, Clone, Copy)]
pub enum Border<H> {
    /// Two solid lines without corners.
    DoubleCornerless { inner: [u8; 4], outer: [u8; 4] },
    /// Images for the corners and the edges.
    Image { corner: H, edge: H },
    /// No border.
    Nothing,
}

/// The background of a container.
#[derive(Debug, Clone, Copy)]
pub enum Style<H> {
    /// An image with a tint.
    Image(H, [u8; 4]),
    /// A solid color with a border.
    Color([u8; 4], Border<H>),
    /// No background.
    Nothing,
}

impl<H: Copy> Default for Style<H> {
    fn default() -> (s: Self)
        ensures
            s is Nothing,
    {
        Style::Nothing
    }
}

impl<H: Copy> Style<H> {
    /// An image background whose colors are not modified.
    pub fn image(image: H) -> (s: Self)
        ensures
            s == Style::Image(image, crate::style::button::WHITE),
    {
        Style::Image(image, crate::style::button::WHITE)
    }

    /// A color background without border.
    pub fn color(color: [u8; 4]) -> (s: Self)
        ensures
            s == Style::<H>::Color(color, Border::Nothing),
    {
        Style::Color(color, Border::Nothing)
    }

    /// The standard light menu surface, without border.
    pub fn panel() -> (s: Self)
        ensures
            s == Style::<H>::Color(crate::theme::brand::PANEL_BG, Border::Nothing),
    {
        Self::color(crate::theme::brand::PANEL_BG)
    }

    /// The alternate light surface of secondary or pressed regions.
    pub fn panel_alt() -> (s: Self)
        ensures
            s == Style::<H>::Color(crate::theme::brand::PANEL_BG_ALT, Border::Nothing),
    {
        Self::color(crate::theme::brand::PANEL_BG_ALT)
    }

    /// The standard menu surface with the shared frame: panel fill inside,
    /// amber outside.
    pub fn panel_with_frame() -> (s: Self)
        ensures
            s == Style::<H>::Color(
                crate::theme::brand::PANEL_BG,
                Border::DoubleCornerless {
                    inner: crate::theme::brand::PANEL_FILL,
                    outer: crate::theme::brand::FRAME,
                },
            ),
    {
        Self::color_with_double_cornerless_border(
            crate::theme::brand::PANEL_BG,
            crate::theme::brand::PANEL_FILL,
            crate::theme::brand::FRAME,
        )
    }

    /// The light translucent surface over menu artwork: the panel background
    /// at 90% alpha.
    pub fn panel_overlay() -> (s: Self)
        ensures
            s matches Style::Color(c, Border::Nothing) && c@ == crate::theme::alpha_spec(
                crate::theme::brand::PANEL_BG,
                230,
            ),
    {
        Self::color(crate::theme::alpha(crate::theme::brand::PANEL_BG, 230))
    }

    /// A color background with a cornerless double border.
    pub fn color_with_double_cornerless_border(color: [u8; 4], inner: [u8; 4], outer: [u8; 4]) -> (s:
        Self)
        ensures
            s == Style::<H>::Color(color, Border::DoubleCornerless { inner, outer }),
    {
        Style::Color(color, Border::DoubleCornerless { inner, outer })
    }

    /// A color background with image borders whose corners are inset.
    pub fn color_with_image_border(color: [u8; 4], corner: H, edge: H) -> (s: Self)
        ensures
            s == Style::Color(color, Border::Image { corner, edge }),
    {
        Style::Color(color, Border::Image { corner, edge })
    }
}

} // verus!
