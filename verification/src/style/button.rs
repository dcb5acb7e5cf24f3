//! Button style: the background image of each button state with its tint,
//! and the text colors.
use vstd::prelude::*;

verus! {

/// Opaque white: an image drawn with it keeps its own colors.
pub const WHITE: [u8; 4] = [255, 255, 255, 255];

/// The background images of a button's states and their tint; `H` is the
/// caller's image handle.
#[derive(Debug, Clone, Copy)]
pub struct Background<H> {
    pub default: H,
    pub hover: H,
    pub press: H,
    pub color: [u8; 4],
}

/// One image for every state, untinted.
pub open spec fn background_of<H>(image: H) -> Background<H> {
    Background { default: image, hover: image, press: image, color: WHITE }
}

/// The style of a button; all buttons with a background draw an image.
#[derive(Debug, Clone, Copy)]
pub struct Style<H> {
    pub background: Option<Background<H>>,
    pub enabled_text: [u8; 4],
    pub disabled_text: [u8; 4],
}

impl<H: Copy> Default for Style<H> {
    /// No background; theme text colors.
    fn default() -> (s: Self)
        ensures
            s.background is None,
            s.enabled_text == crate::theme::brand::TEXT_PRIMARY,
            s.disabled_text == crate::theme::brand::TEXT_DISABLED,
    {
        Style {
            background: None,
            enabled_text: crate::theme::brand::TEXT_PRIMARY,
            disabled_text: crate::theme::brand::TEXT_DISABLED,
        }
    }
}

impl<H: Copy> Style<H> {
    /// A style drawing `image` in every state, with the theme text colors.
    pub fn new(image: H) -> (s: Self)
        ensures
            s.background == Some(background_of(image)),
            s.enabled_text == crate::theme::brand::TEXT_PRIMARY,
            s.disabled_text == crate::theme::brand::TEXT_DISABLED,
    {
        Style {
            background: Some(Background { default: image, hover: image, press: image, color: WHITE }),
            enabled_text: crate::theme::brand::TEXT_PRIMARY,
            disabled_text: crate::theme::brand::TEXT_DISABLED,
        }
    }

    /// The shared selection-frame treatment of lists and option groups.
    pub fn selection(image: H, hover_image: H, press_image: H, tint: [u8; 4]) -> (s: Self)
        ensures
            s.background == Some(
                Background { default: image, hover: hover_image, press: press_image, color: tint },
            ),
            s.enabled_text == crate::theme::brand::TEXT_PRIMARY,
            s.disabled_text == crate::theme::brand::TEXT_DISABLED,
    {
        Self::new(image).hover_image(hover_image).press_image(press_image).image_color(tint)
    }

    /// The standard Lemon Fresh treatment of ordinary menu buttons: all of
    /// them share the button tint of the theme.
    pub fn lemon_fresh(image: H, hover_image: H, press_image: H) -> (s: Self)
        ensures
            s == Self::selection_spec(
                image,
                hover_image,
                press_image,
                crate::theme::brand::BUTTON_IMAGE_TINT,
            ),
    {
        Self::selection(image, hover_image, press_image, crate::theme::brand::BUTTON_IMAGE_TINT)
    }

    /// The high-contrast treatment of the main menu over the bright scene
    /// art: the button artwork is multiplied by the lemon-gold tint.
    pub fn main_menu(image: H, hover_image: H, press_image: H) -> (s: Self)
        ensures
            s == Self::selection_spec(
                image,
                hover_image,
                press_image,
                crate::theme::brand::MAIN_MENU_BUTTON_TINT,
            ),
    {
        Self::selection(image, hover_image, press_image, crate::theme::brand::MAIN_MENU_BUTTON_TINT)
    }

    /// The style [`Style::selection`] builds.
    pub open spec fn selection_spec(image: H, hover_image: H, press_image: H, tint: [u8; 4]) -> Self {
        Style {
            background: Some(
                Background { default: image, hover: hover_image, press: press_image, color: tint },
            ),
            enabled_text: crate::theme::brand::TEXT_PRIMARY,
            disabled_text: crate::theme::brand::TEXT_DISABLED,
        }
    }

    /// Sets the hover image; a style without background gets `image` for
    /// every state.
    pub fn hover_image(self, image: H) -> (s: Self)
        ensures
            s.background == Some(
                match self.background {
                    Some(b) => Background { hover: image, ..b },
                    None => background_of(image),
                },
            ),
            s.enabled_text == self.enabled_text,
            s.disabled_text == self.disabled_text,
    {
        let background = match self.background {
            Some(b) => Background { hover: image, ..b },
            None => Background { default: image, hover: image, press: image, color: WHITE },
        };
        Style { background: Some(background), ..self }
    }

    /// Sets the press image; a style without background gets `image` for
    /// every state.
    pub fn press_image(self, image: H) -> (s: Self)
        ensures
            s.background == Some(
                match self.background {
                    Some(b) => Background { press: image, ..b },
                    None => background_of(image),
                },
            ),
            s.enabled_text == self.enabled_text,
            s.disabled_text == self.disabled_text,
    {
        let background = match self.background {
            Some(b) => Background { press: image, ..b },
            None => Background { default: image, hover: image, press: image, color: WHITE },
        };
        Style { background: Some(background), ..self }
    }

    /// Tints the background images; a style without background is left as
    /// it is.
    pub fn image_color(self, color: [u8; 4]) -> (s: Self)
        ensures
            s.background == match self.background {
                Some(b) => Some(Background { color, ..b }),
                None => None,
            },
            s.enabled_text == self.enabled_text,
            s.disabled_text == self.disabled_text,
    {
        let background = match self.background {
            Some(b) => Some(Background { color, ..b }),
            None => None,
        };
        Style { background, ..self }
    }

    /// Sets the text color of an enabled button.
    pub fn text_color(self, color: [u8; 4]) -> (s: Self)
        ensures
            s == (Style { enabled_text: color, ..self }),
    {
        Style { enabled_text: color, ..self }
    }

    /// Sets the text color of a disabled button.
    pub fn disabled_text_color(self, color: [u8; 4]) -> (s: Self)
        ensures
            s == (Style { disabled_text: color, ..self }),
    {
        Style { disabled_text: color, ..self }
    }

    /// The look of a disabled button: its default image and the disabled
    /// text color.
    pub fn disabled(&self) -> (r: (Option<(H, [u8; 4])>, [u8; 4]))
        ensures
            r == (
                match self.background {
                    Some(b) => Some((b.default, b.color)),
                    None => None,
                },
                self.disabled_text,
            ),
    {
        let image = match self.background {
            Some(b) => Some((b.default, b.color)),
            None => None,
        };
        (image, self.disabled_text)
    }

    /// The look of a pressed button.
    pub fn pressed(&self) -> (r: (Option<(H, [u8; 4])>, [u8; 4]))
        ensures
            r == (
                match self.background {
                    Some(b) => Some((b.press, b.color)),
                    None => None,
                },
                self.enabled_text,
            ),
    {
        let image = match self.background {
            Some(b) => Some((b.press, b.color)),
            None => None,
        };
        (image, self.enabled_text)
    }

    /// The look of a hovered button.
    pub fn hovered(&self) -> (r: (Option<(H, [u8; 4])>, [u8; 4]))
        ensures
            r == (
                match self.background {
                    Some(b) => Some((b.hover, b.color)),
                    None => None,
                },
                self.enabled_text,
            ),
    {
        let image = match self.background {
            Some(b) => Some((b.hover, b.color)),
            None => None,
        };
        (image, self.enabled_text)
    }

    /// The look of an idle enabled button.
    pub fn active(&self) -> (r: (Option<(H, [u8; 4])>, [u8; 4]))
        ensures
            r == (
                match self.background {
                    Some(b) => Some((b.default, b.color)),
                    None => None,
                },
                self.enabled_text,
            ),
    {
        let image = match self.background {
            Some(b) => Some((b.default, b.color)),
            None => None,
        };
        (image, self.enabled_text)
    }
}

} // verus!
