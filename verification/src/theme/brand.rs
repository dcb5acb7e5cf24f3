//! The palette. Each token is given by its sRGB hex code.
use vstd::prelude::*;

verus! {

/// Warm cream panel/menu background (`#FBF1DA`).
pub const PANEL_BG: [u8; 4] = [0xFB, 0xF1, 0xDA, 0xFF];
/// Alias of [`PANEL_BG`]; there is one menu background value.
pub const MENU_BG: [u8; 4] = PANEL_BG;
/// Panel inner fill: warm cream, never pure white (`#F8EED5`).
pub const PANEL_FILL: [u8; 4] = [0xF8, 0xEE, 0xD5, 0xFF];
/// Alternate panel background: soft warm yellow (`#F1E4C4`).
pub const PANEL_BG_ALT: [u8; 4] = [0xF1, 0xE4, 0xC4, 0xFF];

/// Amber borders and dividers (`#D8A500`).
pub const FRAME: [u8; 4] = [0xD8, 0xA5, 0x00, 0xFF];
/// Multiply tint of PNG chrome (`#ECD48B`): light and warm.
pub const UI_MAIN: [u8; 4] = [0xEC, 0xD4, 0x8B, 0xFF];
/// Tint of the generic menu button artwork outside the main menu.
pub const BUTTON_IMAGE_TINT: [u8; 4] = UI_MAIN;
/// Lemon-gold tint of the main-menu button states (`#D9AD00`).
pub const MAIN_MENU_BUTTON_TINT: [u8; 4] = [0xD9, 0xAD, 0x00, 0xFF];
/// Dark ink text on the lemon main-menu buttons (`#2B2B1F`).
pub const MAIN_MENU_BUTTON_TEXT: [u8; 4] = [0x2B, 0x2B, 0x1F, 0xFF];
/// [`MAIN_MENU_BUTTON_TEXT`] at 45% alpha.
pub const MAIN_MENU_BUTTON_TEXT_DISABLED: [u8; 4] = [0x2B, 0x2B, 0x1F, 115];
/// Subtle chrome (`#E5DEC7`).
pub const UI_SUBTLE: [u8; 4] = [0xE5, 0xDE, 0xC7, 0xFF];
/// Highlighted chrome (`#FFE566`).
pub const UI_HIGHLIGHT: [u8; 4] = [0xFF, 0xE5, 0x66, 0xFF];

/// Hover surface of ordinary menu chrome.
pub const SURFACE_HOVER: [u8; 4] = PANEL_BG_ALT;
/// Pressed surface of ordinary menu chrome.
pub const SURFACE_PRESSED: [u8; 4] = UI_SUBTLE;
/// [`PANEL_BG_ALT`] at 55% alpha.
pub const SURFACE_DISABLED: [u8; 4] = [0xF1, 0xE4, 0xC4, 140];
/// [`FRAME`] at 55% alpha.
pub const BORDER_SUBTLE: [u8; 4] = [0xD8, 0xA5, 0x00, 140];
/// Focus ring: the brand lemon.
pub const FOCUS_RING: [u8; 4] = ACCENT_LEMON;
/// [`ACCENT_LEMON`] at 22% alpha.
pub const INPUT_SELECTION: [u8; 4] = [0xFF, 0xD6, 0x00, 56];
pub const INPUT_BORDER: [u8; 4] = BORDER_SUBTLE;
pub const INPUT_BORDER_FOCUSED: [u8; 4] = FOCUS_RING;
/// [`FRAME`] at 78% alpha.
pub const SCROLLBAR_THUMB: [u8; 4] = [0xD8, 0xA5, 0x00, 199];

/// Dark ink body text (`#2B2B1F`): light surfaces, dark ink.
pub const TEXT_PRIMARY: [u8; 4] = [0x2B, 0x2B, 0x1F, 0xFF];
/// [`TEXT_PRIMARY`] at 40% alpha.
pub const TEXT_DISABLED: [u8; 4] = [0x2B, 0x2B, 0x1F, 102];
/// [`TEXT_PRIMARY`] at 60% alpha.
pub const TEXT_MUTED: [u8; 4] = [0x2B, 0x2B, 0x1F, 153];
/// Menu emphasis: deep lemon gold (`#A88500`), not item quality gold.
pub const TEXT_EMPHASIS: [u8; 4] = [0xA8, 0x85, 0x00, 0xFF];

/// Brand lemon (`#FFD600`): borders, highlights and the logo; never body
/// text.
pub const ACCENT_LEMON: [u8; 4] = [0xFF, 0xD6, 0x00, 0xFF];
/// Secondary accent (`#7CB518`).
pub const ACCENT_LIME: [u8; 4] = [0x7C, 0xB5, 0x18, 0xFF];

/// List selection fill: lemon yellow, matching the menu chrome.
pub const SELECTION_ACTIVE: [u8; 4] = [0xFF, 0xD6, 0x00, 0xFF];
/// Inactive selection: olive that reads on light panels (`#A6A66E`).
pub const SELECTION_INACTIVE: [u8; 4] = [0xA6, 0xA6, 0x6E, 0xFF];

/// Tooltip background, inverted dark (`#2B2B1F`).
pub const TOOLTIP_BACK: [u8; 4] = [0x2B, 0x2B, 0x1F, 0xFF];
/// Center fill of the item tooltip frame (`#212117`).
pub const TOOLTIP_FRAME_FILL: [u8; 4] = [0x21, 0x21, 0x17, 0xFF];

/// Alpha of the overlay scrim (a soft dark, 140 of 255).
pub const OVERLAY_SCRIM_A: u8 = 140;

/// The faint tokens are their base colors with only the alpha replaced, and
/// the aliases are the very colors they name: selection follows the brand
/// lemon, the menu background is the panel background.
pub proof fn lemma_derived_tokens()
    ensures
        TEXT_DISABLED@ == crate::theme::alpha_spec(TEXT_PRIMARY, 102),
        TEXT_MUTED@ == crate::theme::alpha_spec(TEXT_PRIMARY, 153),
        MAIN_MENU_BUTTON_TEXT_DISABLED@ == crate::theme::alpha_spec(MAIN_MENU_BUTTON_TEXT, 115),
        SURFACE_DISABLED@ == crate::theme::alpha_spec(PANEL_BG_ALT, 140),
        BORDER_SUBTLE@ == crate::theme::alpha_spec(FRAME, 140),
        INPUT_SELECTION@ == crate::theme::alpha_spec(ACCENT_LEMON, 56),
        SCROLLBAR_THUMB@ == crate::theme::alpha_spec(FRAME, 199),
        SELECTION_ACTIVE@ == ACCENT_LEMON@,
        MENU_BG@ == PANEL_BG@,
        FOCUS_RING@ == ACCENT_LEMON@,
{
    assert(TEXT_DISABLED@ =~= crate::theme::alpha_spec(TEXT_PRIMARY, 102));
    assert(TEXT_MUTED@ =~= crate::theme::alpha_spec(TEXT_PRIMARY, 153));
    assert(MAIN_MENU_BUTTON_TEXT_DISABLED@ =~= crate::theme::alpha_spec(MAIN_MENU_BUTTON_TEXT, 115));
    assert(SURFACE_DISABLED@ =~= crate::theme::alpha_spec(PANEL_BG_ALT, 140));
    assert(BORDER_SUBTLE@ =~= crate::theme::alpha_spec(FRAME, 140));
    assert(INPUT_SELECTION@ =~= crate::theme::alpha_spec(ACCENT_LEMON, 56));
    assert(SCROLLBAR_THUMB@ =~= crate::theme::alpha_spec(FRAME, 199));
    assert(SELECTION_ACTIVE@ =~= ACCENT_LEMON@);
}

} // verus!
