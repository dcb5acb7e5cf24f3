use lemoncraft::theme::{alpha, brand};

/// Reference legendary quality gold (kept with the HUD quality colors).
const QUALITY_LEGENDARY_REF: [f32; 4] = [0.92, 0.76, 0.0, 1.0];

fn unit(c: [u8; 4]) -> [f32; 4] {
    [
        c[0] as f32 / 255.0,
        c[1] as f32 / 255.0,
        c[2] as f32 / 255.0,
        c[3] as f32 / 255.0,
    ]
}

#[test]
fn accent_lemon_is_pure_yellow_not_body_text() {
    // #FFD600: bright pure yellow, high R/G, near-zero B.
    let c = unit(brand::ACCENT_LEMON);
    assert!(c[0] >= 0.95, "R high");
    assert!(c[1] >= 0.80, "G high");
    assert!(c[2] <= 0.05, "B ≈ 0");
}

#[test]
fn legendary_ref_stays_amber_gold_shaped() {
    let c = QUALITY_LEGENDARY_REF;
    assert!(c[0] > c[1] && c[1] > c[2]);
    assert!(c[0] - c[1] >= 0.10);
    assert!(c[1] < 0.80, "legendary G lower than pure lemon yellow");
}

#[test]
fn lemon_and_legendary_are_distinguishable() {
    let lemon = unit(brand::ACCENT_LEMON);
    let leg = QUALITY_LEGENDARY_REF;
    assert!(lemon[1] > leg[1] + 0.05);
}

#[test]
fn selection_active_is_lemon() {
    assert_eq!(brand::SELECTION_ACTIVE, brand::ACCENT_LEMON, "selection follows brand lemon");
    let c = unit(brand::SELECTION_ACTIVE);
    assert!(c[1] >= 0.8, "G high for lemon yellow");
    assert!(c[2] <= 0.15, "B low for lemon yellow");
}

#[test]
fn text_primary_is_dark_ink() {
    let c = unit(brand::TEXT_PRIMARY);
    assert!(c[0] < 0.25 && c[1] < 0.25 && c[2] < 0.25);
}

#[test]
fn panel_bg_is_warm_lemon_white() {
    let c = unit(brand::PANEL_BG);
    assert!(c[0] > c[1] && c[1] > c[2]);
    assert!(c[0] >= 0.95, "panel background should read as warm white");
    assert!(c[2] >= 0.85, "warm tint (not pure white)");
}

#[test]
fn text_disabled_uses_primary_rgb() {
    assert_eq!(brand::TEXT_DISABLED[0], brand::TEXT_PRIMARY[0]);
    assert_eq!(brand::TEXT_DISABLED[1], brand::TEXT_PRIMARY[1]);
    assert_eq!(brand::TEXT_DISABLED[2], brand::TEXT_PRIMARY[2]);
    assert!((unit(brand::TEXT_DISABLED)[3] - 0.4).abs() < f32::EPSILON);
}

#[test]
fn palette_matches_hex_codes() {
    assert_eq!(brand::PANEL_BG, [0xFB, 0xF1, 0xDA, 0xFF]);
    assert_eq!(brand::FRAME, [0xD8, 0xA5, 0x00, 0xFF]);
    assert_eq!(brand::ACCENT_LIME, [0x7C, 0xB5, 0x18, 0xFF]);
    assert_eq!(brand::TOOLTIP_FRAME_FILL, [0x21, 0x21, 0x17, 0xFF]);
    assert_eq!(brand::MENU_BG, brand::PANEL_BG);
    assert_eq!(brand::BUTTON_IMAGE_TINT, brand::UI_MAIN);
}

#[test]
fn faint_tokens_only_replace_alpha() {
    assert_eq!(alpha(brand::TEXT_PRIMARY, 102), brand::TEXT_DISABLED);
    assert_eq!(alpha(brand::TEXT_PRIMARY, 153), brand::TEXT_MUTED);
    assert_eq!(alpha(brand::FRAME, 140), brand::BORDER_SUBTLE);
    assert_eq!(alpha(brand::FRAME, 199), brand::SCROLLBAR_THUMB);
    assert_eq!(alpha(brand::ACCENT_LEMON, 56), brand::INPUT_SELECTION);
    assert_eq!(alpha([1, 2, 3, 4], 9), [1, 2, 3, 9]);
}

#[test]
fn inactive_selection_is_olive() {
    assert_eq!(brand::SELECTION_INACTIVE, [0xA6, 0xA6, 0x6E, 0xFF]);
}
