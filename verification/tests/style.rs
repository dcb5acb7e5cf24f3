use lemoncraft::style::button::{Background, Style, WHITE};
use lemoncraft::style::container::{self, Border};
use lemoncraft::theme::brand;

#[test]
fn button_states_pick_their_images() {
    let s = Style::selection(1u8, 2, 3, [9, 9, 9, 9]);
    assert_eq!(s.active(), (Some((1, [9, 9, 9, 9])), brand::TEXT_PRIMARY));
    assert_eq!(s.hovered(), (Some((2, [9, 9, 9, 9])), brand::TEXT_PRIMARY));
    assert_eq!(s.pressed(), (Some((3, [9, 9, 9, 9])), brand::TEXT_PRIMARY));
    assert_eq!(s.disabled(), (Some((1, [9, 9, 9, 9])), brand::TEXT_DISABLED));
}

#[test]
fn hover_image_on_a_bare_style_fills_every_state() {
    let s: Style<u8> = Style::default().hover_image(5);
    let b = s.background.unwrap();
    assert_eq!((b.default, b.hover, b.press, b.color), (5, 5, 5, WHITE));
    let s: Style<u8> = Style::default().image_color([1, 2, 3, 4]);
    assert!(s.background.is_none());
    assert_eq!(s.active(), (None, brand::TEXT_PRIMARY));
}

#[test]
fn menu_treatments_use_theme_tints() {
    let lemon = Style::lemon_fresh(1u8, 2, 3);
    assert_eq!(lemon.active().0, Some((1, brand::BUTTON_IMAGE_TINT)));
    let main = Style::main_menu(1u8, 2, 3).text_color(brand::MAIN_MENU_BUTTON_TEXT);
    assert_eq!(main.hovered(), (Some((2, brand::MAIN_MENU_BUTTON_TINT)), brand::MAIN_MENU_BUTTON_TEXT));
    let dim = main.disabled_text_color(brand::MAIN_MENU_BUTTON_TEXT_DISABLED);
    assert_eq!(dim.disabled().1, brand::MAIN_MENU_BUTTON_TEXT_DISABLED);
    let b: Background<u8> = Style::new(4u8).background.unwrap();
    assert_eq!((b.default, b.hover, b.press), (4, 4, 4));
}

#[test]
fn container_panels_follow_the_palette() {
    match container::Style::<u8>::panel_with_frame() {
        container::Style::Color(c, Border::DoubleCornerless { inner, outer }) => {
            assert_eq!((c, inner, outer), (brand::PANEL_BG, brand::PANEL_FILL, brand::FRAME));
        },
        _ => panic!("expected a framed color panel"),
    }
    match container::Style::<u8>::panel_overlay() {
        container::Style::Color(c, Border::Nothing) => assert_eq!(c, [0xFB, 0xF1, 0xDA, 230]),
        _ => panic!("expected a plain color panel"),
    }
    assert!(matches!(container::Style::<u8>::default(), container::Style::Nothing));
    assert!(matches!(container::Style::image(3u8), container::Style::Image(3, c) if c == WHITE));
    assert!(matches!(
        container::Style::color_with_image_border([1, 1, 1, 1], 7u8, 8u8),
        container::Style::Color(_, Border::Image { corner: 7, edge: 8 })
    ));
}

#[test]
fn renderer_defaults_use_body_text() {
    assert_eq!(lemoncraft::style::defaults::Defaults::default().text_color, brand::TEXT_PRIMARY);
}
