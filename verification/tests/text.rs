use lemoncraft::brand::{version_line, PRODUCT_NAME};
use lemoncraft::text::{chars_of, decimal_string};
use lemoncraft::wasm::start;

#[test]
fn version_line_prefixes_product_name() {
    assert_eq!(version_line("0.1.0"), "LemonCraft 0.1.0");
    assert_eq!(version_line(""), "LemonCraft ");
    assert_eq!(version_line("v2 (nightly)"), format!("{PRODUCT_NAME} v2 (nightly)"));
}

#[test]
fn decimals_match_std() {
    for n in [0u32, 5, 10, 42, 999, 1000, 65535, 1 << 31, u32::MAX] {
        assert_eq!(decimal_string(n), n.to_string());
    }
}

#[test]
fn chars_are_unicode_scalars() {
    assert_eq!(chars_of("aé☃"), vec!['a', 'é', '☃']);
    assert!(chars_of("").is_empty());
}

#[test]
fn native_start_does_nothing() {
    start();
}

#[test]
fn launcher_label_names_the_version() {
    assert_eq!(lemoncraft::wasm::launcher_label("0.17.0"), "LemonCraft v0.17.0");
}
