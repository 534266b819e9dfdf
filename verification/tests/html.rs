//! HTML values: construction and reading back.

use meerkat_lib::runtime::html::Html;

/// Verify that an `Html` value round-trips its rendered content through
/// the public accessor and its printed form.
#[test]
fn test_html_render_roundtrip() {
    let html = Html::from_rendered("<p>The count is 0.</p>".to_string());
    assert_eq!(html.as_str(), "<p>The count is 0.</p>");
    assert_eq!(html.to_string(), "<p>The count is 0.</p>");
}

/// Verify that equality is by rendered content.
#[test]
fn test_html_equality() {
    let a = Html::from_rendered("<b>x</b>".to_string());
    let b = Html::from_rendered("<b>x</b>".to_string());
    let c = Html::from_rendered("<b>y</b>".to_string());
    assert_eq!(a, b);
    assert_ne!(a, c);
}

/// An empty rendering reads back empty.
#[test]
fn test_html_empty_rendering() {
    let html = Html::from_rendered(String::new());
    assert_eq!(html.as_str(), "");
    assert_eq!(html.to_string(), "");
}

/// Markup with non-ASCII text reads back unchanged.
#[test]
fn test_html_unicode_rendering() {
    let html = Html::from_rendered("<i>größe ✓</i>".to_string());
    assert_eq!(html.as_str(), "<i>größe ✓</i>");
    assert_eq!(html.clone().to_string(), "<i>größe ✓</i>");
}
