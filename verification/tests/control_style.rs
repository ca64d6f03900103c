use katana_render_runtime::controls::button_style;
use katana_render_runtime::style::types::CssStyle;

#[test]
fn button_style_keeps_an_explicit_background() {
    let style = CssStyle {
        background: Some("#123456".to_string()),
        explicit_background: true,
        ..CssStyle::default()
    };

    assert_eq!(button_style(&style).background.as_deref(), Some("#123456"));
}
