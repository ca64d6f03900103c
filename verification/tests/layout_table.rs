use katana_render_runtime::controls::table_cell_style;
use katana_render_runtime::document::TableCell;
use katana_render_runtime::number::CssNumber;
use katana_render_runtime::style::types::CssStyle;

fn value(n: CssNumber) -> f32 {
    (n.micros as f64 / 1_000_000.0) as f32
}

#[test]
fn table_cell_uses_cascade_style_before_browser_fallbacks() {
    let header = TableCell {
        tag: "th".to_string(),
        attributes: vec![(
            "style".to_string(),
            "background:#dbeafe;color:#173f5f;border:2px solid #112233".to_string(),
        )],
        children: Vec::new(),
    };
    let style = table_cell_style(&header, 0, &CssStyle::browser_default());

    assert_eq!(style.background.as_deref(), Some("#dbeafe"));
    assert_eq!(style.color, "#173f5f");
    assert_eq!(style.border.as_deref(), Some("#112233"));
    assert_eq!(value(style.border_width), 2.0);

    let fallback = TableCell { tag: "th".to_string(), attributes: Vec::new(), children: Vec::new() };
    let fallback = table_cell_style(&fallback, 0, &CssStyle::browser_default());
    assert_eq!(fallback.background.as_deref(), Some("#0b74c7"));
    assert_eq!(fallback.color, "#ffffff");
}
