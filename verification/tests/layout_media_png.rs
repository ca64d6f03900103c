use katana_render_runtime::media::data_dimensions;

#[test]
fn png_dimensions_reject_truncated_or_non_png_data() {
    assert!(data_dimensions("data:image/png;base64,AAAA").is_none());
    assert!(data_dimensions("data:image/png;base64,SGVsbG8sIHdvcmxkIQ==").is_none());
}
