use katana_render_runtime::number::CssNumber;
use katana_render_runtime::paint_order::PaintBuffer;

fn renderer() -> PaintBuffer {
    PaintBuffer::new("<svg xmlns=\"http://www.w3.org/2000/svg\" width=\"100\" height=\"100\">")
}

#[test]
fn wrapping_empty_range_is_a_noop() {
    let mut renderer = renderer();
    let start = renderer.len();

    renderer.wrap_painted_range(start, CssNumber { micros: 500_000 });

    assert_eq!(renderer.len(), start);
}

#[test]
fn deferred_paint_places_negative_layers_behind_document() {
    let mut renderer = renderer();
    renderer.push_str("document");
    let foreground = renderer.len();
    renderer.push_str("foreground");
    renderer.defer_painted_range(foreground, 1);
    let negative = renderer.len();
    renderer.push_str("negative");
    renderer.defer_painted_range(negative, -1);

    renderer.finish_deferred_paint();

    assert!(renderer.svg.ends_with("foreground"));
    assert!(renderer.svg.find("negative") < renderer.svg.find("document"));
}

#[test]
fn layers_paint_by_z_index_then_in_the_order_set_aside() {
    let mut buffer = PaintBuffer::new("<h>");
    buffer.push_str("doc");
    for (text, z) in [("a", 2), ("b", -1), ("c", 2), ("d", 0), ("e", -3)] {
        let start = buffer.len();
        buffer.push_str(text);
        buffer.defer_painted_range(start, z);
    }
    assert_eq!(buffer.svg, "<h>doc");
    buffer.finish_deferred_paint();
    assert_eq!(buffer.svg, "<h>ebdocdac");
    assert!(buffer.deferred.is_empty());
}

#[test]
fn wrapping_a_range_groups_it_with_its_opacity() {
    let mut buffer = PaintBuffer::new("<h>");
    buffer.push_str("x");
    let start = buffer.len();
    buffer.push_str("<rect/>");
    buffer.wrap_painted_range(start, CssNumber { micros: 250_000 });
    assert_eq!(buffer.svg, "<h>x<g opacity=\"0.25\"><rect/></g>");
}
