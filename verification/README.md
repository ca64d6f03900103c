# katana-render-runtime

The styling and layout decisions of an interactive HTML renderer that draws
pages as SVG, written in Verus: the public functions of `src/` carry
contracts that Verus proves, and the few trusted wrappers around outside
crates are listed below.

Numbers are fixed-point decimals (`number::CssNumber`, millionths of a
pixel), so that arithmetic on lengths is exact and its contracts can speak
of it. Parsed numbers are held to ±10^12 units; a literal too large to be a
finite single-precision number is refused.

## Layout

- `src/text.rs`, `src/tokens.rs`, `src/number.rs`, `src/length.rs`: the
  lexical layer — trimming and case folding, splitting CSS values at top
  level, decimal literals, and lengths with their units and math functions.
- `src/style/`: the computed style (`types.rs`, with its model
  `StyleModel`), one module per family of declarations, the cascade from a
  parent to an element (`element.rs`) and the box model (`geometry.rs`).
- `src/document.rs`: the parsed document — attributes, text content, table
  rows and the initial values of inputs.
- `src/wrap.rs`, `src/line_fit.rs`, `src/styled_wrap.rs`: wrapping text
  into lines at Unicode line break opportunities, choosing where a
  measured line ends, and the lines of styled text whose first line may be
  narrower (the lines themselves are taken with the font's measurements).
- `src/grid_measure.rs`, `src/container.rs`, `src/position.rs`,
  `src/flow.rs`, `src/inline_measure.rs`, `src/control_paint.rs`: widths of
  grid columns, block containers, positioned boxes, stretched flow items,
  inline runs and floats, the intrinsic width of flex containers
  (`src/intrinsic.rs`), and the boxes of controls and their labels.
- `src/measurement_cache.rs`: heights already measured in a frame.
- `src/paint.rs`, `src/paint_order.rs`: the text of SVG attributes and
  paths, and the order of stacking layers.
- `src/pointer.rs`, `src/navigation.rs`, `src/focus.rs`: hit testing,
  scrolling, what a click activates, fragment navigation, and keyboard
  focus among inputs with the events it sends the page.
- `src/laws.rs`: properties that span several functions, proved.
- `app/lib.rs`: the bridge to the layout engine, which works in `f32`, and
  the runner that takes the steps of a focus operation.

The outside crates are reached through a few trusted wrappers, each next to
the code that uses it: `taffy`'s keyword parsers (`style/keywords.rs`),
`base64` (`media.rs`), `percent-encoding` (`navigation.rs`),
`unicode-width` and Unicode case mappings (`unicode.rs`), and
`unicode-linebreak` (`wrap.rs`).
