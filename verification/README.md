# drawio_headless

Author and render [drawio](https://drawio.com/) diagrams without a browser:
build `.drawio` XML from a small catalogue of cloud shapes, and render
`.drawio` XML to SVG by interpreting drawio's mxStencil drawing language.

The library in `src/` is verified with Verus: each function's contract is
proved, except for the small trusted wrappers around `quick-xml`,
`base64`, `flate2` and `percent-encoding` (in `xml.rs` and `inflate.rs`),
whose contracts name what those crates return and are taken on trust.
`app/` is the command-line program around the library.

## Layout

- `src/author.rs`, `aws.rs`, `azure.rs`, `gcp.rs`, `k8s.rs`, `client.rs`,
  `generic.rs`, `shapes.rs`, `catalogue.rs`: building diagrams and
  serialising them to `.drawio` XML; the shape factories and their catalogue.
- `src/kinds.rs`, `authoring.rs`, `listing.rs`: the JSON authoring schema's
  document model (kinds, validation, error messages, suggestions by edit
  distance) and the catalogue listings.
- `src/xml.rs`, `model.rs`, `inflate.rs`, `style.rs`: reading drawio XML
  (with `quick-xml`), inflating compressed diagram bodies, and the style
  mini-language.
- `src/stencil.rs`, `stencil_svg.rs`, `render.rs`: stencil libraries, the
  stencil-to-SVG interpreter, and the SVG renderer with its edge geometry.
- `src/read_back.rs`: the law that a serialised diagram reads back as its
  own cells, stated over what the XML reader hands out.
- `src/fonts.rs`: choosing the face that stands for `sans-serif` in PNG
  output.
- `src/decimal.rs`, `overflow.rs`, `text.rs`: fixed-point numbers, the
  single-precision range check, and string helpers.
- `app/`: the `drawio-headless` command (`render`, `author`, `compose`,
  `list-shapes`), file and stdin I/O, JSON reading with `serde`, PNG output
  with `resvg`.

## Numbers

Coordinates are fixed-point decimals with six fractional digits
(`decimal::Decimal`), saturating at ±10¹² units. They print without
trailing zeros (`78`, `12.5`) and read the decimal notation
`[+-]digits[.digits]`, optionally with an exponent (`1e0`, `2.5E-1`); the
digits beyond the sixth fractional place of the part before the exponent
are dropped before scaling. `inf`, `infinity` and `nan` are not numbers
here. An edge attachment coordinate (`exitX` and the like) whose
magnitude would round to infinity as a single-precision float is not a
coordinate. Points the renderer computes (cell centres, edge ends, label
positions) are held to half a millionth (`decimal::Coord`), so every
centre is exact.

## Stencils

The renderer draws glyphs from four stencil libraries (AWS, Azure, GCP,
Kubernetes) handed to it as `render::Stencils`; the command loads them from
`aws4.xml`, `azure.xml`, `gcp.xml` and `kubernetes.xml` in the directory
given by `--stencils`.
