# smil_animation

The SMIL animation subset of an SVG renderer, as a verified Verus library.

`src/` holds what animation support decides on text and trees, each function
with a contract that Verus proves:

- `text` — white space (the Unicode `White_Space` set), trimming, splitting.
- `clock` — the grammar of SMIL clock values (`250ms`, `2min`, `00:00:02`).
- `timing` — `begin` (every entry of a list), `dur`, `repeatCount`/`repeatDur`,
  `end` and `fill` of an element.
- `element`, `animation` — value lists (`values`, `from`/`to`/`by`, a `to`
  animation from its target's own value), value formats, `keyTimes`/`keySplines`
  fields, and the whole reading of one `animate`, `set`, `animateTransform` or
  `animateMotion` element, skipping one that is malformed.
- `names` — the SVG element and attribute names the tree knows.
- `document` — the XML tree, which of its nodes the SVG tree keeps, animation
  elements, the elements they act on, `mpath` references.
- `loader` — plain or gzip SVG source to text and tree (flate2, roxmltree).
- `overrides` — the per-frame attribute override map, the read that consults
  it, and the base that transform contributions compose onto.
- `color` — `#rrggbb` formatting.

`app/` holds the floating-point side: clock values in seconds, the earliest
`begin`, timing phases, colour channels, interpolation (kurbo easing curves),
motion paths (kurbo), transforms (tiny-skia), baking overrides at a time, and
frame sample times.
