use vstd::prelude::*;
use crate::text::text_eq;

verus! {

/// The names of the SVG attributes that animations can name, the SMIL
/// animation attributes included.
pub open spec fn svg_attribute_names() -> Seq<Seq<char>> {
    seq![
        "accumulate"@,
        "additive"@,
        "alignment-baseline"@,
        "amplitude"@,
        "attributeName"@,
        "attributeType"@,
        "azimuth"@,
        "baseFrequency"@,
        "baseline-shift"@,
        "begin"@,
        "bias"@,
        "by"@,
        "calcMode"@,
        "class"@,
        "clip"@,
        "clip-path"@,
        "clip-rule"@,
        "clipPathUnits"@,
        "color"@,
        "color-interpolation"@,
        "color-interpolation-filters"@,
        "color-profile"@,
        "color-rendering"@,
        "cx"@,
        "cy"@,
        "d"@,
        "diffuseConstant"@,
        "direction"@,
        "display"@,
        "divisor"@,
        "dominant-baseline"@,
        "dur"@,
        "dx"@,
        "dy"@,
        "edgeMode"@,
        "elevation"@,
        "enable-background"@,
        "end"@,
        "exponent"@,
        "fill"@,
        "fill-opacity"@,
        "fill-rule"@,
        "filter"@,
        "filterUnits"@,
        "flood-color"@,
        "flood-opacity"@,
        "font"@,
        "font-family"@,
        "font-feature-settings"@,
        "font-kerning"@,
        "font-size"@,
        "font-size-adjust"@,
        "font-stretch"@,
        "font-style"@,
        "font-synthesis"@,
        "font-variant"@,
        "font-variant-caps"@,
        "font-variant-east-asian"@,
        "font-variant-ligatures"@,
        "font-variant-numeric"@,
        "font-variant-position"@,
        "font-weight"@,
        "fr"@,
        "from"@,
        "fx"@,
        "fy"@,
        "glyph-orientation-horizontal"@,
        "glyph-orientation-vertical"@,
        "gradientTransform"@,
        "gradientUnits"@,
        "height"@,
        "href"@,
        "id"@,
        "image-rendering"@,
        "in"@,
        "in2"@,
        "inline-size"@,
        "intercept"@,
        "isolation"@,
        "k1"@,
        "k2"@,
        "k3"@,
        "k4"@,
        "kernelMatrix"@,
        "kernelUnitLength"@,
        "kerning"@,
        "keyPoints"@,
        "keySplines"@,
        "keyTimes"@,
        "lengthAdjust"@,
        "letter-spacing"@,
        "lighting-color"@,
        "limitingConeAngle"@,
        "marker-end"@,
        "marker-mid"@,
        "marker-start"@,
        "markerHeight"@,
        "markerUnits"@,
        "markerWidth"@,
        "mask"@,
        "mask-border"@,
        "mask-border-mode"@,
        "mask-border-outset"@,
        "mask-border-repeat"@,
        "mask-border-slice"@,
        "mask-border-source"@,
        "mask-border-width"@,
        "mask-clip"@,
        "mask-composite"@,
        "mask-image"@,
        "mask-mode"@,
        "mask-origin"@,
        "mask-position"@,
        "mask-size"@,
        "mask-type"@,
        "maskContentUnits"@,
        "maskUnits"@,
        "mix-blend-mode"@,
        "mode"@,
        "numOctaves"@,
        "offset"@,
        "opacity"@,
        "operator"@,
        "order"@,
        "orient"@,
        "overflow"@,
        "paint-order"@,
        "path"@,
        "pathLength"@,
        "patternContentUnits"@,
        "patternTransform"@,
        "patternUnits"@,
        "points"@,
        "pointsAtX"@,
        "pointsAtY"@,
        "pointsAtZ"@,
        "preserveAspectRatio"@,
        "primitiveUnits"@,
        "r"@,
        "radius"@,
        "refX"@,
        "refY"@,
        "repeatCount"@,
        "repeatDur"@,
        "requiredExtensions"@,
        "requiredFeatures"@,
        "result"@,
        "rotate"@,
        "rx"@,
        "ry"@,
        "scale"@,
        "seed"@,
        "shape-image-threshold"@,
        "shape-inside"@,
        "shape-margin"@,
        "shape-padding"@,
        "shape-rendering"@,
        "shape-subtract"@,
        "side"@,
        "slope"@,
        "space"@,
        "specularConstant"@,
        "specularExponent"@,
        "spreadMethod"@,
        "startOffset"@,
        "stdDeviation"@,
        "stitchTiles"@,
        "stop-color"@,
        "stop-opacity"@,
        "stroke"@,
        "stroke-dasharray"@,
        "stroke-dashoffset"@,
        "stroke-linecap"@,
        "stroke-linejoin"@,
        "stroke-miterlimit"@,
        "stroke-opacity"@,
        "stroke-width"@,
        "style"@,
        "surfaceScale"@,
        "systemLanguage"@,
        "tableValues"@,
        "targetX"@,
        "targetY"@,
        "text-align"@,
        "text-align-last"@,
        "text-anchor"@,
        "text-decoration"@,
        "text-decoration-color"@,
        "text-decoration-fill"@,
        "text-decoration-line"@,
        "text-decoration-stroke"@,
        "text-decoration-style"@,
        "text-indent"@,
        "text-orientation"@,
        "text-overflow"@,
        "text-rendering"@,
        "text-underline-position"@,
        "textLength"@,
        "to"@,
        "transform"@,
        "transform-box"@,
        "transform-origin"@,
        "type"@,
        "unicode-bidi"@,
        "unicode-range"@,
        "values"@,
        "vector-effect"@,
        "viewBox"@,
        "visibility"@,
        "white-space"@,
        "width"@,
        "word-spacing"@,
        "writing-mode"@,
        "x"@,
        "x1"@,
        "x2"@,
        "xChannelSelector"@,
        "y"@,
        "y1"@,
        "y2"@,
        "yChannelSelector"@,
        "z"@,
    ]
}

/// Whether `name` is the name of an SVG attribute.
pub fn is_svg_attribute(name: &str) -> (r: bool)
    ensures
        r == svg_attribute_names().contains(name@),
{
    let names: [&str; 222] = [
        "accumulate",
        "additive",
        "alignment-baseline",
        "amplitude",
        "attributeName",
        "attributeType",
        "azimuth",
        "baseFrequency",
        "baseline-shift",
        "begin",
        "bias",
        "by",
        "calcMode",
        "class",
        "clip",
        "clip-path",
        "clip-rule",
        "clipPathUnits",
        "color",
        "color-interpolation",
        "color-interpolation-filters",
        "color-profile",
        "color-rendering",
        "cx",
        "cy",
        "d",
        "diffuseConstant",
        "direction",
        "display",
        "divisor",
        "dominant-baseline",
        "dur",
        "dx",
        "dy",
        "edgeMode",
        "elevation",
        "enable-background",
        "end",
        "exponent",
        "fill",
        "fill-opacity",
        "fill-rule",
        "filter",
        "filterUnits",
        "flood-color",
        "flood-opacity",
        "font",
        "font-family",
        "font-feature-settings",
        "font-kerning",
        "font-size",
        "font-size-adjust",
        "font-stretch",
        "font-style",
        "font-synthesis",
        "font-variant",
        "font-variant-caps",
        "font-variant-east-asian",
        "font-variant-ligatures",
        "font-variant-numeric",
        "font-variant-position",
        "font-weight",
        "fr",
        "from",
        "fx",
        "fy",
        "glyph-orientation-horizontal",
        "glyph-orientation-vertical",
        "gradientTransform",
        "gradientUnits",
        "height",
        "href",
        "id",
        "image-rendering",
        "in",
        "in2",
        "inline-size",
        "intercept",
        "isolation",
        "k1",
        "k2",
        "k3",
        "k4",
        "kernelMatrix",
        "kernelUnitLength",
        "kerning",
        "keyPoints",
        "keySplines",
        "keyTimes",
        "lengthAdjust",
        "letter-spacing",
        "lighting-color",
        "limitingConeAngle",
        "marker-end",
        "marker-mid",
        "marker-start",
        "markerHeight",
        "markerUnits",
        "markerWidth",
        "mask",
        "mask-border",
        "mask-border-mode",
        "mask-border-outset",
        "mask-border-repeat",
        "mask-border-slice",
        "mask-border-source",
        "mask-border-width",
        "mask-clip",
        "mask-composite",
        "mask-image",
        "mask-mode",
        "mask-origin",
        "mask-position",
        "mask-size",
        "mask-type",
        "maskContentUnits",
        "maskUnits",
        "mix-blend-mode",
        "mode",
        "numOctaves",
        "offset",
        "opacity",
        "operator",
        "order",
        "orient",
        "overflow",
        "paint-order",
        "path",
        "pathLength",
        "patternContentUnits",
        "patternTransform",
        "patternUnits",
        "points",
        "pointsAtX",
        "pointsAtY",
        "pointsAtZ",
        "preserveAspectRatio",
        "primitiveUnits",
        "r",
        "radius",
        "refX",
        "refY",
        "repeatCount",
        "repeatDur",
        "requiredExtensions",
        "requiredFeatures",
        "result",
        "rotate",
        "rx",
        "ry",
        "scale",
        "seed",
        "shape-image-threshold",
        "shape-inside",
        "shape-margin",
        "shape-padding",
        "shape-rendering",
        "shape-subtract",
        "side",
        "slope",
        "space",
        "specularConstant",
        "specularExponent",
        "spreadMethod",
        "startOffset",
        "stdDeviation",
        "stitchTiles",
        "stop-color",
        "stop-opacity",
        "stroke",
        "stroke-dasharray",
        "stroke-dashoffset",
        "stroke-linecap",
        "stroke-linejoin",
        "stroke-miterlimit",
        "stroke-opacity",
        "stroke-width",
        "style",
        "surfaceScale",
        "systemLanguage",
        "tableValues",
        "targetX",
        "targetY",
        "text-align",
        "text-align-last",
        "text-anchor",
        "text-decoration",
        "text-decoration-color",
        "text-decoration-fill",
        "text-decoration-line",
        "text-decoration-stroke",
        "text-decoration-style",
        "text-indent",
        "text-orientation",
        "text-overflow",
        "text-rendering",
        "text-underline-position",
        "textLength",
        "to",
        "transform",
        "transform-box",
        "transform-origin",
        "type",
        "unicode-bidi",
        "unicode-range",
        "values",
        "vector-effect",
        "viewBox",
        "visibility",
        "white-space",
        "width",
        "word-spacing",
        "writing-mode",
        "x",
        "x1",
        "x2",
        "xChannelSelector",
        "y",
        "y1",
        "y2",
        "yChannelSelector",
        "z",
    ];
    let ghost known = svg_attribute_names();
    assert(names@.len() == known.len());
    assert(forall|j: int| 0 <= j < known.len() ==> #[trigger] names@[j]@ == known[j]);
    let mut i: usize = 0;
    while i < names.len()
        invariant
            known == svg_attribute_names(),
            names@.len() == known.len(),
            forall|j: int| 0 <= j < known.len() ==> #[trigger] names@[j]@ == known[j],
            i <= known.len(),
            forall|j: int| 0 <= j < i ==> known[j] != name@,
        decreases names.len() - i,
    {
        if text_eq(names[i], name) {
            assert(known[i as int] == name@);
            return true;
        }
        i = i + 1;
    }
    false
}

/// The names of the SVG elements that the document tree keeps, the SMIL
/// animation elements and `mpath` included.
pub open spec fn svg_element_names() -> Seq<Seq<char>> {
    seq![
        "a"@,
        "animate"@,
        "animateMotion"@,
        "animateTransform"@,
        "circle"@,
        "clipPath"@,
        "defs"@,
        "ellipse"@,
        "feBlend"@,
        "feColorMatrix"@,
        "feComponentTransfer"@,
        "feComposite"@,
        "feConvolveMatrix"@,
        "feDiffuseLighting"@,
        "feDisplacementMap"@,
        "feDistantLight"@,
        "feDropShadow"@,
        "feFlood"@,
        "feFuncA"@,
        "feFuncB"@,
        "feFuncG"@,
        "feFuncR"@,
        "feGaussianBlur"@,
        "feImage"@,
        "feMerge"@,
        "feMergeNode"@,
        "feMorphology"@,
        "feOffset"@,
        "fePointLight"@,
        "feSpecularLighting"@,
        "feSpotLight"@,
        "feTile"@,
        "feTurbulence"@,
        "filter"@,
        "g"@,
        "image"@,
        "line"@,
        "linearGradient"@,
        "marker"@,
        "mask"@,
        "mpath"@,
        "path"@,
        "pattern"@,
        "polygon"@,
        "polyline"@,
        "radialGradient"@,
        "rect"@,
        "set"@,
        "stop"@,
        "style"@,
        "svg"@,
        "switch"@,
        "symbol"@,
        "text"@,
        "textPath"@,
        "tref"@,
        "tspan"@,
        "use"@,
    ]
}

/// Whether `name` is the name of an SVG element.
pub fn is_svg_element(name: &str) -> (r: bool)
    ensures
        r == svg_element_names().contains(name@),
{
    let names: [&str; 58] = [
        "a",
        "animate",
        "animateMotion",
        "animateTransform",
        "circle",
        "clipPath",
        "defs",
        "ellipse",
        "feBlend",
        "feColorMatrix",
        "feComponentTransfer",
        "feComposite",
        "feConvolveMatrix",
        "feDiffuseLighting",
        "feDisplacementMap",
        "feDistantLight",
        "feDropShadow",
        "feFlood",
        "feFuncA",
        "feFuncB",
        "feFuncG",
        "feFuncR",
        "feGaussianBlur",
        "feImage",
        "feMerge",
        "feMergeNode",
        "feMorphology",
        "feOffset",
        "fePointLight",
        "feSpecularLighting",
        "feSpotLight",
        "feTile",
        "feTurbulence",
        "filter",
        "g",
        "image",
        "line",
        "linearGradient",
        "marker",
        "mask",
        "mpath",
        "path",
        "pattern",
        "polygon",
        "polyline",
        "radialGradient",
        "rect",
        "set",
        "stop",
        "style",
        "svg",
        "switch",
        "symbol",
        "text",
        "textPath",
        "tref",
        "tspan",
        "use",
    ];
    let ghost known = svg_element_names();
    assert(names@.len() == known.len());
    assert(forall|j: int| 0 <= j < known.len() ==> #[trigger] names@[j]@ == known[j]);
    let mut i: usize = 0;
    while i < names.len()
        invariant
            known == svg_element_names(),
            names@.len() == known.len(),
            forall|j: int| 0 <= j < known.len() ==> #[trigger] names@[j]@ == known[j],
            i <= known.len(),
            forall|j: int| 0 <= j < i ==> known[j] != name@,
        decreases names.len() - i,
    {
        if text_eq(names[i], name) {
            assert(known[i as int] == name@);
            return true;
        }
        i = i + 1;
    }
    false
}

} // verus!
