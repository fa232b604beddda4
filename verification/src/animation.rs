use vstd::prelude::*;
use crate::document::{
    attribute_of, is_animation_tag, mpath_data, resolve_mpath, string_view, Document, NodeModel,
    XmlNode,
};
use crate::element::{
    collect_value_strings, format_for, keyframe_count, lemma_keyframe_count, key_spline_fields, key_spline_fields_of, nested_views,
    number_fields, number_fields_of, trimmed_attribute, value_format_for, value_strings_given,
    ValueFormat,
};
use crate::names::{is_svg_attribute, svg_attribute_names};
use crate::text::{text_eq, trim, trimmed, views};
use crate::timing::{timing_of, TimingSpec};

verus! {

/// How values are interpolated.
#[derive(Clone, Copy, Debug, PartialEq, Eq, Structural)]
pub enum CalcMode {
    Discrete,
    Linear,
    Paced,
    Spline,
}

/// The kind of an `animateTransform`.
#[derive(Clone, Copy, Debug, PartialEq, Eq, Structural)]
pub enum TransformType {
    Translate,
    Scale,
    Rotate,
    SkewX,
    SkewY,
}

/// What an animation element animates.
#[derive(Debug, PartialEq)]
pub enum AnimationTarget {
    /// A named presentation attribute (opacity, fill, width, ...).
    Attribute(String),
    /// An `animateTransform` of the given type.
    Transform(TransformType),
    /// An `animateMotion` (path supplied separately).
    Motion,
}

/// The model of an animation target.
pub enum TargetModel {
    Attribute(Seq<char>),
    Transform(TransformType),
    Motion,
}

impl View for AnimationTarget {
    type V = TargetModel;

    open spec fn view(&self) -> TargetModel {
        match self {
            AnimationTarget::Attribute(name) => TargetModel::Attribute(name@),
            AnimationTarget::Transform(t) => TargetModel::Transform(*t),
            AnimationTarget::Motion => TargetModel::Motion,
        }
    }
}

/// The `rotate` attribute of an `animateMotion`; an angle is kept as text.
#[derive(Debug, PartialEq)]
pub enum RotateSpec {
    /// No `rotate` attribute.
    Unspecified,
    Auto,
    AutoReverse,
    /// Any other `rotate` value, trimmed.
    Angle(String),
}

/// The model of a `rotate` attribute.
pub enum RotateModel {
    Unspecified,
    Auto,
    AutoReverse,
    Angle(Seq<char>),
}

impl View for RotateSpec {
    type V = RotateModel;

    open spec fn view(&self) -> RotateModel {
        match self {
            RotateSpec::Unspecified => RotateModel::Unspecified,
            RotateSpec::Auto => RotateModel::Auto,
            RotateSpec::AutoReverse => RotateModel::AutoReverse,
            RotateSpec::Angle(t) => RotateModel::Angle(t@),
        }
    }
}


/// The interpolation mode that a `calcMode` attribute names; `linear` when
/// it names none.
pub open spec fn calc_mode_named(node: NodeModel) -> CalcMode {
    match trimmed_attribute(node, "calcMode"@) {
        Some(t) => if t == "discrete"@ {
            CalcMode::Discrete
        } else if t == "paced"@ {
            CalcMode::Paced
        } else if t == "spline"@ {
            CalcMode::Spline
        } else {
            CalcMode::Linear
        },
        None => CalcMode::Linear,
    }
}

/// The transform type that a `type` attribute names; `translate` when it
/// names none.
pub open spec fn transform_type_named(node: NodeModel) -> TransformType {
    match trimmed_attribute(node, "type"@) {
        Some(t) => if t == "scale"@ {
            TransformType::Scale
        } else if t == "rotate"@ {
            TransformType::Rotate
        } else if t == "skewX"@ {
            TransformType::SkewX
        } else if t == "skewY"@ {
            TransformType::SkewY
        } else {
            TransformType::Translate
        },
        None => TransformType::Translate,
    }
}

/// What an element animates and how its values are formatted; `None` when
/// it is no animation element, or an `animate`/`set` whose `attributeName`
/// is missing or names no SVG attribute.
pub open spec fn target_of(node: NodeModel) -> Option<(TargetModel, ValueFormat)> {
    match node.tag {
        Some(t) => if t == "animateTransform"@ {
            Some((TargetModel::Transform(transform_type_named(node)), ValueFormat::Scalar))
        } else if t == "animateMotion"@ {
            Some((TargetModel::Motion, ValueFormat::Scalar))
        } else if t == "animate"@ || t == "set"@ {
            match trimmed_attribute(node, "attributeName"@) {
                Some(name) => if svg_attribute_names().contains(name) {
                    Some((TargetModel::Attribute(name), format_for(name)))
                } else {
                    None
                },
                None => None,
            }
        } else {
            None
        },
        None => None,
    }
}

/// Each `type` keyword of an `animateTransform` names its own kind of
/// transform (`translate`, `scale`, `rotate`, `skewX`, `skewY`, white space
/// around it ignored); any other `type`, or none, is a translation. The
/// values are numbers either way.
pub proof fn law_transform_type_keywords(node: NodeModel)
    requires
        node.tag == Some("animateTransform"@),
    ensures
        attribute_of(node, "type"@) matches Some(t) && trimmed(t) == "translate"@ ==> target_of(node)
            == Some((TargetModel::Transform(TransformType::Translate), ValueFormat::Scalar)),
        attribute_of(node, "type"@) matches Some(t) && trimmed(t) == "scale"@ ==> target_of(node)
            == Some((TargetModel::Transform(TransformType::Scale), ValueFormat::Scalar)),
        attribute_of(node, "type"@) matches Some(t) && trimmed(t) == "rotate"@ ==> target_of(node)
            == Some((TargetModel::Transform(TransformType::Rotate), ValueFormat::Scalar)),
        attribute_of(node, "type"@) matches Some(t) && trimmed(t) == "skewX"@ ==> target_of(node)
            == Some((TargetModel::Transform(TransformType::SkewX), ValueFormat::Scalar)),
        attribute_of(node, "type"@) matches Some(t) && trimmed(t) == "skewY"@ ==> target_of(node)
            == Some((TargetModel::Transform(TransformType::SkewY), ValueFormat::Scalar)),
        attribute_of(node, "type"@) matches Some(t) && trimmed(t) != "scale"@ && trimmed(t)
            != "rotate"@ && trimmed(t) != "skewX"@ && trimmed(t) != "skewY"@ ==> target_of(node)
            == Some((TargetModel::Transform(TransformType::Translate), ValueFormat::Scalar)),
        attribute_of(node, "type"@) is None ==> target_of(node) == Some(
            (TargetModel::Transform(TransformType::Translate), ValueFormat::Scalar),
        ),
{
    reveal_strlit("animateTransform");
    reveal_strlit("translate");
    reveal_strlit("scale");
    reveal_strlit("rotate");
    reveal_strlit("skewX");
    reveal_strlit("skewY");
    assert("rotate"@[0] != "scale"@[0]);
    assert("skewX"@[1] != "scale"@[1] && "skewX"@[0] != "rotate"@[0]);
    assert("skewY"@[1] != "scale"@[1] && "skewY"@[0] != "rotate"@[0] && "skewY"@[4]
        != "skewX"@[4]);
    assert("translate"@[0] != "scale"@[0] && "translate"@[0] != "rotate"@[0] && "translate"@[0]
        != "skewX"@[0] && "translate"@[0] != "skewY"@[0]);
}

/// Each `calcMode` keyword names its own interpolation mode (`discrete`,
/// `linear`, `paced`, `spline`, white space around it ignored); any other,
/// or none, is linear, and a `set` is always discrete.
pub proof fn law_calc_mode_keywords(node: NodeModel)
    ensures
        node.tag == Some("set"@) ==> calc_mode_of(node) == CalcMode::Discrete,
        node.tag != Some("set"@) ==> (attribute_of(node, "calcMode"@) matches Some(t) && trimmed(t)
            == "discrete"@ ==> calc_mode_of(node) == CalcMode::Discrete),
        node.tag != Some("set"@) ==> (attribute_of(node, "calcMode"@) matches Some(t) && trimmed(t)
            == "paced"@ ==> calc_mode_of(node) == CalcMode::Paced),
        node.tag != Some("set"@) ==> (attribute_of(node, "calcMode"@) matches Some(t) && trimmed(t)
            == "spline"@ ==> calc_mode_of(node) == CalcMode::Spline),
        node.tag != Some("set"@) ==> (attribute_of(node, "calcMode"@) matches Some(t) && trimmed(t)
            != "discrete"@ && trimmed(t) != "paced"@ && trimmed(t) != "spline"@ ==> calc_mode_of(
            node,
        ) == CalcMode::Linear),
        node.tag != Some("set"@) && attribute_of(node, "calcMode"@) is None ==> calc_mode_of(node)
            == CalcMode::Linear,
{
    reveal_strlit("discrete");
    reveal_strlit("paced");
    reveal_strlit("spline");
    assert("paced"@[0] != "discrete"@[0]);
    assert("spline"@[0] != "discrete"@[0] && "spline"@[0] != "paced"@[0]);
}

/// An `animate` or `set` on a known attribute animates that attribute (its
/// name trimmed): paints and colours (`fill`, `stroke`, `stop-color`,
/// `flood-color`) as colours, `visibility` and `display` as verbatim
/// strings, any other attribute as numbers.
pub proof fn law_attribute_targets_and_formats(node: NodeModel, name: Seq<char>)
    requires
        node.tag == Some("animate"@) || node.tag == Some("set"@),
        attribute_of(node, "attributeName"@) matches Some(n) && trimmed(n) == name,
        svg_attribute_names().contains(name),
    ensures
        (name == "fill"@ || name == "stroke"@ || name == "stop-color"@ || name == "flood-color"@)
            ==> target_of(node) == Some((TargetModel::Attribute(name), ValueFormat::Color)),
        (name == "visibility"@ || name == "display"@) ==> target_of(node) == Some(
            (TargetModel::Attribute(name), ValueFormat::DiscreteString),
        ),
        !(name == "fill"@ || name == "stroke"@ || name == "stop-color"@ || name == "flood-color"@
            || name == "visibility"@ || name == "display"@) ==> target_of(node) == Some(
            (TargetModel::Attribute(name), ValueFormat::Scalar),
        ),
{
    reveal_strlit("animate");
    reveal_strlit("set");
    reveal_strlit("animateTransform");
    reveal_strlit("animateMotion");
    reveal_strlit("fill");
    reveal_strlit("stroke");
    reveal_strlit("stop-color");
    reveal_strlit("flood-color");
    reveal_strlit("visibility");
    reveal_strlit("display");
    assert("visibility"@[0] != "fill"@[0] && "visibility"@[0] != "stroke"@[0] && "visibility"@[0]
        != "stop-color"@[0] && "visibility"@[0] != "flood-color"@[0]);
    assert("display"@[0] != "fill"@[0] && "display"@[0] != "stroke"@[0] && "display"@[0]
        != "stop-color"@[0] && "display"@[0] != "flood-color"@[0]);
    assert("animate"@.len() != "animateTransform"@.len() && "animate"@.len()
        != "animateMotion"@.len());
    assert("set"@.len() != "animateTransform"@.len() && "set"@.len() != "animateMotion"@.len());
}

/// Every element other than `animate`, `set`, `animateTransform` and
/// `animateMotion` animates nothing, and `animate`/`set` need a known
/// attribute name.
pub proof fn law_only_animation_elements_have_targets(node: NodeModel)
    ensures
        target_of(node) is Some ==> is_animation_tag(node.tag),
        (node.tag == Some("animate"@) || node.tag == Some("set"@)) ==> (target_of(node) is Some
            <==> (attribute_of(node, "attributeName"@) matches Some(n)
            && svg_attribute_names().contains(trimmed(n)))),
        node.tag == Some("animateMotion"@) ==> target_of(node) == Some(
            (TargetModel::Motion, ValueFormat::Scalar),
        ),
{
    reveal_strlit("animate");
    reveal_strlit("set");
    reveal_strlit("animateTransform");
    reveal_strlit("animateMotion");
    assert("animate"@.len() != "animateTransform"@.len() && "animate"@.len()
        != "animateMotion"@.len());
    assert("set"@.len() != "animateTransform"@.len() && "set"@.len() != "animateMotion"@.len());
    assert("animateMotion"@.len() != "animateTransform"@.len());
}

/// `additive` and `accumulate` are sums exactly when their trimmed value is
/// `sum`.
pub proof fn law_sum_keyword(node: NodeModel, name: Seq<char>)
    ensures
        is_sum(node, name) == (attribute_of(node, name) matches Some(t) && trimmed(t) == "sum"@),
{
}

/// The interpolation mode of an element: always discrete for `set`.
pub open spec fn calc_mode_of(node: NodeModel) -> CalcMode {
    if node.tag == Some("set"@) {
        CalcMode::Discrete
    } else {
        calc_mode_named(node)
    }
}

/// The motion path of an `animateMotion`: its `path` attribute, or else the
/// path data its `mpath` child points at.
pub open spec fn motion_path_of(nodes: Seq<NodeModel>, node: int) -> Option<Seq<char>> {
    if nodes[node].tag == Some("animateMotion"@) {
        match attribute_of(nodes[node], "path"@) {
            Some(p) => Some(p),
            None => mpath_data(nodes, node),
        }
    } else {
        None
    }
}

/// The `rotate` attribute of an element.
pub open spec fn rotate_of(node: NodeModel) -> RotateModel {
    match trimmed_attribute(node, "rotate"@) {
        Some(t) => if t == "auto"@ {
            RotateModel::Auto
        } else if t == "auto-reverse"@ {
            RotateModel::AutoReverse
        } else {
            RotateModel::Angle(t)
        },
        None => RotateModel::Unspecified,
    }
}

/// Whether the attribute `name` is `sum`.
pub open spec fn is_sum(node: NodeModel, name: Seq<char>) -> bool {
    trimmed_attribute(node, name) == Some("sum"@)
}

/// The key times of an element: the `;`-separated fields of its `keyTimes`
/// that read as numbers.
pub open spec fn key_times_of(node: NodeModel) -> Option<Seq<Seq<char>>> {
    match attribute_of(node, "keyTimes"@) {
        Some(t) => Some(number_fields_of(t, ';')),
        None => None,
    }
}

/// The splines of an element: the four numbers of each `keySplines`
/// segment that holds exactly four.
pub open spec fn key_splines_of(node: NodeModel) -> Option<Seq<Seq<Seq<char>>>> {
    match attribute_of(node, "keySplines"@) {
        Some(t) => Some(key_spline_fields_of(t)),
        None => None,
    }
}

/// Whether the `keyTimes` and `keySplines` of the element at `node` fit its
/// keyframes: one key time (a field that reads as a number) per keyframe,
/// and in spline mode one spline per interval between keyframes. A motion along a path has no keyframes to fit.
pub open spec fn key_counts_fit(nodes: Seq<NodeModel>, node: int) -> bool {
    let n = nodes[node];
    let count = keyframe_count(nodes, node);
    if n.tag == Some("animateMotion"@) {
        true
    } else {
        &&& match key_times_of(n) {
            Some(fields) => fields.len() == count,
            None => true,
        }
        &&& (calc_mode_of(n) == CalcMode::Spline ==> match key_splines_of(n) {
            Some(segments) => segments.len() + 1 == count,
            None => true,
        })
    }
}

/// The key times fit exactly when there is one number in `keyTimes` per
/// keyframe value, and in spline mode one spline per interval between
/// keyframes; a motion along a path is not held to them.
pub proof fn law_key_counts_match_keyframes<F: Fn(&str, &str) -> String>(
    nodes: Seq<NodeModel>,
    node: int,
    add_by: F,
    r: Seq<String>,
)
    requires
        0 <= node < nodes.len(),
        value_strings_given(nodes, node, add_by, r),
    ensures
        nodes[node].tag == Some("animateMotion"@) ==> key_counts_fit(nodes, node),
        nodes[node].tag != Some("animateMotion"@) ==> (key_counts_fit(nodes, node) <==> (
        (key_times_of(nodes[node]) matches Some(times) ==> times.len() == r.len()) && (calc_mode_of(
            nodes[node],
        ) == CalcMode::Spline ==> (key_splines_of(nodes[node]) matches Some(splines)
            ==> splines.len() + 1 == r.len())))),
{
    lemma_keyframe_count(nodes, node, add_by, r);
}

/// The models of an optional list of texts.
pub open spec fn optional_views(v: Option<Vec<String>>) -> Option<Seq<Seq<char>>> {
    match v {
        Some(x) => Some(views(x@)),
        None => None,
    }
}

/// The models of an optional list of field lists.
pub open spec fn optional_nested_views(v: Option<Vec<Vec<String>>>) -> Option<Seq<Seq<Seq<char>>>> {
    match v {
        Some(x) => Some(nested_views(x@)),
        None => None,
    }
}

/// One animation element, read into its parts; the numbers in it are kept as
/// text.
pub struct AnimationSpec {
    pub target: AnimationTarget,
    pub format: ValueFormat,
    pub timing: TimingSpec,
    /// Keyframe values to be read as numbers (empty when `format` is
    /// `DiscreteString`).
    pub values: Vec<String>,
    /// Verbatim string keyframes (used only when `format` is `DiscreteString`).
    pub discrete_values: Vec<String>,
    pub key_times: Option<Vec<String>>,
    pub calc_mode: CalcMode,
    pub key_splines: Option<Vec<Vec<String>>>,
    pub additive: bool,
    pub accumulate: bool,
    /// Inline `path`/`mpath` for `animateMotion`, as raw path data.
    pub motion_path: Option<String>,
    pub motion_rotate: RotateSpec,
}

impl AnimationSpec {
    /// Whether `self` is what the element at `node` says, with `add_by`
    /// giving the text of `from + by`.
    pub open spec fn read_from<F: Fn(&str, &str) -> String>(
        self,
        nodes: Seq<NodeModel>,
        node: int,
        add_by: F,
    ) -> bool {
        let n = nodes[node];
        &&& target_of(n) == Some((self.target@, self.format))
        &&& self.timing@ == timing_of(n)
        &&& self.calc_mode == calc_mode_of(n)
        &&& if self.format == ValueFormat::DiscreteString {
            self.values@.len() == 0 && value_strings_given(nodes, node, add_by, self.discrete_values@)
        } else {
            self.discrete_values@.len() == 0 && value_strings_given(nodes, node, add_by, self.values@)
        }
        &&& optional_views(self.key_times) == key_times_of(n)
        &&& optional_nested_views(self.key_splines) == key_splines_of(n)
        &&& self.additive == is_sum(n, "additive"@)
        &&& self.accumulate == is_sum(n, "accumulate"@)
        &&& string_view(self.motion_path) == motion_path_of(nodes, node)
        &&& self.motion_rotate@ == rotate_of(n)
    }
}

/// Whether the trimmed attribute `name` is `sum`.
fn attribute_is_sum(node: &XmlNode, name: &str) -> (r: bool)
    ensures
        r == is_sum(node@, name@),
{
    match node.attribute(name) {
        Some(t) => text_eq(trim(t), "sum"),
        None => false,
    }
}

/// The target and value format of an animation element.
fn read_target(node: &XmlNode) -> (r: Option<(AnimationTarget, ValueFormat)>)
    ensures
        match r {
            Some((target, format)) => target_of(node@) == Some((target@, format)),
            None => target_of(node@) is None,
        },
{
    let tag = match &node.tag {
        Some(t) => t.as_str(),
        None => return None,
    };
    if text_eq(tag, "animateTransform") {
        let transform_type = match node.attribute("type") {
            Some(t) => {
                let t = trim(t);
                if text_eq(t, "scale") {
                    TransformType::Scale
                } else if text_eq(t, "rotate") {
                    TransformType::Rotate
                } else if text_eq(t, "skewX") {
                    TransformType::SkewX
                } else if text_eq(t, "skewY") {
                    TransformType::SkewY
                } else {
                    TransformType::Translate
                }
            },
            None => TransformType::Translate,
        };
        Some((AnimationTarget::Transform(transform_type), ValueFormat::Scalar))
    } else if text_eq(tag, "animateMotion") {
        Some((AnimationTarget::Motion, ValueFormat::Scalar))
    } else if text_eq(tag, "animate") || text_eq(tag, "set") {
        let name = trim(node.attribute("attributeName")?);
        if !is_svg_attribute(name) {
            return None;
        }
        let format = value_format_for(name);
        Some((AnimationTarget::Attribute(name.to_owned()), format))
    } else {
        None
    }
}

/// The interpolation mode that the `calcMode` attribute names.
fn read_calc_mode(node: &XmlNode) -> (r: CalcMode)
    ensures
        r == calc_mode_named(node@),
{
    match node.attribute("calcMode") {
        Some(t) => {
            let t = trim(t);
            if text_eq(t, "discrete") {
                CalcMode::Discrete
            } else if text_eq(t, "paced") {
                CalcMode::Paced
            } else if text_eq(t, "spline") {
                CalcMode::Spline
            } else {
                CalcMode::Linear
            }
        },
        None => CalcMode::Linear,
    }
}

/// The `rotate` attribute.
fn read_rotate(node: &XmlNode) -> (r: RotateSpec)
    ensures
        r@ == rotate_of(node@),
{
    match node.attribute("rotate") {
        Some(t) => {
            let t = trim(t);
            if text_eq(t, "auto") {
                RotateSpec::Auto
            } else if text_eq(t, "auto-reverse") {
                RotateSpec::AutoReverse
            } else {
                RotateSpec::Angle(t.to_owned())
            }
        },
        None => RotateSpec::Unspecified,
    }
}

impl AnimationSpec {
    /// Reads the animation element at `node`; `None` when it is no animation
    /// element, an `animate`/`set` whose `attributeName` names no SVG
    /// attribute, one whose `keyTimes` or `keySplines` do not fit its
    /// keyframes, or an `animateMotion` with no path to follow (no `path`, and
    /// no `mpath` whose target is found); such an animation is skipped. `add_by`
    /// gives the text of `from + by` for a `from`/`by` animation.
    pub fn parse<F: Fn(&str, &str) -> String>(doc: &Document, node: usize, add_by: &F) -> (r:
        Option<AnimationSpec>)
        requires
            node < doc@.len(),
            forall|a: &str, b: &str| call_requires(*add_by, (a, b)),
        ensures
            r is Some <==> (target_of(doc@[node as int]) is Some && key_counts_fit(
                doc@,
                node as int,
            ) && (doc@[node as int].tag == Some("animateMotion"@) ==> motion_path_of(
                doc@,
                node as int,
            ) is Some)),
            r matches Some(a) ==> a.read_from(doc@, node as int, *add_by),
    {
        let n = doc.node(node);
        let (target, format) = read_target(n)?;
        let is_set = match &n.tag {
            Some(t) => text_eq(t.as_str(), "set"),
            None => false,
        };
        let calc_mode = if is_set {
            CalcMode::Discrete
        } else {
            read_calc_mode(n)
        };
        let raw_values = collect_value_strings(doc, node, add_by);
        proof {
            lemma_keyframe_count(doc@, node as int, *add_by, raw_values@);
        }
        let count = raw_values.len();
        let (values, discrete_values) = match format {
            ValueFormat::DiscreteString => (Vec::new(), raw_values),
            _ => (raw_values, Vec::new()),
        };
        let key_times = match n.attribute("keyTimes") {
            Some(t) => Some(number_fields(t, ';')),
            None => None,
        };
        let key_splines = match n.attribute("keySplines") {
            Some(t) => Some(key_spline_fields(t)),
            None => None,
        };
        let is_motion = match &n.tag {
            Some(t) => text_eq(t.as_str(), "animateMotion"),
            None => false,
        };
        if !is_motion {
            match &key_times {
                Some(fields) => if fields.len() != count {
                    return None;
                },
                None => {},
            }
            if calc_mode == CalcMode::Spline {
                match &key_splines {
                    Some(segments) => if count == 0 || segments.len() != count - 1 {
                        return None;
                    },
                    None => {},
                }
            }
        }
        let additive = attribute_is_sum(n, "additive");
        let accumulate = attribute_is_sum(n, "accumulate");
        let motion_path = if is_motion {
            match n.attribute("path") {
                Some(p) => Some(p.to_owned()),
                None => resolve_mpath(doc, node),
            }
        } else {
            None
        };
        if is_motion && motion_path.is_none() {
            return None;
        }
        let motion_rotate = read_rotate(n);
        let timing = TimingSpec::parse(n);
        Some(
            AnimationSpec {
                target,
                format,
                timing,
                values,
                discrete_values,
                key_times,
                calc_mode,
                key_splines,
                additive,
                accumulate,
                motion_path,
                motion_rotate,
            },
        )
    }
}

} // verus!
