use vstd::prelude::*;
use crate::document::{attribute_of, lemma_parent_in_range, parent_of, Document, NodeModel, XmlNode};
use crate::number::{keep_numbers, numbers_only};
use crate::text::{
    drop_empty, keep_non_empty, split, split_seq, text_eq, trim, trim_all, trim_each, trimmed,
    views,
};

verus! {

/// How interpolated components are rendered back into an attribute string.
#[derive(Clone, Copy, Debug, PartialEq, Eq, Structural)]
pub enum ValueFormat {
    /// Single scalar, formatted as a plain number ("18.5").
    Scalar,
    /// Three components clamped to 0..255, formatted as "#rrggbb".
    Color,
    /// A discrete string value taken verbatim (for `<set>` / non-numeric).
    DiscreteString,
}

/// The value format of an animated attribute: colours for the paint and
/// colour attributes, verbatim strings for `visibility` and `display`,
/// numbers otherwise.
pub open spec fn format_for(name: Seq<char>) -> ValueFormat {
    if name == "fill"@ || name == "stroke"@ || name == "stop-color"@ || name == "flood-color"@ {
        ValueFormat::Color
    } else if name == "visibility"@ || name == "display"@ {
        ValueFormat::DiscreteString
    } else {
        ValueFormat::Scalar
    }
}

/// The value format of the attribute named `name`.
pub fn value_format_for(name: &str) -> (r: ValueFormat)
    ensures
        r == format_for(name@),
{
    if text_eq(name, "fill") || text_eq(name, "stroke") || text_eq(name, "stop-color") || text_eq(
        name,
        "flood-color",
    ) {
        ValueFormat::Color
    } else if text_eq(name, "visibility") || text_eq(name, "display") {
        ValueFormat::DiscreteString
    } else {
        ValueFormat::Scalar
    }
}

/// The attribute `name` of a node, trimmed.
pub open spec fn trimmed_attribute(node: NodeModel, name: Seq<char>) -> Option<Seq<char>> {
    match attribute_of(node, name) {
        Some(v) => Some(trimmed(v)),
        None => None,
    }
}

/// The entries of a `values` list: split at `;`, trimmed, empty ones dropped.
pub open spec fn value_list(values: Seq<char>) -> Seq<Seq<char>> {
    drop_empty(trim_each(split_seq(values, seq![';'])))
}

/// Keeping the non-empty pieces of trimmed pieces keeps trimmed pieces.
proof fn lemma_drop_empty_trimmed(v: Seq<Seq<char>>)
    requires
        forall|i: int| 0 <= i < v.len() ==> trimmed(#[trigger] v[i]) == v[i],
    ensures
        forall|i: int|
            0 <= i < drop_empty(v).len() ==> (#[trigger] drop_empty(v)[i]).len() > 0 && trimmed(
                drop_empty(v)[i],
            ) == drop_empty(v)[i],
    decreases v.len(),
{
    if v.len() > 0 {
        assert forall|i: int| 0 <= i < v.drop_last().len() implies trimmed(
            #[trigger] v.drop_last()[i],
        ) == v.drop_last()[i] by {
            assert(v.drop_last()[i] == v[i]);
        }
        lemma_drop_empty_trimmed(v.drop_last());
        let d = drop_empty(v.drop_last());
        assert(trimmed(v[v.len() - 1]) == v[v.len() - 1]);
        if v.last().len() > 0 {
            assert forall|i: int| 0 <= i < drop_empty(v).len() implies (#[trigger] drop_empty(
                v,
            )[i]).len() > 0 && trimmed(drop_empty(v)[i]) == drop_empty(v)[i] by {
                if i < d.len() {
                    assert(drop_empty(v)[i] == d[i]);
                }
            }
        }
    }
}

/// Every entry of a `values` list is non-empty and has no white space
/// around it.
pub proof fn law_value_list_entries_trimmed(values: Seq<char>)
    ensures
        forall|i: int|
            0 <= i < value_list(values).len() ==> (#[trigger] value_list(values)[i]).len() > 0
                && trimmed(value_list(values)[i]) == value_list(values)[i],
{
    let pieces = trim_each(split_seq(values, seq![';']));
    assert forall|i: int| 0 <= i < pieces.len() implies trimmed(#[trigger] pieces[i]) == pieces[i] by {
        crate::text::lemma_trimmed_idempotent(split_seq(values, seq![';'])[i]);
    }
    lemma_drop_empty_trimmed(pieces);
}

/// Splitting text that holds none of the separators gives the text whole.
pub proof fn lemma_split_without_separator(s: Seq<char>, seps: Seq<char>)
    requires
        forall|i: int| 0 <= i < s.len() ==> !seps.contains(#[trigger] s[i]),
    ensures
        split_seq(s, seps) == seq![s],
    decreases s.len(),
{
    if s.len() > 0 {
        lemma_split_without_separator(s.drop_last(), seps);
        assert(!seps.contains(s[s.len() - 1]));
        assert(s.drop_last().push(s.last()) =~= s);
    } else {
        assert(s =~= Seq::<char>::empty());
    }
}

/// A `values` list is split at `;` alone: its keyframes are its `;`-separated
/// entries, trimmed, without the empty ones; an entry may hold commas or
/// spaces (the numbers of one keyframe).
pub proof fn law_values_split_at_semicolons<F: Fn(&str, &str) -> String>(
    nodes: Seq<NodeModel>,
    node: int,
    add_by: F,
    r: Seq<String>,
    values: Seq<char>,
)
    requires
        0 <= node < nodes.len(),
        attribute_of(nodes[node], "values"@) == Some(values),
        value_strings_given(nodes, node, add_by, r),
    ensures
        views(r) == drop_empty(trim_each(split_seq(values, seq![';']))),
{
}

/// A `values` list without `;` is one keyframe: the whole list, trimmed
/// (so `0,0` or `1 2 3` is one keyframe of several numbers).
pub proof fn law_values_without_semicolon_is_one_keyframe<F: Fn(&str, &str) -> String>(
    nodes: Seq<NodeModel>,
    node: int,
    add_by: F,
    r: Seq<String>,
    values: Seq<char>,
)
    requires
        0 <= node < nodes.len(),
        attribute_of(nodes[node], "values"@) == Some(values),
        forall|i: int| 0 <= i < values.len() ==> #[trigger] values[i] != ';',
        trimmed(values).len() > 0,
        value_strings_given(nodes, node, add_by, r),
    ensures
        r.len() == 1,
        r[0]@ == trimmed(values),
{
    assert forall|i: int| 0 <= i < values.len() implies !seq![';'].contains(#[trigger] values[i]) by {
        if seq![';'].contains(values[i]) {
            let k = choose|k: int| 0 <= k < 1 && seq![';'][k] == values[i];
            assert(seq![';'][k] == ';');
        }
    }
    lemma_split_without_separator(values, seq![';']);
    let pieces = trim_each(seq![values]);
    assert(pieces =~= seq![trimmed(values)]);
    assert(pieces.drop_last() =~= Seq::<Seq<char>>::empty());
    assert(drop_empty(pieces.drop_last()) =~= Seq::<Seq<char>>::empty());
    assert(drop_empty(pieces) =~= seq![trimmed(values)]);
    assert(views(r) =~= seq![trimmed(values)]);
    assert(views(r)[0] == r[0]@);
}

/// Without `values`, `from` and `to` give two keyframes, `from` then `to`,
/// each trimmed.
pub proof fn law_from_to_gives_two_keyframes<F: Fn(&str, &str) -> String>(
    nodes: Seq<NodeModel>,
    node: int,
    add_by: F,
    r: Seq<String>,
    from: Seq<char>,
    to: Seq<char>,
)
    requires
        0 <= node < nodes.len(),
        attribute_of(nodes[node], "values"@) is None,
        attribute_of(nodes[node], "from"@) == Some(from),
        attribute_of(nodes[node], "to"@) == Some(to),
        value_strings_given(nodes, node, add_by, r),
    ensures
        r.len() == 2,
        r[0]@ == trimmed(from),
        r[1]@ == trimmed(to),
{
    assert(views(r) =~= seq![trimmed(from), trimmed(to)]);
    assert(views(r)[0] == r[0]@ && views(r)[1] == r[1]@);
}

/// An `animate` with only `to` runs from its parent's own value of the
/// animated attribute (both trimmed) when the parent has one.
pub proof fn law_to_animation_starts_at_target_value<F: Fn(&str, &str) -> String>(
    nodes: Seq<NodeModel>,
    node: int,
    add_by: F,
    r: Seq<String>,
    parent: int,
    name: Seq<char>,
    base: Seq<char>,
    to: Seq<char>,
)
    requires
        0 <= node < nodes.len(),
        nodes[node].tag == Some("animate"@),
        attribute_of(nodes[node], "values"@) is None,
        attribute_of(nodes[node], "from"@) is None,
        attribute_of(nodes[node], "to"@) == Some(to),
        attribute_of(nodes[node], "attributeName"@) matches Some(n) && trimmed(n) == name,
        parent_of(nodes, node as usize) == Some(parent),
        attribute_of(nodes[parent], name) == Some(base),
        value_strings_given(nodes, node, add_by, r),
    ensures
        r.len() == 2,
        r[0]@ == trimmed(base),
        r[1]@ == trimmed(to),
{
    assert(views(r) =~= seq![trimmed(base), trimmed(to)]);
    assert(views(r)[0] == r[0]@ && views(r)[1] == r[1]@);
}

/// Whether `result` is what `add_by` may give for the texts `from` and `by`.
pub open spec fn sum_given<F: Fn(&str, &str) -> String>(
    add_by: F,
    from: Seq<char>,
    by: Seq<char>,
    result: String,
) -> bool {
    exists|a: &str, b: &str| a@ == from && b@ == by && call_ensures(add_by, (a, b), result)
}

/// The base value of a `to` animation: for an `animate` element, the
/// target's (its parent's) own value of the animated attribute, trimmed.
pub open spec fn to_base_of(nodes: Seq<NodeModel>, node: int) -> Option<Seq<char>> {
    if nodes[node].tag == Some("animate"@) {
        match (parent_of(nodes, node as usize), trimmed_attribute(nodes[node], "attributeName"@)) {
            (Some(p), Some(name)) => trimmed_attribute(nodes[p], name),
            _ => None,
        }
    } else {
        None
    }
}

/// Whether `r` is the list of keyframe value strings of the element at
/// `node`, with `add_by` giving the text of `from + by`. A `to` animation
/// runs from its base value when it has one.
pub open spec fn value_strings_given<F: Fn(&str, &str) -> String>(
    nodes: Seq<NodeModel>,
    node: int,
    add_by: F,
    r: Seq<String>,
) -> bool {
    let node_position = node;
    let node = nodes[node];
    match attribute_of(node, "values"@) {
        Some(values) => views(r) == value_list(values),
        None => match (
            trimmed_attribute(node, "from"@),
            trimmed_attribute(node, "to"@),
            trimmed_attribute(node, "by"@),
        ) {
            (Some(from), Some(to), _) => views(r) == seq![from, to],
            (Some(from), None, Some(by)) => r.len() == 2 && r[0]@ == from && sum_given(
                add_by,
                from,
                by,
                r[1],
            ),
            (None, Some(to), _) => match to_base_of(nodes, node_position) {
                Some(base) => views(r) == seq![base, to],
                None => views(r) == seq![to],
            },
            _ => r.len() == 0,
        },
    }
}

/// The trimmed attribute `name` of `node`, as an owned text.
fn trimmed_attribute_text(node: &XmlNode, name: &str) -> (r: Option<String>)
    ensures
        crate::document::string_view(r) == trimmed_attribute(node@, name@),
{
    match node.attribute(name) {
        Some(v) => Some(trim(v).to_owned()),
        None => None,
    }
}

/// The number of keyframes of the element at `node`.
pub open spec fn keyframe_count(nodes: Seq<NodeModel>, node: int) -> int {
    let n = nodes[node];
    match attribute_of(n, "values"@) {
        Some(values) => value_list(values).len() as int,
        None => match (
            trimmed_attribute(n, "from"@),
            trimmed_attribute(n, "to"@),
            trimmed_attribute(n, "by"@),
        ) {
            (Some(_), Some(_), _) => 2,
            (Some(_), None, Some(_)) => 2,
            (None, Some(_), _) => if to_base_of(nodes, node) is Some {
                2
            } else {
                1
            },
            _ => 0,
        },
    }
}

/// The keyframe value strings have as many entries as there are keyframes.
pub proof fn lemma_keyframe_count<F: Fn(&str, &str) -> String>(
    nodes: Seq<NodeModel>,
    node: int,
    add_by: F,
    r: Seq<String>,
)
    requires
        value_strings_given(nodes, node, add_by, r),
    ensures
        r.len() == keyframe_count(nodes, node),
{
    assert(views(r).len() == r.len());
}

/// The base value of a `to` animation at `node`.
fn to_base(doc: &Document, node: usize) -> (r: Option<String>)
    requires
        node < doc@.len(),
    ensures
        crate::document::string_view(r) == to_base_of(doc@, node as int),
{
    let element = doc.node(node);
    let is_animate = match &element.tag {
        Some(t) => text_eq(t.as_str(), "animate"),
        None => false,
    };
    if !is_animate {
        return None;
    }
    let parent = doc.parent(node)?;
    proof {
        lemma_parent_in_range(doc@, node, doc@.len() as int);
    }
    let name = trimmed_attribute_text(element, "attributeName")?;
    trimmed_attribute_text(doc.node(parent), name.as_str())
}

/// The keyframe value strings of an animation element: the `values` list, or
/// else `from`/`to`/`by` normalised into a list. `add_by` gives the text of
/// `from + by` componentwise.
pub fn collect_value_strings<F: Fn(&str, &str) -> String>(
    doc: &Document,
    node: usize,
    add_by: &F,
) -> (r: Vec<String>)
    requires
        node < doc@.len(),
        forall|a: &str, b: &str| call_requires(*add_by, (a, b)),
    ensures
        value_strings_given(doc@, node as int, *add_by, r@),
{
    let position = node;
    let node = doc.node(position);
    if let Some(values) = node.attribute("values") {
        let semicolon = [';'];
        assert(semicolon@ =~= seq![';']);
        return keep_non_empty(trim_all(&split(values, &semicolon)));
    }
    let from = trimmed_attribute_text(node, "from");
    let to = trimmed_attribute_text(node, "to");
    let by = trimmed_attribute_text(node, "by");
    match (from, to, by) {
        (Some(from), Some(to), _) => {
            let mut r = Vec::new();
            r.push(from);
            r.push(to);
            assert(views(r@) =~= seq![r@[0]@, r@[1]@]);
            r
        },
        (Some(from), None, Some(by)) => {
            let sum = add_by(from.as_str(), by.as_str());
            let mut r = Vec::new();
            r.push(from);
            r.push(sum);
            assert(r@[1] == sum);
            r
        },
        (None, Some(to), _) => {
            let mut r = Vec::new();
            match to_base(doc, position) {
                Some(base) => r.push(base),
                None => {},
            }
            r.push(to);
            assert(views(r@) =~= seq![r@[0]@] || views(r@) =~= seq![r@[0]@, r@[1]@]);
            r
        },
        _ => Vec::new(),
    }
}


/// The characters that separate the numbers of a keyframe value.
pub open spec fn component_separators() -> Seq<char> {
    seq![' ', ',', '\t', '\n']
}

/// The number tokens of a keyframe value: the non-empty pieces between
/// spaces, commas, tabs and newlines.
pub open spec fn component_tokens_of(text: Seq<char>) -> Seq<Seq<char>> {
    drop_empty(split_seq(text, component_separators()))
}

/// Splits a keyframe value into its number tokens.
pub fn component_tokens(text: &str) -> (r: Vec<String>)
    ensures
        views(r@) == component_tokens_of(text@),
{
    let separators = [' ', ',', '\t', '\n'];
    assert(separators@ =~= component_separators());
    keep_non_empty(split(text, &separators))
}

/// The numbers of a list separated by `separator`: its fields, each trimmed,
/// that read as numbers (the others are left out).
pub open spec fn number_fields_of(text: Seq<char>, separator: char) -> Seq<Seq<char>> {
    numbers_only(trim_each(split_seq(text, seq![separator])))
}

/// Splits a number list at `separator`, trims each field and keeps those
/// that read as numbers.
pub fn number_fields(text: &str, separator: char) -> (r: Vec<String>)
    ensures
        views(r@) == number_fields_of(text@, separator),
{
    let separators = [separator];
    assert(separators@ =~= seq![separator]);
    keep_numbers(trim_all(&split(text, &separators)))
}

/// The `keySplines` segments among `segments` that hold exactly four
/// numbers (separated by spaces), each as those numbers.
pub open spec fn spline_segments(segments: Seq<Seq<char>>) -> Seq<Seq<Seq<char>>>
    decreases segments.len(),
{
    if segments.len() == 0 {
        Seq::empty()
    } else if number_fields_of(segments.last(), ' ').len() == 4 {
        spline_segments(segments.drop_last()).push(number_fields_of(segments.last(), ' '))
    } else {
        spline_segments(segments.drop_last())
    }
}

/// The four numbers of each `keySplines` segment: the `;`-separated segments
/// that hold exactly four numbers (the others are left out).
pub open spec fn key_spline_fields_of(text: Seq<char>) -> Seq<Seq<Seq<char>>> {
    spline_segments(split_seq(text, seq![';']))
}

/// The models of a list of field lists.
pub open spec fn nested_views(v: Seq<Vec<String>>) -> Seq<Seq<Seq<char>>> {
    v.map_values(|fields: Vec<String>| views(fields@))
}

/// Splits a `keySplines` value into the four numbers of each of its segments.
pub fn key_spline_fields(text: &str) -> (r: Vec<Vec<String>>)
    ensures
        nested_views(r@) == key_spline_fields_of(text@),
{
    let semicolon = [';'];
    assert(semicolon@ =~= seq![';']);
    let segments = split(text, &semicolon);
    let ghost segs = views(segments@);
    let mut out: Vec<Vec<String>> = Vec::new();
    let mut i: usize = 0;
    assert(segs.take(0) =~= Seq::<Seq<char>>::empty());
    while i < segments.len()
        invariant
            segs == views(segments@),
            i <= segs.len(),
            nested_views(out@) == spline_segments(segs.take(i as int)),
        decreases segments.len() - i,
    {
        assert(segs.take(i + 1).drop_last() =~= segs.take(i as int));
        assert(segs.take(i + 1).last() == segs[i as int]);
        let fields = number_fields(segments[i].as_str(), ' ');
        if fields.len() == 4 {
            let ghost before = out@;
            out.push(fields);
            assert(nested_views(out@) =~= nested_views(before).push(views(fields@)));
        }
        i = i + 1;
    }
    assert(segs.take(segs.len() as int) =~= segs);
    out
}

} // verus!
