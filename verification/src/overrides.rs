use vstd::prelude::*;
use crate::document::{attribute_of, text_view, Document, NodeModel};
use crate::text::text_eq;

verus! {

/// One override: the node, the attribute name, the value.
pub struct Override {
    pub node: usize,
    pub name: String,
    pub value: String,
}

/// Per-frame animated attribute values, keyed by node and attribute name;
/// a later value for the same key replaces an earlier one.
pub struct AnimationOverrides {
    entries: Vec<Override>,
}

/// The map that a list of overrides, written in order, leaves.
pub open spec fn overrides_map(entries: Seq<(usize, Seq<char>, Seq<char>)>) -> Map<
    (usize, Seq<char>),
    Seq<char>,
>
    decreases entries.len(),
{
    if entries.len() == 0 {
        Map::empty()
    } else {
        let last = entries.last();
        overrides_map(entries.drop_last()).insert((last.0, last.1), last.2)
    }
}

/// The models of a list of overrides.
pub open spec fn override_models(entries: Seq<Override>) -> Seq<(usize, Seq<char>, Seq<char>)> {
    entries.map_values(|o: Override| (o.node, o.name@, o.value@))
}

impl View for AnimationOverrides {
    type V = Map<(usize, Seq<char>), Seq<char>>;

    closed spec fn view(&self) -> Map<(usize, Seq<char>), Seq<char>> {
        overrides_map(override_models(self.entries@))
    }
}

/// The value that `map` holds for `key`, if any.
pub open spec fn lookup(map: Map<(usize, Seq<char>), Seq<char>>, key: (usize, Seq<char>)) -> Option<
    Seq<char>,
> {
    if map.dom().contains(key) {
        Some(map[key])
    } else {
        None
    }
}

impl AnimationOverrides {
    /// An empty override map.
    pub fn new() -> (r: AnimationOverrides)
        ensures
            r@ == Map::<(usize, Seq<char>), Seq<char>>::empty(),
    {
        let r = AnimationOverrides { entries: Vec::new() };
        assert(override_models(r.entries@) =~= Seq::empty());
        r
    }

    /// Sets the value of attribute `name` of the node at `node`.
    pub fn insert(&mut self, node: usize, name: String, value: String)
        ensures
            final(self)@ == old(self)@.insert((node, name@), value@),
    {
        let ghost before = self.entries@;
        self.entries.push(Override { node, name, value });
        assert(override_models(self.entries@).drop_last() =~= override_models(before));
    }

    /// The value set for attribute `name` of the node at `node`, if any.
    pub fn get(&self, node: usize, name: &str) -> (r: Option<&str>)
        ensures
            text_view(r) == lookup(self@, (node, name@)),
    {
        let ghost models = override_models(self.entries@);
        let mut i: usize = self.entries.len();
        assert(models.take(models.len() as int) =~= models);
        while i > 0
            invariant
                models == override_models(self.entries@),
                i <= models.len(),
                lookup(self@, (node, name@)) == lookup(
                    overrides_map(models.take(i as int)),
                    (node, name@),
                ),
            decreases i,
        {
            let entry = &self.entries[i - 1];
            assert(models.take(i as int).drop_last() =~= models.take(i - 1));
            if entry.node == node && text_eq(entry.name.as_str(), name) {
                return Some(entry.value.as_str());
            }
            i = i - 1;
        }
        None
    }
}


/// What one animation of an element contributes at an instant, as far as
/// baking decides on it: an attribute value, or a transform whose matrix the
/// caller holds.
pub enum Evaluated {
    Attribute { name: String, value: String },
    Transform { additive: bool },
    Nothing,
}

/// The model of a contribution.
pub enum EvaluatedModel {
    Attribute(Seq<char>, Seq<char>),
    Transform(bool),
    Nothing,
}

impl View for Evaluated {
    type V = EvaluatedModel;

    open spec fn view(&self) -> EvaluatedModel {
        match self {
            Evaluated::Attribute { name, value } => EvaluatedModel::Attribute(name@, value@),
            Evaluated::Transform { additive } => EvaluatedModel::Transform(*additive),
            Evaluated::Nothing => EvaluatedModel::Nothing,
        }
    }
}

/// The transform that an element's transform contributions compose onto.
#[derive(Clone, Copy, Debug, PartialEq, Eq, Structural)]
pub enum TransformBase {
    /// The first contribution is not additive: it replaces the element's own transform.
    Identity,
    /// The first contribution is additive: it composes onto the element's own transform.
    Own,
}

/// The models of a list of contributions.
pub open spec fn evaluated_models(v: Seq<Evaluated>) -> Seq<EvaluatedModel> {
    v.map_values(|e: Evaluated| e@)
}

/// The override map after the attribute contributions `cs` of the node at
/// `node` were written in order.
pub open spec fn attribute_writes(
    overrides: Map<(usize, Seq<char>), Seq<char>>,
    node: usize,
    cs: Seq<EvaluatedModel>,
) -> Map<(usize, Seq<char>), Seq<char>>
    decreases cs.len(),
{
    if cs.len() == 0 {
        overrides
    } else {
        let before = attribute_writes(overrides, node, cs.drop_last());
        match cs.last() {
            EvaluatedModel::Attribute(name, value) => before.insert((node, name), value),
            _ => before,
        }
    }
}

/// The base that transform contributions compose onto, decided by the first
/// of them: the identity when it is not additive (it replaces the element's
/// own transform), the element's own transform when it is additive; `None`
/// without any. Later contributions layer onto that base in order.
pub open spec fn transform_base_of(cs: Seq<EvaluatedModel>) -> Option<TransformBase>
    decreases cs.len(),
{
    if cs.len() == 0 {
        None
    } else {
        match transform_base_of(cs.drop_last()) {
            Some(base) => Some(base),
            None => match cs.last() {
                EvaluatedModel::Transform(additive) => Some(
                    if additive {
                        TransformBase::Own
                    } else {
                        TransformBase::Identity
                    },
                ),
                _ => None,
            },
        }
    }
}

/// Once a transform contribution has set the base, contributions that follow
/// it do not change it: the first transform contribution decides.
pub proof fn law_first_transform_decides_base(cs: Seq<EvaluatedModel>, more: Seq<EvaluatedModel>)
    requires
        transform_base_of(cs) is Some,
    ensures
        transform_base_of(cs + more) == transform_base_of(cs),
    decreases more.len(),
{
    if more.len() > 0 {
        law_first_transform_decides_base(cs, more.drop_last());
        assert((cs + more).drop_last() =~= cs + more.drop_last());
    } else {
        assert(cs + more =~= cs);
    }
}

/// The base is set by the first transform contribution: the element's own
/// transform when it is additive, the identity when it replaces; without
/// any transform contribution there is no base.
pub proof fn law_first_transform_sets_base(cs: Seq<EvaluatedModel>, i: int)
    requires
        0 <= i <= cs.len(),
        forall|j: int| 0 <= j < i ==> !(#[trigger] cs[j] is Transform),
    ensures
        i == cs.len() ==> transform_base_of(cs) is None,
        i < cs.len() && cs[i] == EvaluatedModel::Transform(true) ==> transform_base_of(cs) == Some(
            TransformBase::Own,
        ),
        i < cs.len() && cs[i] == EvaluatedModel::Transform(false) ==> transform_base_of(cs) == Some(
            TransformBase::Identity,
        ),
    decreases cs.len(),
{
    if cs.len() > 0 {
        if i == cs.len() {
            law_first_transform_sets_base(cs.drop_last(), i - 1);
            assert(!(cs[i - 1] is Transform));
        } else {
            law_first_transform_sets_base(cs.drop_last(), i);
        }
    }
}

/// Whether the contribution `c` writes the attribute `name`.
pub open spec fn writes_attribute(c: EvaluatedModel, name: Seq<char>) -> bool {
    match c {
        EvaluatedModel::Attribute(n, _) => n == name,
        _ => false,
    }
}

/// After baking, an attribute holds the value of the last contribution that
/// writes it, whatever transform or empty contributions stand around it.
pub proof fn law_last_attribute_contribution_wins(
    overrides: Map<(usize, Seq<char>), Seq<char>>,
    node: usize,
    cs: Seq<EvaluatedModel>,
    i: int,
    name: Seq<char>,
    value: Seq<char>,
)
    requires
        0 <= i < cs.len(),
        cs[i] == EvaluatedModel::Attribute(name, value),
        forall|j: int| i < j < cs.len() ==> !writes_attribute(#[trigger] cs[j], name),
    ensures
        attribute_writes(overrides, node, cs).contains_key((node, name)),
        attribute_writes(overrides, node, cs)[(node, name)] == value,
    decreases cs.len(),
{
    if i < cs.len() - 1 {
        law_last_attribute_contribution_wins(overrides, node, cs.drop_last(), i, name, value);
        assert(!writes_attribute(cs[cs.len() - 1], name));
    }
}

/// Baking changes no override but those of the attributes that some
/// contribution writes on this node: transform and empty contributions never
/// touch the map.
pub proof fn law_unwritten_overrides_stay(
    overrides: Map<(usize, Seq<char>), Seq<char>>,
    node: usize,
    cs: Seq<EvaluatedModel>,
    key: (usize, Seq<char>),
)
    requires
        key.0 != node || forall|j: int| 0 <= j < cs.len() ==> !writes_attribute(#[trigger] cs[j], key.1),
    ensures
        attribute_writes(overrides, node, cs).contains_key(key) == overrides.contains_key(key),
        overrides.contains_key(key) ==> attribute_writes(overrides, node, cs)[key] == overrides[key],
    decreases cs.len(),
{
    if cs.len() > 0 {
        law_unwritten_overrides_stay(overrides, node, cs.drop_last(), key);
        if key.0 == node {
            assert(!writes_attribute(cs[cs.len() - 1], key.1));
        }
    }
}

/// Writes the attribute contributions of the element at `node` into the
/// override map in order, and says which base its transform contributions
/// compose onto (`None` when it has none).
pub fn bake_contributions(
    overrides: &mut AnimationOverrides,
    node: usize,
    contributions: &Vec<Evaluated>,
) -> (r: Option<TransformBase>)
    ensures
        final(overrides)@ == attribute_writes(old(overrides)@, node, evaluated_models(contributions@)),
        r == transform_base_of(evaluated_models(contributions@)),
{
    let ghost cs = evaluated_models(contributions@);
    let ghost start = overrides@;
    let mut base: Option<TransformBase> = None;
    let mut i: usize = 0;
    assert(cs.take(0) =~= Seq::<EvaluatedModel>::empty());
    while i < contributions.len()
        invariant
            cs == evaluated_models(contributions@),
            i <= cs.len(),
            overrides@ == attribute_writes(start, node, cs.take(i as int)),
            base == transform_base_of(cs.take(i as int)),
        decreases contributions.len() - i,
    {
        assert(cs.take(i + 1).drop_last() =~= cs.take(i as int));
        assert(cs.take(i + 1).last() == cs[i as int]);
        match &contributions[i] {
            Evaluated::Attribute { name, value } => {
                overrides.insert(node, name.clone(), value.clone());
            },
            Evaluated::Transform { additive } => {
                if base.is_none() {
                    base = Some(
                        if *additive {
                            TransformBase::Own
                        } else {
                            TransformBase::Identity
                        },
                    );
                }
            },
            Evaluated::Nothing => {},
        }
        i = i + 1;
    }
    assert(cs.take(cs.len() as int) =~= cs);
    base
}

/// The value of attribute `name` of the node at `node` as the animated
/// document reads it: the override when one is set, else the document's own.
pub open spec fn attribute_at(
    nodes: Seq<NodeModel>,
    overrides: Map<(usize, Seq<char>), Seq<char>>,
    node: int,
    name: Seq<char>,
) -> Option<Seq<char>> {
    match lookup(overrides, (node as usize, name)) {
        Some(v) => Some(v),
        None => attribute_of(nodes[node], name),
    }
}

/// Reads attribute `name` of the node at `node`, consulting the overrides
/// before the document's own attributes.
pub fn animated_attribute<'a>(
    doc: &'a Document,
    overrides: &'a AnimationOverrides,
    node: usize,
    name: &str,
) -> (r: Option<&'a str>)
    requires
        node < doc@.len(),
    ensures
        text_view(r) == attribute_at(doc@, overrides@, node as int, name@),
{
    match overrides.get(node, name) {
        Some(v) => Some(v),
        None => doc.node(node).attribute(name),
    }
}

/// Whether the node at `node` has attribute `name`, overrides included.
pub fn has_animated_attribute(
    doc: &Document,
    overrides: &AnimationOverrides,
    node: usize,
    name: &str,
) -> (r: bool)
    requires
        node < doc@.len(),
    ensures
        r == attribute_at(doc@, overrides@, node as int, name@) is Some,
{
    animated_attribute(doc, overrides, node, name).is_some()
}

/// Reading an attribute after an override was written for it gives the
/// written value.
pub proof fn law_read_after_override(
    nodes: Seq<NodeModel>,
    overrides: Map<(usize, Seq<char>), Seq<char>>,
    node: usize,
    name: Seq<char>,
    value: Seq<char>,
)
    ensures
        attribute_at(nodes, overrides.insert((node, name), value), node as int, name) == Some(value),
{
}

/// Writing an override leaves every other attribute of every node as it
/// was read before.
pub proof fn law_override_leaves_others(
    nodes: Seq<NodeModel>,
    overrides: Map<(usize, Seq<char>), Seq<char>>,
    node: usize,
    name: Seq<char>,
    value: Seq<char>,
    other_node: usize,
    other_name: Seq<char>,
)
    requires
        (other_node, other_name) != (node, name),
    ensures
        attribute_at(nodes, overrides.insert((node, name), value), other_node as int, other_name)
            == attribute_at(nodes, overrides, other_node as int, other_name),
{
}

/// Without overrides every attribute reads as the document states it.
pub proof fn law_no_overrides_reads_document(nodes: Seq<NodeModel>, node: usize, name: Seq<char>)
    ensures
        attribute_at(nodes, Map::empty(), node as int, name) == attribute_of(nodes[node as int], name),
{
}

} // verus!
