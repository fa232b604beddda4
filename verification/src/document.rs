use vstd::prelude::*;
use crate::names::{is_svg_element, svg_element_names};
use crate::text::{text_eq, trim, trimmed};

verus! {

/// An attribute of an element, under its local name.
pub struct Attribute {
    pub name: String,
    pub value: String,
}

/// A node of an XML tree: an element, with its local name and its namespace
/// name, or another node (the document root, text, a comment), whose `tag`
/// is `None`.
pub struct XmlNode {
    pub tag: Option<String>,
    pub namespace: Option<String>,
    pub attributes: Vec<Attribute>,
    /// The positions of the node's children in the document, in order.
    pub children: Vec<usize>,
}

/// The model of a node: its tag, its namespace, its `(name, value)`
/// attributes and its children.
pub struct NodeModel {
    pub tag: Option<Seq<char>>,
    pub namespace: Option<Seq<char>>,
    pub attributes: Seq<(Seq<char>, Seq<char>)>,
    pub children: Seq<usize>,
}

impl View for XmlNode {
    type V = NodeModel;

    open spec fn view(&self) -> NodeModel {
        NodeModel {
            tag: match self.tag {
                Some(t) => Some(t@),
                None => None,
            },
            namespace: match self.namespace {
                Some(n) => Some(n@),
                None => None,
            },
            attributes: self.attributes@.map_values(|a: Attribute| (a.name@, a.value@)),
            children: self.children@,
        }
    }
}

/// The nodes of an XML tree in document order. Every child position that a
/// node names is a position of the document.
pub struct Document {
    nodes: Vec<XmlNode>,
}

/// The models of a list of nodes.
pub open spec fn node_models(nodes: Seq<XmlNode>) -> Seq<NodeModel> {
    nodes.map_values(|n: XmlNode| n@)
}

/// Whether every child position named in `nodes` is a position of `nodes`.
pub open spec fn children_in_range(nodes: Seq<NodeModel>) -> bool {
    forall|i: int, j: int|
        0 <= i < nodes.len() && 0 <= j < nodes[i].children.len() ==> #[trigger] nodes[i].children[j]
            < nodes.len()
}

impl View for Document {
    type V = Seq<NodeModel>;

    closed spec fn view(&self) -> Seq<NodeModel> {
        node_models(self.nodes@)
    }
}

impl Document {
    #[verifier::type_invariant]
    spec fn well_formed(self) -> bool {
        children_in_range(node_models(self.nodes@))
    }

    /// Builds a document from its nodes; `None` when a node names a child
    /// position outside the document.
    pub fn new(nodes: Vec<XmlNode>) -> (r: Option<Document>)
        ensures
            r is Some <==> children_in_range(node_models(nodes@)),
            r matches Some(d) ==> d@ == node_models(nodes@),
    {
        let count = nodes.len();
        let mut i: usize = 0;
        while i < count
            invariant
                count == nodes@.len(),
                i <= count,
                forall|a: int, b: int|
                    0 <= a < i && 0 <= b < nodes@[a].children@.len() ==> #[trigger] nodes@[a].children@[b]
                        < count,
            decreases count - i,
        {
            let mut j: usize = 0;
            while j < nodes[i].children.len()
                invariant
                    count == nodes@.len(),
                    i < count,
                    j <= nodes@[i as int].children@.len(),
                    forall|b: int| 0 <= b < j ==> #[trigger] nodes@[i as int].children@[b] < count,
                decreases nodes@[i as int].children@.len() - j,
            {
                if nodes[i].children[j] >= count {
                    assert(node_models(nodes@)[i as int].children[j as int] >= count);
                    return None;
                }
                j = j + 1;
            }
            i = i + 1;
        }
        assert(children_in_range(node_models(nodes@))) by {
            assert forall|a: int, b: int|
                0 <= a < node_models(nodes@).len() && 0 <= b < node_models(nodes@)[a].children.len()
                implies #[trigger] node_models(nodes@)[a].children[b] < node_models(nodes@).len() by {
                assert(node_models(nodes@)[a].children == nodes@[a].children@);
            }
        }
        Some(Document { nodes })
    }

    /// The number of nodes.
    pub fn len(&self) -> (r: usize)
        ensures
            r == self@.len(),
    {
        self.nodes.len()
    }

    /// The node at position `i`.
    pub fn node(&self, i: usize) -> (r: &XmlNode)
        requires
            i < self@.len(),
        ensures
            r@ == self@[i as int],
    {
        &self.nodes[i]
    }
}


/// The value of the first attribute named `name` in `attributes`.
pub open spec fn first_attribute(attributes: Seq<(Seq<char>, Seq<char>)>, name: Seq<char>) -> Option<
    Seq<char>,
>
    decreases attributes.len(),
{
    if attributes.len() == 0 {
        None
    } else if attributes[0].0 == name {
        Some(attributes[0].1)
    } else {
        first_attribute(attributes.drop_first(), name)
    }
}

/// The value of the attribute `name` of a node.
pub open spec fn attribute_of(node: NodeModel, name: Seq<char>) -> Option<Seq<char>> {
    first_attribute(node.attributes, name)
}

/// The model of an optional text.
pub open spec fn text_view(t: Option<&str>) -> Option<Seq<char>> {
    match t {
        Some(s) => Some(s@),
        None => None,
    }
}

/// The model of an optional owned text.
pub open spec fn string_view(t: Option<String>) -> Option<Seq<char>> {
    match t {
        Some(s) => Some(s@),
        None => None,
    }
}

impl XmlNode {
    /// The value of the attribute `name`.
    pub fn attribute<'a>(&'a self, name: &str) -> (r: Option<&'a str>)
        ensures
            text_view(r) == attribute_of(self@, name@),
    {
        let ghost attrs = self@.attributes;
        let mut i: usize = 0;
        assert(attrs.skip(0) =~= attrs);
        while i < self.attributes.len()
            invariant
                attrs == self@.attributes,
                attrs.len() == self.attributes@.len(),
                i <= attrs.len(),
                first_attribute(attrs, name@) == first_attribute(attrs.skip(i as int), name@),
            decreases self.attributes.len() - i,
        {
            assert(attrs[i as int] == (self.attributes@[i as int].name@, self.attributes@[i as int].value@));
            if text_eq(self.attributes[i].name.as_str(), name) {
                return Some(self.attributes[i].value.as_str());
            }
            assert(attrs.skip(i as int).drop_first() =~= attrs.skip(i + 1));
            i = i + 1;
        }
        None
    }
}

/// Whether a tag names one of the animation elements `animate`, `set`,
/// `animateTransform` or `animateMotion`.
pub open spec fn is_animation_tag(tag: Option<Seq<char>>) -> bool {
    match tag {
        Some(t) => t == "animate"@ || t == "set"@ || t == "animateTransform"@ || t == "animateMotion"@,
        None => false,
    }
}

/// Whether `node` is an animation element.
pub fn is_animation(node: &XmlNode) -> (r: bool)
    ensures
        r == is_animation_tag(node@.tag),
{
    match &node.tag {
        Some(t) => {
            let t = t.as_str();
            text_eq(t, "animate") || text_eq(t, "set") || text_eq(t, "animateTransform")
                || text_eq(t, "animateMotion")
        },
        None => false,
    }
}

/// True if the document's SVG tree contains any animation element.
pub fn has_animation(doc: &Document) -> (r: bool)
    ensures
        r == exists|i: int|
            0 <= i < doc@.len() && is_animation_tag(#[trigger] doc@[i].tag) && is_retained(doc@, i),
{
    let kept = doc.retained_nodes();
    let mut i: usize = 0;
    while i < doc.len()
        invariant
            i <= doc@.len(),
            kept@.len() == doc@.len(),
            forall|j: int| 0 <= j < doc@.len() ==> kept@[j] == is_retained(doc@, j),
            forall|j: int|
                0 <= j < i ==> !(is_animation_tag(#[trigger] doc@[j].tag) && is_retained(doc@, j)),
        decreases doc@.len() - i,
    {
        if kept[i] && is_animation(doc.node(i)) {
            assert(is_animation_tag(doc@[i as int].tag));
            return true;
        }
        i = i + 1;
    }
    false
}

/// The positions of the animation elements of the SVG tree among the first
/// `count` nodes, in order.
pub open spec fn animation_positions(nodes: Seq<NodeModel>, count: int) -> Seq<usize>
    decreases count,
{
    if count <= 0 {
        Seq::empty()
    } else {
        let init = animation_positions(nodes, count - 1);
        if is_animation_tag(nodes[count - 1].tag) && is_retained(nodes, count - 1) {
            init.push((count - 1) as usize)
        } else {
            init
        }
    }
}

/// The animation positions are exactly the animation elements of the SVG
/// tree among the first `count` nodes, in document order.
pub proof fn law_animation_positions_exact(nodes: Seq<NodeModel>, count: int)
    requires
        0 <= count <= nodes.len() <= usize::MAX,
    ensures
        forall|p: usize|
            #[trigger] animation_positions(nodes, count).contains(p) <==> (p < count && is_animation_tag(
                nodes[p as int].tag,
            ) && is_retained(nodes, p as int)),
        forall|i: int, j: int|
            0 <= i < j < animation_positions(nodes, count).len() ==> #[trigger] animation_positions(
                nodes,
                count,
            )[i] < #[trigger] animation_positions(nodes, count)[j],
    decreases count,
{
    if count > 0 {
        law_animation_positions_exact(nodes, count - 1);
        let r = animation_positions(nodes, count);
        let ri = animation_positions(nodes, count - 1);
        assert forall|p: usize| r.contains(p) <==> (p < count && is_animation_tag(nodes[p as int].tag)
            && is_retained(nodes, p as int)) by {
            if r.contains(p) {
                let k = choose|k: int| 0 <= k < r.len() && r[k] == p;
                if k < ri.len() {
                    assert(ri[k] == p);
                    assert(ri.contains(p));
                }
            }
            if p < count && is_animation_tag(nodes[p as int].tag) && is_retained(nodes, p as int) {
                if p < count - 1 {
                    assert(ri.contains(p));
                    let k = choose|k: int| 0 <= k < ri.len() && ri[k] == p;
                    assert(r[k] == p);
                } else {
                    assert(r[r.len() - 1] == p);
                }
            }
        }
        assert forall|i: int, j: int| 0 <= i < j < r.len() implies #[trigger] r[i] < #[trigger] r[j] by {
            assert(r[i] == ri[i]);
            assert(ri.contains(ri[i]));
            assert(ri[i] < count - 1);
            if j < ri.len() {
                assert(r[j] == ri[j]);
            } else {
                assert(r[j] == (count - 1) as usize);
            }
        }
    }
}

/// The positions of all animation elements of the SVG tree, in document order.
pub fn animation_nodes(doc: &Document) -> (r: Vec<usize>)
    ensures
        r@ == animation_positions(doc@, doc@.len() as int),
{
    let kept = doc.retained_nodes();
    let mut out: Vec<usize> = Vec::new();
    let mut i: usize = 0;
    while i < doc.len()
        invariant
            i <= doc@.len(),
            kept@.len() == doc@.len(),
            forall|j: int| 0 <= j < doc@.len() ==> kept@[j] == is_retained(doc@, j),
            out@ == animation_positions(doc@, i as int),
        decreases doc@.len() - i,
    {
        if kept[i] && is_animation(doc.node(i)) {
            out.push(i);
        }
        i = i + 1;
    }
    out
}

/// The last of the first `count` nodes that is kept in the SVG tree and whose
/// `id` attribute is `id`.
pub open spec fn element_with_id(nodes: Seq<NodeModel>, id: Seq<char>, count: int) -> Option<int>
    decreases count,
{
    if count <= 0 {
        None
    } else if attribute_of(nodes[count - 1], "id"@) == Some(id) && is_retained(nodes, count - 1) {
        Some(count - 1)
    } else {
        element_with_id(nodes, id, count - 1)
    }
}

/// Positions given by `element_with_id` are among the first `count`.
pub proof fn lemma_element_with_id_in_range(nodes: Seq<NodeModel>, id: Seq<char>, count: int)
    ensures
        element_with_id(nodes, id, count) matches Some(k) ==> 0 <= k < count,
    decreases count,
{
    if count > 0 {
        lemma_element_with_id_in_range(nodes, id, count - 1);
    }
}

/// The element found for an id is the last kept element among the first
/// `count` nodes whose `id` is that id; none is found when no such element
/// exists.
pub proof fn law_element_with_id_is_last_match(nodes: Seq<NodeModel>, id: Seq<char>, count: int)
    requires
        count <= nodes.len(),
    ensures
        element_with_id(nodes, id, count) matches Some(k) ==> {
            &&& 0 <= k < count
            &&& attribute_of(nodes[k], "id"@) == Some(id)
            &&& is_retained(nodes, k)
            &&& forall|j: int|
                k < j < count ==> !(attribute_of(#[trigger] nodes[j], "id"@) == Some(id)
                    && is_retained(nodes, j))
        },
        element_with_id(nodes, id, count) is None ==> forall|j: int|
            0 <= j < count ==> !(attribute_of(#[trigger] nodes[j], "id"@) == Some(id) && is_retained(
                nodes,
                j,
            )),
    decreases count,
{
    if count > 0 {
        law_element_with_id_is_last_match(nodes, id, count - 1);
    }
}

impl Document {
    /// The element of the SVG tree whose `id` attribute is `id` (the last
    /// one, if several are).
    pub fn element_by_id(&self, id: &str) -> (r: Option<usize>)
        ensures
            match r {
                Some(k) => element_with_id(self@, id@, self@.len() as int) == Some(k as int),
                None => element_with_id(self@, id@, self@.len() as int) is None,
            },
    {
        let kept = self.retained_nodes();
        let mut i: usize = self.len();
        while i > 0
            invariant
                i <= self@.len(),
                kept@.len() == self@.len(),
                forall|j: int| 0 <= j < self@.len() ==> kept@[j] == is_retained(self@, j),
                element_with_id(self@, id@, self@.len() as int) == element_with_id(
                    self@,
                    id@,
                    i as int,
                ),
            decreases i,
        {
            let k = i - 1;
            let matches = match self.node(k).attribute("id") {
                Some(v) => text_eq(v, id),
                None => false,
            };
            if matches && kept[k] {
                return Some(k);
            }
            i = k;
        }
        None
    }
}


/// The first of `children` that is an element named `tag`.
pub open spec fn first_child_tagged(nodes: Seq<NodeModel>, children: Seq<usize>, tag: Seq<char>) -> Option<
    usize,
>
    decreases children.len(),
{
    if children.len() == 0 {
        None
    } else if children[0] < nodes.len() && nodes[children[0] as int].tag == Some(tag) {
        Some(children[0])
    } else {
        first_child_tagged(nodes, children.drop_first(), tag)
    }
}

/// The id that an `href` value points at: trimmed, without a leading `#`.
pub open spec fn href_target(href: Seq<char>) -> Seq<char> {
    let h = trimmed(href);
    if h.len() > 0 && h[0] == '#' {
        h.drop_first()
    } else {
        h
    }
}

/// The path data that the `mpath` child of the node at `node` points at: the
/// `d` attribute of the element whose id its `href` names.
pub open spec fn mpath_data(nodes: Seq<NodeModel>, node: int) -> Option<Seq<char>> {
    match first_child_tagged(nodes, nodes[node].children, "mpath"@) {
        None => None,
        Some(m) => match attribute_of(nodes[m as int], "href"@) {
            None => None,
            Some(href) => match element_with_id(nodes, href_target(href), nodes.len() as int) {
                None => None,
                Some(t) => attribute_of(nodes[t], "d"@),
            },
        },
    }
}

impl Document {
    /// The first child of the node at `node` that is an element named `tag`.
    pub fn first_child_with_tag(&self, node: usize, tag: &str) -> (r: Option<usize>)
        requires
            node < self@.len(),
        ensures
            r == first_child_tagged(self@, self@[node as int].children, tag@),
            r matches Some(k) ==> k < self@.len(),
    {
        proof {
            use_type_invariant(self);
        }
        let children = &self.node(node).children;
        let ghost kids = self@[node as int].children;
        let mut i: usize = 0;
        assert(kids.skip(0) =~= kids);
        while i < children.len()
            invariant
                kids == children@,
                node < self@.len(),
                kids == self@[node as int].children,
                children_in_range(self@),
                i <= kids.len(),
                first_child_tagged(self@, kids, tag@) == first_child_tagged(self@, kids.skip(i as int), tag@),
            decreases children.len() - i,
        {
            let c = children[i];
            assert(c < self@.len());
            let is_tag = match &self.node(c).tag {
                Some(t) => text_eq(t.as_str(), tag),
                None => false,
            };
            if is_tag {
                return Some(c);
            }
            assert(kids.skip(i as int).drop_first() =~= kids.skip(i + 1));
            i = i + 1;
        }
        None
    }
}

/// Removes one leading `#`.
fn strip_hash<'a>(h: &'a str) -> (r: &'a str)
    ensures
        r@ == (if h@.len() > 0 && h@[0] == '#' { h@.drop_first() } else { h@ }),
{
    let n = h.unicode_len();
    if n > 0 && h.get_char(0) == '#' {
        h.substring_char(1, n)
    } else {
        h
    }
}

/// The path data of the `mpath` child of an `animateMotion` element: the `d`
/// attribute of the element that its `href` names.
pub fn resolve_mpath(doc: &Document, node: usize) -> (r: Option<String>)
    requires
        node < doc@.len(),
    ensures
        string_view(r) == mpath_data(doc@, node as int),
{
    let mpath = doc.first_child_with_tag(node, "mpath")?;
    let href = doc.node(mpath).attribute("href")?;
    let id = strip_hash(trim(href));
    let target = doc.element_by_id(id)?;
    proof {
        lemma_element_with_id_in_range(doc@, id@, doc@.len() as int);
    }
    let data = doc.node(target).attribute("d")?;
    Some(data.to_owned())
}


/// The positions among `children` of animation elements, in order.
pub open spec fn animation_children_of(nodes: Seq<NodeModel>, children: Seq<usize>) -> Seq<usize>
    decreases children.len(),
{
    if children.len() == 0 {
        Seq::empty()
    } else {
        let c = children.last();
        let init = animation_children_of(nodes, children.drop_last());
        if c < nodes.len() && is_animation_tag(nodes[c as int].tag) {
            init.push(c)
        } else {
            init
        }
    }
}

/// The animation children of a node are exactly its children that are
/// animation elements.
pub proof fn lemma_animation_children(nodes: Seq<NodeModel>, children: Seq<usize>)
    ensures
        forall|j: int|
            0 <= j < animation_children_of(nodes, children).len() ==> {
                let c = #[trigger] animation_children_of(nodes, children)[j];
                &&& children.contains(c)
                &&& c < nodes.len()
                &&& is_animation_tag(nodes[c as int].tag)
            },
        forall|c: usize|
            children.contains(c) && c < nodes.len() && is_animation_tag(nodes[c as int].tag)
                ==> #[trigger] animation_children_of(nodes, children).contains(c),
    decreases children.len(),
{
    if children.len() > 0 {
        let init = children.drop_last();
        lemma_animation_children(nodes, init);
        let r = animation_children_of(nodes, children);
        let ri = animation_children_of(nodes, init);
        assert forall|j: int| 0 <= j < r.len() implies {
            let c = #[trigger] r[j];
            &&& children.contains(c)
            &&& c < nodes.len()
            &&& is_animation_tag(nodes[c as int].tag)
        } by {
            if j < ri.len() {
                assert(r[j] == ri[j]);
                let k = choose|k: int| 0 <= k < init.len() && init[k] == ri[j];
                assert(children[k] == ri[j]);
            } else {
                assert(children[children.len() - 1] == r[j]);
            }
        }
        assert forall|c: usize|
            children.contains(c) && c < nodes.len() && is_animation_tag(nodes[c as int].tag)
            implies #[trigger] r.contains(c) by {
            let k = choose|k: int| 0 <= k < children.len() && children[k] == c;
            if k < init.len() {
                assert(init[k] == c);
                assert(ri.contains(c));
                let m = choose|m: int| 0 <= m < ri.len() && ri[m] == c;
                assert(r[m] == c);
            } else {
                assert(r[r.len() - 1] == c);
            }
        }
    }
}

/// An element together with the animation elements that are its children.
pub struct AnimatedElement {
    pub node: usize,
    pub animations: Vec<usize>,
}

/// The elements of the SVG tree among the first `count` nodes that are no
/// animation elements themselves and have animation children, in document
/// order, each with those children in order.
pub open spec fn animated_elements_of(nodes: Seq<NodeModel>, count: int) -> Seq<(usize, Seq<usize>)>
    decreases count,
{
    if count <= 0 {
        Seq::empty()
    } else {
        let init = animated_elements_of(nodes, count - 1);
        let n = nodes[count - 1];
        let animations = animation_children_of(nodes, n.children);
        if n.tag is Some && !is_animation_tag(n.tag) && is_retained(nodes, count - 1)
            && animations.len() > 0 {
            init.push(((count - 1) as usize, animations))
        } else {
            init
        }
    }
}

/// The model of a list of animated elements.
pub open spec fn animated_views(v: Seq<AnimatedElement>) -> Seq<(usize, Seq<usize>)> {
    v.map_values(|e: AnimatedElement| (e.node, e.animations@))
}

impl Document {
    /// The animation children of the node at `node`, in order.
    pub fn animation_children(&self, node: usize) -> (r: Vec<usize>)
        requires
            node < self@.len(),
        ensures
            r@ == animation_children_of(self@, self@[node as int].children),
    {
        proof {
            use_type_invariant(self);
        }
        let children = &self.node(node).children;
        let ghost kids = self@[node as int].children;
        let mut out: Vec<usize> = Vec::new();
        let mut i: usize = 0;
        assert(kids.take(0) =~= Seq::<usize>::empty());
        while i < children.len()
            invariant
                kids == children@,
                node < self@.len(),
                kids == self@[node as int].children,
                children_in_range(self@),
                i <= kids.len(),
                out@ == animation_children_of(self@, kids.take(i as int)),
            decreases children.len() - i,
        {
            let c = children[i];
            assert(c < self@.len());
            assert(kids.take(i + 1).drop_last() =~= kids.take(i as int));
            if is_animation(self.node(c)) {
                out.push(c);
            }
            i = i + 1;
        }
        assert(kids.take(kids.len() as int) =~= kids);
        out
    }
}

/// The elements that animations act on: every element of the SVG tree that
/// is no animation itself and has animation children, in document order,
/// with those children in order.
pub fn animated_elements(doc: &Document) -> (r: Vec<AnimatedElement>)
    ensures
        animated_views(r@) == animated_elements_of(doc@, doc@.len() as int),
{
    let kept = doc.retained_nodes();
    let mut out: Vec<AnimatedElement> = Vec::new();
    let mut i: usize = 0;
    while i < doc.len()
        invariant
            i <= doc@.len(),
            kept@.len() == doc@.len(),
            forall|j: int| 0 <= j < doc@.len() ==> kept@[j] == is_retained(doc@, j),
            animated_views(out@) == animated_elements_of(doc@, i as int),
        decreases doc@.len() - i,
    {
        let is_element = doc.node(i).tag.is_some();
        if is_element && kept[i] && !is_animation(doc.node(i)) {
            let animations = doc.animation_children(i);
            if animations.len() > 0 {
                let ghost before = out@;
                out.push(AnimatedElement { node: i, animations });
                assert(animated_views(out@) =~= animated_views(before).push((i, animations@)));
            }
        }
        i = i + 1;
    }
    out
}


/// An animation acts on the element it is nested in: every listed element is
/// an element of the SVG tree that is no animation itself, every animation
/// listed for it is one of its children, and every animation child of it is
/// listed.
pub proof fn law_animations_bind_to_parent(nodes: Seq<NodeModel>, count: int)
    requires
        count <= nodes.len() <= usize::MAX,
    ensures
        forall|k: int|
            0 <= k < animated_elements_of(nodes, count).len() ==> {
                let (e, animations) = #[trigger] animated_elements_of(nodes, count)[k];
                &&& e < count
                &&& nodes[e as int].tag is Some
                &&& !is_animation_tag(nodes[e as int].tag)
                &&& is_retained(nodes, e as int)
                &&& forall|a: usize|
                    animations.contains(a) <==> (nodes[e as int].children.contains(a) && a
                        < nodes.len() && is_animation_tag(nodes[a as int].tag))
            },
    decreases count,
{
    if count > 0 {
        law_animations_bind_to_parent(nodes, count - 1);
        let r = animated_elements_of(nodes, count);
        let ri = animated_elements_of(nodes, count - 1);
        let n = nodes[count - 1];
        lemma_animation_children(nodes, n.children);
        assert forall|k: int| 0 <= k < r.len() implies {
            let (e, animations) = #[trigger] r[k];
            &&& e < count
            &&& nodes[e as int].tag is Some
            &&& !is_animation_tag(nodes[e as int].tag)
            &&& is_retained(nodes, e as int)
            &&& forall|a: usize|
                animations.contains(a) <==> (nodes[e as int].children.contains(a) && a
                    < nodes.len() && is_animation_tag(nodes[a as int].tag))
        } by {
            if k < ri.len() {
                assert(r[k] == ri[k]);
            } else {
                let animations = animation_children_of(nodes, n.children);
                assert(r[k] == ((count - 1) as usize, animations));
                assert forall|a: usize|
                    animations.contains(a) implies (n.children.contains(a) && a < nodes.len()
                    && is_animation_tag(nodes[a as int].tag)) by {
                    let m = choose|m: int| 0 <= m < animations.len() && animations[m] == a;
                    assert(animations[m] == a);
                }
            }
        }
    }
}


/// Every element of the SVG tree that is no animation itself and has
/// animation children is listed, with exactly those children.
pub proof fn law_every_animated_element_is_listed(nodes: Seq<NodeModel>, count: int, e: int)
    requires
        0 <= e < count <= nodes.len(),
        nodes[e].tag is Some,
        !is_animation_tag(nodes[e].tag),
        is_retained(nodes, e),
        animation_children_of(nodes, nodes[e].children).len() > 0,
    ensures
        exists|k: int|
            0 <= k < animated_elements_of(nodes, count).len() && #[trigger] animated_elements_of(
                nodes,
                count,
            )[k] == (e as usize, animation_children_of(nodes, nodes[e].children)),
    decreases count,
{
    let r = animated_elements_of(nodes, count);
    if e == count - 1 {
        assert(r[r.len() - 1] == (e as usize, animation_children_of(nodes, nodes[e].children)));
    } else {
        law_every_animated_element_is_listed(nodes, count - 1, e);
        let ri = animated_elements_of(nodes, count - 1);
        let k = choose|k: int|
            0 <= k < ri.len() && #[trigger] ri[k] == (e as usize, animation_children_of(
                nodes,
                nodes[e].children,
            ));
        assert(r[k] == ri[k]);
    }
}

/// The animated elements come in document order, each once.
pub proof fn law_animated_elements_in_order(nodes: Seq<NodeModel>, count: int)
    requires
        count <= nodes.len() <= usize::MAX,
    ensures
        forall|i: int, j: int|
            0 <= i < j < animated_elements_of(nodes, count).len() ==> (#[trigger] animated_elements_of(
                nodes,
                count,
            )[i]).0 < (#[trigger] animated_elements_of(nodes, count)[j]).0,
    decreases count,
{
    if count > 0 {
        law_animated_elements_in_order(nodes, count - 1);
        law_animations_bind_to_parent(nodes, count - 1);
        let r = animated_elements_of(nodes, count);
        let ri = animated_elements_of(nodes, count - 1);
        assert forall|i: int, j: int| 0 <= i < j < r.len() implies (#[trigger] r[i]).0 < (
        #[trigger] r[j]).0 by {
            assert(r[i] == ri[i]);
            if j < ri.len() {
                assert(r[j] == ri[j]);
            } else {
                assert(r[j].0 == (count - 1) as usize);
                assert(ri[i].0 < count - 1);
            }
        }
    }
}

/// A document without animation elements has no animated elements, so
/// baking it writes no override.
pub proof fn law_static_document_has_nothing_to_bake(nodes: Seq<NodeModel>, count: int)
    requires
        count <= nodes.len(),
        forall|i: int| 0 <= i < nodes.len() ==> !is_animation_tag(#[trigger] nodes[i].tag),
    ensures
        animated_elements_of(nodes, count).len() == 0,
    decreases count,
{
    if count > 0 {
        law_static_document_has_nothing_to_bake(nodes, count - 1);
        lemma_animation_children(nodes, nodes[count - 1].children);
        let animations = animation_children_of(nodes, nodes[count - 1].children);
        if animations.len() > 0 {
            assert(is_animation_tag(nodes[animations[0] as int].tag));
        }
    }
}


/// The first of the first `k` nodes that has `node` among its children.
pub open spec fn parent_among(nodes: Seq<NodeModel>, node: usize, k: int) -> Option<int>
    decreases k,
{
    if k <= 0 {
        None
    } else {
        match parent_among(nodes, node, k - 1) {
            Some(p) => Some(p),
            None => if nodes[k - 1].children.contains(node) {
                Some(k - 1)
            } else {
                None
            },
        }
    }
}

/// The parent of the node at `node`: the first node that has it as a child.
pub open spec fn parent_of(nodes: Seq<NodeModel>, node: usize) -> Option<int> {
    parent_among(nodes, node, nodes.len() as int)
}

/// Positions given by `parent_among` are among the first `k` nodes.
pub proof fn lemma_parent_in_range(nodes: Seq<NodeModel>, node: usize, k: int)
    ensures
        parent_among(nodes, node, k) matches Some(p) ==> 0 <= p < k,
    decreases k,
{
    if k > 0 {
        lemma_parent_in_range(nodes, node, k - 1);
    }
}

/// Once found among the first `k` nodes, the parent stays the same among more.
pub proof fn lemma_parent_stable(nodes: Seq<NodeModel>, node: usize, k: int, m: int)
    requires
        k <= m,
        parent_among(nodes, node, k) is Some,
    ensures
        parent_among(nodes, node, m) == parent_among(nodes, node, k),
    decreases m - k,
{
    if k < m {
        lemma_parent_stable(nodes, node, k, m - 1);
    }
}

/// Whether `v` holds `x`.
fn holds_position(v: &Vec<usize>, x: usize) -> (r: bool)
    ensures
        r == v@.contains(x),
{
    let mut i: usize = 0;
    while i < v.len()
        invariant
            i <= v@.len(),
            forall|j: int| 0 <= j < i ==> v@[j] != x,
        decreases v.len() - i,
    {
        if v[i] == x {
            return true;
        }
        i = i + 1;
    }
    false
}

impl Document {
    /// The parent of the node at `node`.
    pub fn parent(&self, node: usize) -> (r: Option<usize>)
        ensures
            match r {
                Some(p) => parent_of(self@, node) == Some(p as int),
                None => parent_of(self@, node) is None,
            },
    {
        let mut i: usize = 0;
        while i < self.len()
            invariant
                i <= self@.len(),
                parent_among(self@, node, i as int) is None,
            decreases self@.len() - i,
        {
            if holds_position(&self.node(i).children, node) {
                proof {
                    lemma_parent_stable(self@, node, i + 1, self@.len() as int);
                }
                return Some(i);
            }
            i = i + 1;
        }
        None
    }
}

/// The SVG namespace name.
pub open spec fn svg_namespace() -> Seq<char> {
    "http://www.w3.org/2000/svg"@
}

/// Whether the node at `node` is kept in the SVG tree that animations act on:
/// an element is kept when it is in the SVG namespace, its name is an SVG
/// element name and its parent is kept; the root (no parent) and other nodes are kept as their parent is.
/// An element with an unknown name is dropped with everything inside it. (A
/// node listed before its parent, which no parser produces, is not kept.)
pub open spec fn is_retained(nodes: Seq<NodeModel>, node: int) -> bool
    decreases node,
{
    if 0 <= node < nodes.len() {
        let known = match nodes[node].tag {
            Some(t) => svg_element_names().contains(t) && nodes[node].namespace == Some(
                svg_namespace(),
            ),
            None => true,
        };
        known && match parent_of(nodes, node as usize) {
            Some(p) => if 0 <= p < node {
                is_retained(nodes, p)
            } else {
                false
            },
            None => true,
        }
    } else {
        false
    }
}

impl Document {
    /// For each node, whether it is kept in the SVG tree (see `is_retained`).
    pub fn retained_nodes(&self) -> (r: Vec<bool>)
        ensures
            r@.len() == self@.len(),
            forall|i: int| 0 <= i < self@.len() ==> r@[i] == is_retained(self@, i),
    {
        let mut flags: Vec<bool> = Vec::new();
        let mut i: usize = 0;
        while i < self.len()
            invariant
                i <= self@.len(),
                flags@.len() == i,
                forall|j: int| 0 <= j < i ==> flags@[j] == is_retained(self@, j),
            decreases self@.len() - i,
        {
            let n = self.node(i);
            let known = match &n.tag {
                Some(t) => is_svg_element(t.as_str()) && match &n.namespace {
                    Some(ns) => {
                        proof {
                            reveal_strlit("http://www.w3.org/2000/svg");
                        }
                        text_eq(ns.as_str(), "http://www.w3.org/2000/svg")
                    },
                    None => false,
                },
                None => true,
            };
            let kept = known && match self.parent(i) {
                Some(p) => p < i && flags[p],
                None => true,
            };
            flags.push(kept);
            i = i + 1;
        }
        flags
    }
}


} // verus!
