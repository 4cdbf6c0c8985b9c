use crate::strmap::StrMap;
use crate::xml::{
    attribute, attributes, children, descendants, document_nodes, has_tag_name, is_element,
    node_attribute, node_attributes, node_children, node_has_tag_name, node_is_element, node_text,
    opt_view, pair_views, text, XmlNode,
};
use roxmltree::{Document, Node};
use vstd::hash_map::StringHashMap;
use vstd::prelude::*;

verus! {

/// A structure that holds a vector and a map to allow for efficient access by key or by index.
pub struct IndexedMap<V> {
    vec: Vec<V>,
    map: StringHashMap<usize>,
}

impl<V> IndexedMap<V> {
    /// The values, in the order in which they were inserted.
    pub closed spec fn values(&self) -> Seq<V> {
        self.vec@
    }

    /// For each key the place of its value among the values.
    pub closed spec fn index(&self) -> Map<Seq<char>, usize> {
        self.map@
    }

    /// The value of `key`: the one inserted last under it.
    pub open spec fn spec_get(&self, key: Seq<char>) -> Option<V> {
        if self.index().contains_key(key) && self.index()[key] < self.values().len() {
            Some(self.values()[self.index()[key] as int])
        } else {
            None
        }
    }

    /// Every key has its value among the values.
    pub open spec fn wf(&self) -> bool {
        forall|k: Seq<char>| #[trigger]
            self.index().contains_key(k) ==> self.index()[k] < self.values().len()
    }

    /// Creates a new, empty `IndexedMap`.
    pub fn new() -> (m: IndexedMap<V>)
        ensures
            m.values().len() == 0,
            m.index() == Map::<Seq<char>, usize>::empty(),
            m.wf(),
    {
        IndexedMap { vec: Vec::new(), map: StringHashMap::new() }
    }

    /// Inserts a key-value pair into the `IndexedMap`.
    pub fn insert(&mut self, key: String, value: V)
        ensures
            final(self).values() == old(self).values().push(value),
            final(self).index() == old(self).index().insert(key@, old(self).values().len() as usize),
            final(self).spec_get(key@) == Some(value),
            old(self).wf() ==> final(self).wf() && (forall|k: Seq<char>|
                k != key@ ==> final(self).spec_get(k) == old(self).spec_get(k)),
    {
        self.vec.push(value);
        let index = self.vec.len() - 1;
        self.map.insert(key, index);
    }

    /// Gets a reference to the value associated with the given key.
    pub fn get_by_key(&self, key: &str) -> (r: Option<&V>)
        ensures
            match r {
                Some(v) => self.spec_get(key@) == Some(*v),
                None => self.spec_get(key@).is_none(),
            },
    {
        match self.map.get(key) {
            Some(index) => {
                if *index < self.vec.len() {
                    Some(&self.vec[*index])
                } else {
                    None
                }
            },
            None => None,
        }
    }

    /// Returns an iterator over the values in the `IndexedMap`.
    pub fn iter(&self) -> (it: IndexedMapIter<'_, V>)
        ensures
            it.rest() == self.values(),
    {
        let it = IndexedMapIter { indexed_map: self, index: 0 };
        assert(it.rest() =~= self.values());
        it
    }

    /// The number of values.
    pub fn len(&self) -> (n: usize)
        ensures
            n == self.values().len(),
    {
        self.vec.len()
    }

    /// The value at place `i` of the order of insertion.
    pub fn get_by_index(&self, i: usize) -> (r: &V)
        requires
            i < self.values().len(),
        ensures
            *r == self.values()[i as int],
    {
        &self.vec[i]
    }
}

/// An iterator over the values in an `IndexedMap`.
pub struct IndexedMapIter<'a, V> {
    indexed_map: &'a IndexedMap<V>,
    index: usize,
}

impl<'a, V> IndexedMapIter<'a, V> {
    /// The values that the iterator has yet to hand out.
    pub closed spec fn rest(&self) -> Seq<V> {
        if self.index <= self.indexed_map.vec@.len() {
            self.indexed_map.vec@.subrange(self.index as int, self.indexed_map.vec@.len() as int)
        } else {
            Seq::empty()
        }
    }

    /// Hands out the next value, in the order of insertion.
    pub fn next(&mut self) -> (r: Option<&'a V>)
        ensures
            match r {
                Some(v) => old(self).rest().len() > 0 && *v == old(self).rest()[0]
                    && final(self).rest() == old(self).rest().drop_first(),
                None => old(self).rest().len() == 0 && final(self).rest().len() == 0,
            },
    {
        if self.index < self.indexed_map.vec.len() {
            let item = &self.indexed_map.vec[self.index];
            self.index += 1;
            assert(self.rest() =~= old(self).rest().drop_first());
            Some(item)
        } else {
            None
        }
    }
}

/// A structure representing a bitset.
pub struct Bitset {
    pub name: String,
    pub extends: Option<String>,
    pub meta: Option<StrMap>,
}

/// A structure representing a value in a bitset enum.
pub struct BitSetEnumValue {
    pub display: String,
    pub name: Option<String>,
    pub value: String,
}

/// A structure representing a bitset enum.
pub struct BitSetEnum {
    pub name: String,
    pub values: Vec<BitSetEnumValue>,
}

/// A structure representing a bitset template.
pub struct BitsetTemplate {
    pub name: String,
    pub display: String,
}

/// A structure representing an Instruction Set Architecture (ISA),
/// containing bitsets and enums.
pub struct ISA {
    pub bitsets: IndexedMap<Bitset>,
    pub enums: IndexedMap<BitSetEnum>,
    pub templates: IndexedMap<BitsetTemplate>,
}

/// Why a document does not describe an ISA.
#[derive(Clone, Copy, Debug, PartialEq, Eq, Structural)]
pub enum IsaError {
    /// An element lacks an attribute that it must have.
    MissingAttribute,
    /// A template has no text.
    MissingText,
}

/// Whether `values` starts with `prefix`.
pub open spec fn starts_with<V>(values: Seq<V>, prefix: Seq<V>) -> bool {
    prefix.len() <= values.len() && values.take(prefix.len() as int) == prefix
}

/// The characters of a text.
pub type Text = Seq<char>;

/// A list of names with their values.
pub type Pairs = Seq<(Seq<char>, Seq<char>)>;

/// What a template holds: its name and its display.
pub type TemplateView = (Seq<char>, Seq<char>);

/// What a value of an enum holds: its display, its name if it has one, and
/// its value.
pub type ValueView = (Seq<char>, Option<Seq<char>>, Seq<char>);

/// What an enum holds: its name and its values.
pub type EnumView = (Seq<char>, Seq<ValueView>);

/// What a bitset holds: its name, the name of the bitset that it extends if
/// there is one, and its metadata in the order in which it was written, if
/// it has any.
pub type BitsetView = (Seq<char>, Option<Seq<char>>, Option<Pairs>);

/// What a template holds.
pub open spec fn template_view(t: BitsetTemplate) -> TemplateView {
    (t.name@, t.display@)
}

/// What the templates hold, in their order.
pub open spec fn template_views(ts: Seq<BitsetTemplate>) -> Seq<TemplateView> {
    Seq::new(ts.len(), |i: int| template_view(ts[i]))
}

/// What a value of an enum holds.
pub open spec fn value_view(v: BitSetEnumValue) -> ValueView {
    (v.display@, opt_view(v.name), v.value@)
}

/// What the values hold, in their order.
pub open spec fn value_views(vs: Seq<BitSetEnumValue>) -> Seq<ValueView> {
    Seq::new(vs.len(), |i: int| value_view(vs[i]))
}

/// What an enum holds.
pub open spec fn enum_view(e: BitSetEnum) -> EnumView {
    (e.name@, value_views(e.values@))
}

/// What the enums hold, in their order.
pub open spec fn enum_views(es: Seq<BitSetEnum>) -> Seq<EnumView> {
    Seq::new(es.len(), |i: int| enum_view(es[i]))
}

/// What a bitset holds.
pub open spec fn bitset_view(b: Bitset) -> BitsetView {
    (
        b.name@,
        opt_view(b.extends),
        match b.meta {
            Some(m) => Some(m.pairs()),
            None => None,
        },
    )
}

/// What the bitsets hold, in their order.
pub open spec fn bitset_views(bs: Seq<Bitset>) -> Seq<BitsetView> {
    Seq::new(bs.len(), |i: int| bitset_view(bs[i]))
}

/// The names of the templates.
pub open spec fn template_keys(ts: Seq<TemplateView>) -> Seq<Text> {
    Seq::new(ts.len(), |i: int| ts[i].0)
}

/// The names of the enums.
pub open spec fn enum_keys(es: Seq<EnumView>) -> Seq<Text> {
    Seq::new(es.len(), |i: int| es[i].0)
}

/// The names of the bitsets.
pub open spec fn bitset_keys(bs: Seq<BitsetView>) -> Seq<Text> {
    Seq::new(bs.len(), |i: int| bs[i].0)
}

/// The index after values with the names `keys` have been inserted behind
/// `base` values, in their order: each name leads to the place of the value
/// that was inserted last under it.
pub open spec fn indexed(index: Map<Seq<char>, usize>, keys: Seq<Text>, base: nat) -> Map<
    Seq<char>,
    usize,
>
    decreases keys.len(),
{
    if keys.len() == 0 {
        index
    } else {
        indexed(index, keys.drop_last(), base).insert(
            keys.last(),
            (base + keys.len() - 1) as usize,
        )
    }
}

/// Whether a node is an element of the name `tag`.
pub open spec fn is_tagged(node: XmlNode, tag: Seq<char>) -> bool {
    node_is_element(node) && node_has_tag_name(node, tag)
}

/// What the elements of the name `tag` among `nodes` describe, in their
/// order, where `of` says what one element describes; the error of the first
/// element that describes nothing.
pub open spec fn gathered<T>(
    nodes: Seq<XmlNode>,
    tag: Seq<char>,
    of: spec_fn(XmlNode) -> Result<T, IsaError>,
) -> Result<Seq<T>, IsaError>
    decreases nodes.len(),
{
    if nodes.len() == 0 {
        Ok(Seq::empty())
    } else {
        match gathered(nodes.drop_last(), tag, of) {
            Err(e) => Err(e),
            Ok(found) => if is_tagged(nodes.last(), tag) {
                match of(nodes.last()) {
                    Ok(t) => Ok(found.push(t)),
                    Err(e) => Err(e),
                }
            } else {
                Ok(found)
            },
        }
    }
}

/// An element that describes nothing among the first `k` nodes fails the
/// whole list, with its error.
pub proof fn lemma_gathered_error<T>(
    nodes: Seq<XmlNode>,
    tag: Seq<char>,
    of: spec_fn(XmlNode) -> Result<T, IsaError>,
    k: int,
)
    requires
        0 <= k <= nodes.len(),
        gathered(nodes.take(k), tag, of) is Err,
    ensures
        gathered(nodes, tag, of) == gathered(nodes.take(k), tag, of),
    decreases nodes.len() - k,
{
    if k < nodes.len() {
        assert(nodes.take(k + 1).drop_last() =~= nodes.take(k));
        lemma_gathered_error(nodes, tag, of, k + 1);
    } else {
        assert(nodes.take(k) =~= nodes);
    }
}

/// The template that a `template` element describes: its attribute `name`
/// and its text.
pub open spec fn template_of(node: XmlNode) -> Result<TemplateView, IsaError> {
    match (node_attribute(node, "name"@), node_text(node)) {
        (Some(name), Some(display)) => Ok((name, display)),
        (None, _) => Err(IsaError::MissingAttribute),
        (Some(_), None) => Err(IsaError::MissingText),
    }
}

/// What reads a template.
pub open spec fn template_reader() -> spec_fn(XmlNode) -> Result<TemplateView, IsaError> {
    |node: XmlNode| template_of(node)
}

/// The value that a `value` element describes: its attributes `display`,
/// `name` and `val`, of which the name may be missing.
pub open spec fn value_of(node: XmlNode) -> Result<ValueView, IsaError> {
    match (node_attribute(node, "display"@), node_attribute(node, "val"@)) {
        (Some(display), Some(value)) => Ok((display, node_attribute(node, "name"@), value)),
        _ => Err(IsaError::MissingAttribute),
    }
}

/// What reads a value of an enum.
pub open spec fn value_reader() -> spec_fn(XmlNode) -> Result<ValueView, IsaError> {
    |node: XmlNode| value_of(node)
}

/// The enum that an `enum` element describes: its attribute `name` and the
/// values of its `value` children.
pub open spec fn enum_of(node: XmlNode) -> Result<EnumView, IsaError> {
    match gathered(node_children(node), "value"@, value_reader()) {
        Err(e) => Err(e),
        Ok(values) => match node_attribute(node, "name"@) {
            Some(name) => Ok((name, values)),
            None => Err(IsaError::MissingAttribute),
        },
    }
}

/// What reads an enum.
pub open spec fn enum_reader() -> spec_fn(XmlNode) -> Result<EnumView, IsaError> {
    |node: XmlNode| enum_of(node)
}

/// The attributes of the `meta` elements among `kids`, one after the other.
pub open spec fn metas_of(kids: Seq<XmlNode>) -> Pairs
    decreases kids.len(),
{
    if kids.len() == 0 {
        Seq::empty()
    } else if is_tagged(kids.last(), "meta"@) {
        metas_of(kids.drop_last()) + node_attributes(kids.last())
    } else {
        metas_of(kids.drop_last())
    }
}

/// The metadata that is kept of a bitset: none where nothing was written.
pub open spec fn kept_meta(pairs: Pairs) -> Option<Pairs> {
    if pairs.len() == 0 {
        None
    } else {
        Some(pairs)
    }
}

/// The bitset that a `bitset` element describes: its attributes `name` and
/// `extends`, of which the second may be missing, and the attributes of its
/// `meta` children.
pub open spec fn bitset_of(node: XmlNode) -> Result<BitsetView, IsaError> {
    match node_attribute(node, "name"@) {
        Some(name) => Ok(
            (name, node_attribute(node, "extends"@), kept_meta(metas_of(node_children(node)))),
        ),
        None => Err(IsaError::MissingAttribute),
    }
}

/// What reads a bitset.
pub open spec fn bitset_reader() -> spec_fn(XmlNode) -> Result<BitsetView, IsaError> {
    |node: XmlNode| bitset_of(node)
}

/// What the nodes of a document describe: the templates, the enums and the
/// bitsets of its `template`, `enum` and `bitset` elements, each in document
/// order. Where an element lacks what it must have there is an error: that
/// of the first such template, else of the first such enum, else of the
/// first such bitset.
pub open spec fn described(nodes: Seq<XmlNode>) -> Result<
    (Seq<TemplateView>, Seq<EnumView>, Seq<BitsetView>),
    IsaError,
> {
    match gathered(nodes, "template"@, template_reader()) {
        Err(e) => Err(e),
        Ok(templates) => match gathered(nodes, "enum"@, enum_reader()) {
            Err(e) => Err(e),
            Ok(enums) => match gathered(nodes, "bitset"@, bitset_reader()) {
                Err(e) => Err(e),
                Ok(bitsets) => Ok((templates, enums, bitsets)),
            },
        },
    }
}

/// The metadata of a bitset alone.
pub open spec fn own_meta(bitset: Bitset) -> Map<Seq<char>, Seq<char>> {
    match bitset.meta {
        Some(m) => m@,
        None => Map::empty(),
    }
}

impl ISA {
    /// The metadata of the bitset `name` with that of the bitsets that it
    /// extends, as far as `depth` links lead: what a bitset says replaces
    /// what the bitset that it extends says. A name that no bitset has ends
    /// the chain.
    pub open spec fn spec_collect_meta(&self, name: Seq<char>, depth: nat) -> Map<
        Seq<char>,
        Seq<char>,
    >
        decreases depth,
    {
        if depth == 0 {
            Map::empty()
        } else {
            match self.bitsets.spec_get(name) {
                None => Map::empty(),
                Some(bitset) => {
                    let inherited = match bitset.extends {
                        Some(parent) => self.spec_collect_meta(parent@, (depth - 1) as nat),
                        None => Map::empty(),
                    };
                    inherited.union_prefer_right(own_meta(bitset))
                },
            }
        }
    }

    /// An ISA without bitsets, enums and templates.
    pub fn empty() -> (isa: ISA)
        ensures
            isa.bitsets.values().len() == 0,
            isa.enums.values().len() == 0,
            isa.templates.values().len() == 0,
            isa.bitsets.index() == Map::<Seq<char>, usize>::empty(),
            isa.enums.index() == Map::<Seq<char>, usize>::empty(),
            isa.templates.index() == Map::<Seq<char>, usize>::empty(),
            isa.bitsets.wf(),
            isa.enums.wf(),
            isa.templates.wf(),
    {
        ISA { bitsets: IndexedMap::new(), enums: IndexedMap::new(), templates: IndexedMap::new() }
    }

    /// Creates a new `ISA` by loading bitsets and enums from a parsed XML document.
    ///
    /// The ISA holds what the nodes of the document describe, by
    /// `described`, and each name leads to the value that was described last
    /// under it. Fails iff an element of the document lacks what it must
    /// have, with the error of `described`.
    pub fn new<'a, 'input>(doc: &'a Document<'input>) -> (r: Result<ISA, IsaError>)
        ensures
            r matches Ok(isa) ==> isa.bitsets.wf() && isa.enums.wf() && isa.templates.wf(),
            match described(document_nodes(*doc)) {
                Ok((templates, enums, bitsets)) => r matches Ok(isa) && isa.holds(
                    templates,
                    enums,
                    bitsets,
                ),
                Err(e) => r matches Err(x) && x == e,
            },
    {
        let mut isa = ISA::empty();
        proof {
            assert(template_views(isa.templates.values()) =~= Seq::empty());
            assert(enum_views(isa.enums.values()) =~= Seq::empty());
            assert(bitset_views(isa.bitsets.values()) =~= Seq::empty());
        }
        match isa.load_from_document(doc) {
            Ok(()) => {
                proof {
                    let d = described(document_nodes(*doc)).unwrap();
                    assert(Seq::<TemplateView>::empty() + d.0 =~= d.0);
                    assert(Seq::<EnumView>::empty() + d.1 =~= d.1);
                    assert(Seq::<BitsetView>::empty() + d.2 =~= d.2);
                }
                Ok(isa)
            },
            Err(e) => Err(e),
        }
    }

    /// Adds the template of a `template` element with the attribute `name`
    /// and the text `display`. Fails iff one of the two is missing, the name
    /// first, and then nothing changes.
    pub fn add_template(&mut self, name: Option<String>, display: Option<String>) -> (r: Result<
        (),
        IsaError,
    >)
        ensures
            match (name, display) {
                (Some(n), Some(d)) => {
                    &&& r.is_ok()
                    &&& final(self).templates.values() == old(self).templates.values().push(
                        BitsetTemplate { name: n, display: d },
                    )
                    &&& final(self).templates.index() == old(self).templates.index().insert(
                        n@,
                        old(self).templates.values().len() as usize,
                    )
                },
                (None, _) => r == Err::<(), IsaError>(IsaError::MissingAttribute)
                    && final(self).templates == old(self).templates,
                (Some(_), None) => r == Err::<(), IsaError>(IsaError::MissingText)
                    && final(self).templates == old(self).templates,
            },
            final(self).bitsets == old(self).bitsets,
            final(self).enums == old(self).enums,
    {
        let name = match name {
            Some(n) => n,
            None => {
                return Err(IsaError::MissingAttribute);
            },
        };
        let display = match display {
            Some(d) => d,
            None => {
                return Err(IsaError::MissingText);
            },
        };
        self.templates.insert(name.clone(), BitsetTemplate { name, display });
        Ok(())
    }

    /// The value of a `value` element with the attributes `display`, `name`
    /// and `val`. Fails iff `display` or `val` is missing.
    pub fn enum_value(display: Option<String>, name: Option<String>, value: Option<String>) -> (r:
        Result<BitSetEnumValue, IsaError>)
        ensures
            match (display, value) {
                (Some(d), Some(v)) => r == Ok::<BitSetEnumValue, IsaError>(
                    BitSetEnumValue { display: d, name, value: v },
                ),
                _ => r == Err::<BitSetEnumValue, IsaError>(IsaError::MissingAttribute),
            },
    {
        match (display, value) {
            (Some(display), Some(value)) => Ok(BitSetEnumValue { display, name, value }),
            _ => Err(IsaError::MissingAttribute),
        }
    }

    /// Adds the enum of an `enum` element with the attribute `name` and the
    /// values `values`. Fails iff the name is missing, and then nothing
    /// changes.
    pub fn add_enum(&mut self, name: Option<String>, values: Vec<BitSetEnumValue>) -> (r: Result<
        (),
        IsaError,
    >)
        ensures
            match name {
                Some(n) => r.is_ok() && final(self).enums.values() == old(self).enums.values().push(
                    BitSetEnum { name: n, values },
                ) && final(self).enums.index() == old(self).enums.index().insert(
                    n@,
                    old(self).enums.values().len() as usize,
                ),
                None => r == Err::<(), IsaError>(IsaError::MissingAttribute) && final(self).enums
                    == old(self).enums,
            },
            final(self).bitsets == old(self).bitsets,
            final(self).templates == old(self).templates,
    {
        let name = match name {
            Some(n) => n,
            None => {
                return Err(IsaError::MissingAttribute);
            },
        };
        self.enums.insert(name.clone(), BitSetEnum { name, values });
        Ok(())
    }

    /// Adds the bitset of a `bitset` element with the attributes `name` and
    /// `extends` and the metadata `meta`, the attributes of all its `meta`
    /// elements taken together; a bitset without any has no metadata. Fails
    /// iff the name is missing, and then nothing changes.
    pub fn add_bitset(&mut self, name: Option<String>, extends: Option<String>, meta: StrMap) -> (r:
        Result<(), IsaError>)
        ensures
            match name {
                Some(n) => {
                    &&& r.is_ok()
                    &&& final(self).bitsets.values() == old(self).bitsets.values().push(
                        Bitset {
                            name: n,
                            extends,
                            meta: if meta.pairs().len() == 0 {
                                None
                            } else {
                                Some(meta)
                            },
                        },
                    )
                    &&& final(self).bitsets.index() == old(self).bitsets.index().insert(
                        n@,
                        old(self).bitsets.values().len() as usize,
                    )
                },
                None => r == Err::<(), IsaError>(IsaError::MissingAttribute)
                    && final(self).bitsets == old(self).bitsets,
            },
            final(self).enums == old(self).enums,
            final(self).templates == old(self).templates,
    {
        let name = match name {
            Some(n) => n,
            None => {
                return Err(IsaError::MissingAttribute);
            },
        };
        let meta = if meta.is_empty() {
            None
        } else {
            Some(meta)
        };
        self.bitsets.insert(name.clone(), Bitset { name, extends, meta });
        Ok(())
    }

    /// The ISA holds exactly these templates, enums and bitsets, and each
    /// name leads to the value that comes last under it.
    pub open spec fn holds(
        &self,
        templates: Seq<TemplateView>,
        enums: Seq<EnumView>,
        bitsets: Seq<BitsetView>,
    ) -> bool {
        &&& template_views(self.templates.values()) == templates
        &&& enum_views(self.enums.values()) == enums
        &&& bitset_views(self.bitsets.values()) == bitsets
        &&& self.templates.index() == indexed(Map::empty(), template_keys(templates), 0)
        &&& self.enums.index() == indexed(Map::empty(), enum_keys(enums), 0)
        &&& self.bitsets.index() == indexed(Map::empty(), bitset_keys(bitsets), 0)
    }

    /// The ISA `after` holds what the ISA `before` held and, behind it,
    /// these templates, enums and bitsets, and each of their names leads to
    /// the value that comes last under it.
    pub open spec fn extended(
        before: ISA,
        after: ISA,
        templates: Seq<TemplateView>,
        enums: Seq<EnumView>,
        bitsets: Seq<BitsetView>,
    ) -> bool {
        &&& template_views(after.templates.values()) == template_views(before.templates.values())
            + templates
        &&& enum_views(after.enums.values()) == enum_views(before.enums.values()) + enums
        &&& bitset_views(after.bitsets.values()) == bitset_views(before.bitsets.values()) + bitsets
        &&& after.templates.index() == indexed(
            before.templates.index(),
            template_keys(templates),
            before.templates.values().len(),
        )
        &&& after.enums.index() == indexed(
            before.enums.index(),
            enum_keys(enums),
            before.enums.values().len(),
        )
        &&& after.bitsets.index() == indexed(
            before.bitsets.index(),
            bitset_keys(bitsets),
            before.bitsets.values().len(),
        )
    }

    /// Loads bitsets and enums from a parsed XML document into the `ISA`.
    ///
    /// Every `template` element of the document gives a template, then every
    /// `enum` element an enum with the values of its `value` children, then
    /// every `bitset` element a bitset with the attributes of its `meta`
    /// children, each in document order: what `described` says of the nodes
    /// of the document is added behind what the ISA held. Fails at the first
    /// element that lacks what it must have, with the error of `described`;
    /// what was loaded before it stays.
    pub fn load_from_document<'a, 'input>(&mut self, doc: &'a Document<'input>) -> (r: Result<
        (),
        IsaError,
    >)
        ensures
            starts_with(final(self).templates.values(), old(self).templates.values()),
            starts_with(final(self).enums.values(), old(self).enums.values()),
            starts_with(final(self).bitsets.values(), old(self).bitsets.values()),
            old(self).templates.wf() ==> final(self).templates.wf(),
            old(self).enums.wf() ==> final(self).enums.wf(),
            old(self).bitsets.wf() ==> final(self).bitsets.wf(),
            match described(document_nodes(*doc)) {
                Ok((templates, enums, bitsets)) => r.is_ok() && ISA::extended(
                    *old(self),
                    *final(self),
                    templates,
                    enums,
                    bitsets,
                ),
                Err(e) => r == Err::<(), IsaError>(e),
            },
    {
        let nodes = descendants(doc);
        let ghost all = nodes@;
        let ghost before = *self;
        let mut i: usize = 0;
        proof {
            assert(self.templates.values().take(self.templates.values().len() as int)
                =~= self.templates.values());
            assert(self.enums.values().take(self.enums.values().len() as int)
                =~= self.enums.values());
            assert(self.bitsets.values().take(self.bitsets.values().len() as int)
                =~= self.bitsets.values());
            assert(template_views(self.templates.values()) + Seq::<TemplateView>::empty()
                =~= template_views(self.templates.values()));
        }
        while i < nodes.len()
            invariant
                i <= all.len(),
                all == nodes@,
                all == document_nodes(*doc),
                before == *old(self),
                starts_with(self.templates.values(), old(self).templates.values()),
                starts_with(self.enums.values(), old(self).enums.values()),
                starts_with(self.bitsets.values(), old(self).bitsets.values()),
                old(self).templates.wf() ==> self.templates.wf(),
                old(self).enums.wf() ==> self.enums.wf(),
                old(self).bitsets.wf() ==> self.bitsets.wf(),
                self.enums == before.enums,
                self.bitsets == before.bitsets,
                gathered(all.take(i as int), "template"@, template_reader()) is Ok,
                template_views(self.templates.values()) == template_views(
                    before.templates.values(),
                ) + gathered(all.take(i as int), "template"@, template_reader()).unwrap(),
                self.templates.index() == indexed(
                    before.templates.index(),
                    template_keys(
                        gathered(all.take(i as int), "template"@, template_reader()).unwrap(),
                    ),
                    before.templates.values().len(),
                ),
            decreases nodes@.len() - i,
        {
            let node = &nodes[i];
            let ghost found = gathered(all.take(i as int), "template"@, template_reader()).unwrap();
            proof {
                assert(all.take(i + 1).drop_last() =~= all.take(i as int));
                assert(all.take(i + 1).last() == *node);
            }
            if is_element(node) && has_tag_name(node, "template") {
                let ghost held = self.templates.values();
                let r = self.add_template(attribute(node, "name"), text(node));
                if r.is_err() {
                    proof {
                        lemma_gathered_error(all, "template"@, template_reader(), i + 1);
                    }
                    return r;
                }
                proof {
                    let t = template_of(*node).unwrap();
                    assert(self.templates.values().take(old(self).templates.values().len() as int)
                        =~= held.take(old(self).templates.values().len() as int));
                    assert(template_views(self.templates.values()) =~= template_views(held).push(
                        t,
                    ));
                    assert(template_views(self.templates.values()) =~= template_views(
                        before.templates.values(),
                    ) + found.push(t));
                    assert(template_views(held).len() == held.len());
                    assert(template_keys(found.push(t)).drop_last() =~= template_keys(found));
                    assert(template_keys(found.push(t)).last() == t.0);
                }
            }
            i += 1;
        }
        proof {
            assert(all.take(i as int) =~= all);
            assert(enum_views(self.enums.values()) + Seq::<EnumView>::empty() =~= enum_views(
                self.enums.values(),
            ));
        }
        let ghost templates = gathered(all, "template"@, template_reader()).unwrap();
        i = 0;
        while i < nodes.len()
            invariant
                i <= all.len(),
                all == nodes@,
                all == document_nodes(*doc),
                before == *old(self),
                starts_with(self.templates.values(), old(self).templates.values()),
                starts_with(self.enums.values(), old(self).enums.values()),
                starts_with(self.bitsets.values(), old(self).bitsets.values()),
                old(self).templates.wf() ==> self.templates.wf(),
                old(self).enums.wf() ==> self.enums.wf(),
                old(self).bitsets.wf() ==> self.bitsets.wf(),
                self.bitsets == before.bitsets,
                gathered(all, "template"@, template_reader()) == Ok::<
                    Seq<TemplateView>,
                    IsaError,
                >(templates),
                template_views(self.templates.values()) == template_views(
                    before.templates.values(),
                ) + templates,
                self.templates.index() == indexed(
                    before.templates.index(),
                    template_keys(templates),
                    before.templates.values().len(),
                ),
                gathered(all.take(i as int), "enum"@, enum_reader()) is Ok,
                enum_views(self.enums.values()) == enum_views(before.enums.values()) + gathered(
                    all.take(i as int),
                    "enum"@,
                    enum_reader(),
                ).unwrap(),
                self.enums.index() == indexed(
                    before.enums.index(),
                    enum_keys(gathered(all.take(i as int), "enum"@, enum_reader()).unwrap()),
                    before.enums.values().len(),
                ),
            decreases nodes@.len() - i,
        {
            let node = &nodes[i];
            let ghost found = gathered(all.take(i as int), "enum"@, enum_reader()).unwrap();
            proof {
                assert(all.take(i + 1).drop_last() =~= all.take(i as int));
                assert(all.take(i + 1).last() == *node);
            }
            if is_element(node) && has_tag_name(node, "enum") {
                let values = match ISA::enum_values(node) {
                    Ok(v) => v,
                    Err(e) => {
                        proof {
                            lemma_gathered_error(all, "enum"@, enum_reader(), i + 1);
                        }
                        return Err(e);
                    },
                };
                let ghost held = self.enums.values();
                let r = self.add_enum(attribute(node, "name"), values);
                if r.is_err() {
                    proof {
                        lemma_gathered_error(all, "enum"@, enum_reader(), i + 1);
                    }
                    return r;
                }
                proof {
                    let e = enum_of(*node).unwrap();
                    assert(self.enums.values().take(old(self).enums.values().len() as int)
                        =~= held.take(old(self).enums.values().len() as int));
                    assert(enum_views(self.enums.values()) =~= enum_views(held).push(e));
                    assert(enum_views(self.enums.values()) =~= enum_views(before.enums.values())
                        + found.push(e));
                    assert(enum_views(held).len() == held.len());
                    assert(enum_keys(found.push(e)).drop_last() =~= enum_keys(found));
                    assert(enum_keys(found.push(e)).last() == e.0);
                }
            }
            i += 1;
        }
        proof {
            assert(all.take(i as int) =~= all);
            assert(bitset_views(self.bitsets.values()) + Seq::<BitsetView>::empty()
                =~= bitset_views(self.bitsets.values()));
        }
        let ghost enums = gathered(all, "enum"@, enum_reader()).unwrap();
        i = 0;
        while i < nodes.len()
            invariant
                i <= all.len(),
                all == nodes@,
                all == document_nodes(*doc),
                before == *old(self),
                starts_with(self.templates.values(), old(self).templates.values()),
                starts_with(self.enums.values(), old(self).enums.values()),
                starts_with(self.bitsets.values(), old(self).bitsets.values()),
                old(self).templates.wf() ==> self.templates.wf(),
                old(self).enums.wf() ==> self.enums.wf(),
                old(self).bitsets.wf() ==> self.bitsets.wf(),
                gathered(all, "template"@, template_reader()) == Ok::<
                    Seq<TemplateView>,
                    IsaError,
                >(templates),
                gathered(all, "enum"@, enum_reader()) == Ok::<Seq<EnumView>, IsaError>(enums),
                template_views(self.templates.values()) == template_views(
                    before.templates.values(),
                ) + templates,
                self.templates.index() == indexed(
                    before.templates.index(),
                    template_keys(templates),
                    before.templates.values().len(),
                ),
                enum_views(self.enums.values()) == enum_views(before.enums.values()) + enums,
                self.enums.index() == indexed(
                    before.enums.index(),
                    enum_keys(enums),
                    before.enums.values().len(),
                ),
                gathered(all.take(i as int), "bitset"@, bitset_reader()) is Ok,
                bitset_views(self.bitsets.values()) == bitset_views(before.bitsets.values())
                    + gathered(all.take(i as int), "bitset"@, bitset_reader()).unwrap(),
                self.bitsets.index() == indexed(
                    before.bitsets.index(),
                    bitset_keys(gathered(all.take(i as int), "bitset"@, bitset_reader()).unwrap()),
                    before.bitsets.values().len(),
                ),
            decreases nodes@.len() - i,
        {
            let node = &nodes[i];
            let ghost found = gathered(all.take(i as int), "bitset"@, bitset_reader()).unwrap();
            proof {
                assert(all.take(i + 1).drop_last() =~= all.take(i as int));
                assert(all.take(i + 1).last() == *node);
            }
            if is_element(node) && has_tag_name(node, "bitset") {
                // We can have multiple <meta> tags, which we need to combine.
                let meta = ISA::combined_meta(node);
                let ghost held = self.bitsets.values();
                let r = self.add_bitset(attribute(node, "name"), attribute(node, "extends"), meta);
                if r.is_err() {
                    proof {
                        lemma_gathered_error(all, "bitset"@, bitset_reader(), i + 1);
                    }
                    return r;
                }
                proof {
                    let b = bitset_of(*node).unwrap();
                    assert(self.bitsets.values().take(old(self).bitsets.values().len() as int)
                        =~= held.take(old(self).bitsets.values().len() as int));
                    assert(bitset_views(self.bitsets.values()) =~= bitset_views(held).push(b));
                    assert(bitset_views(self.bitsets.values()) =~= bitset_views(
                        before.bitsets.values(),
                    ) + found.push(b));
                    assert(bitset_views(held).len() == held.len());
                    assert(bitset_keys(found.push(b)).drop_last() =~= bitset_keys(found));
                    assert(bitset_keys(found.push(b)).last() == b.0);
                }
            }
            i += 1;
        }
        proof {
            assert(all.take(i as int) =~= all);
        }
        Ok(())
    }

    /// The values of the `value` children of an `enum` element, in their
    /// order. Fails iff one of them lacks its display or its value.
    fn enum_values<'a, 'input>(node: &Node<'a, 'input>) -> (r: Result<
        Vec<BitSetEnumValue>,
        IsaError,
    >)
        ensures
            match gathered(node_children(*node), "value"@, value_reader()) {
                Ok(values) => r matches Ok(v) && value_views(v@) == values,
                Err(e) => r matches Err(x) && x == e,
            },
    {
        let kids = children(node);
        let ghost all = kids@;
        let mut values: Vec<BitSetEnumValue> = Vec::new();
        let mut i: usize = 0;
        assert(value_views(values@) =~= Seq::empty());
        while i < kids.len()
            invariant
                i <= all.len(),
                all == kids@,
                all == node_children(*node),
                gathered(all.take(i as int), "value"@, value_reader()) == Ok::<
                    Seq<ValueView>,
                    IsaError,
                >(value_views(values@)),
            decreases kids@.len() - i,
        {
            let kid = &kids[i];
            proof {
                assert(all.take(i + 1).drop_last() =~= all.take(i as int));
                assert(all.take(i + 1).last() == *kid);
            }
            if is_element(kid) && has_tag_name(kid, "value") {
                let read = ISA::enum_value(
                    attribute(kid, "display"),
                    attribute(kid, "name"),
                    attribute(kid, "val"),
                );
                match read {
                    Ok(value) => {
                        let ghost held = values@;
                        values.push(value);
                        assert(value_views(values@) =~= value_views(held).push(value_view(value)));
                    },
                    Err(e) => {
                        proof {
                            lemma_gathered_error(all, "value"@, value_reader(), i + 1);
                        }
                        return Err(e);
                    },
                }
            }
            i += 1;
        }
        assert(all.take(i as int) =~= all);
        Ok(values)
    }

    /// The attributes of the `meta` children of a `bitset` element, taken
    /// together: a later one replaces an earlier one of the same name.
    fn combined_meta<'a, 'input>(node: &Node<'a, 'input>) -> (r: StrMap)
        ensures
            r.pairs() == metas_of(node_children(*node)),
    {
        let kids = children(node);
        let ghost all = kids@;
        let mut combined = StrMap::new();
        let mut i: usize = 0;
        assert(combined.pairs() =~= metas_of(all.take(0)));
        while i < kids.len()
            invariant
                i <= all.len(),
                all == kids@,
                combined.pairs() == metas_of(all.take(i as int)),
            decreases kids@.len() - i,
        {
            let kid = &kids[i];
            proof {
                assert(all.take(i + 1).drop_last() =~= all.take(i as int));
                assert(all.take(i + 1).last() == *kid);
            }
            if is_element(kid) && has_tag_name(kid, "meta") {
                let attrs = attributes(kid);
                combined.extend(&ISA::meta_of(attrs));
            }
            i += 1;
        }
        assert(all.take(i as int) =~= all);
        combined
    }

    /// The map of a list of attributes: a later one replaces an earlier one
    /// of the same name.
    pub fn meta_of(attrs: Vec<(String, String)>) -> (r: StrMap)
        ensures
            r.pairs() == pair_views(attrs@),
    {
        let mut meta = StrMap::new();
        let mut i: usize = 0;
        assert(meta.pairs() =~= pair_views(attrs@.take(0)));
        while i < attrs.len()
            invariant
                i <= attrs@.len(),
                meta.pairs() == pair_views(attrs@.take(i as int)),
            decreases attrs@.len() - i,
        {
            let key = attrs[i].0.clone();
            let value = attrs[i].1.clone();
            meta.insert(key, value);
            assert(meta.pairs() =~= pair_views(attrs@.take(i + 1)));
            i += 1;
        }
        assert(attrs@.take(i as int) =~= attrs@);
        meta
    }

    /// Collects metadata for a given bitset by walking the `extends` chain in reverse order.
    ///
    /// The walk follows at most as many links as bitsets were inserted, so
    /// that a chain which runs in a circle comes to an end.
    pub fn collect_meta(&self, name: &str) -> (meta: StrMap)
        ensures
            meta@ == self.spec_collect_meta(name@, self.bitsets.values().len()),
    {
        self.collect_meta_within(name, self.bitsets.len())
    }

    fn collect_meta_within(&self, name: &str, depth: usize) -> (meta: StrMap)
        ensures
            meta@ == self.spec_collect_meta(name@, depth as nat),
        decreases depth,
    {
        if depth == 0 {
            return StrMap::new();
        }
        match self.bitsets.get_by_key(name) {
            None => StrMap::new(),
            Some(bitset) => {
                let mut meta = match &bitset.extends {
                    Some(parent) => self.collect_meta_within(parent.as_str(), depth - 1),
                    None => StrMap::new(),
                };
                match &bitset.meta {
                    Some(m) => {
                        meta.extend(m);
                    },
                    None => {
                        assert(meta@.union_prefer_right(Map::empty()) =~= meta@);
                    },
                }
                meta
            },
        }
    }
}

} // verus!
