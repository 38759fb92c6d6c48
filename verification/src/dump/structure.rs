//! A struct of the graph as the emitted source lays it out.

use vstd::prelude::*;
use vstd::string::*;
use crate::dump::bitfield::{bitfields_text, BitfieldView, Bitfields};
use crate::dump::error::{Error, ErrorView};
use crate::dump::helper;
use crate::dump::layout::{
    base_start, covers, finished, laid_out, lemma_fields_apart_are_covered, lie_apart,
    slot_views, span_views, started, total_size, Layout, Slot, SlotView, Span, SpanView,
};
use crate::dump::order::{sort_fields, sorted_fields, FieldKey};
use crate::dump::property_info;
use crate::dump::property_info::{
    array_text, classified, typed_text, InfoView, PropertyClasses, PropertyInfo,
};
use crate::game::{Graph, Link};
use crate::genial::{
    arg_views, close_text, function_ret_text, line_text, Arg, ArgView, Gen, GenFunction, Scope,
    Structure, Visibility, WriterWrapper, INDENT,
};
use crate::text::{hex, push_hex, str_eq};

verus! {

/// The classes by which the kind of an object is told, found once and handed
/// to every reconstruction.
#[derive(Clone, Copy, Debug)]
pub struct StaticClasses {
    pub class: usize,
    pub constant: usize,
    pub enumeration: usize,
    pub function: usize,
    pub structure: usize,
    pub properties: PropertyClasses,
}

/// The full names of the classes of classes, constants, enums, functions and
/// structs.
pub open spec fn static_class_names() -> Seq<&'static str> {
    seq![
        "Class Core.Class",
        "Class Core.Const",
        "Class Core.Enum",
        "Class Core.Function",
        "Class Core.ScriptStruct",
    ]
}

/// The classes in `graph`, or the error that names the first that the graph
/// does not hold.
pub open spec fn static_classes_of(graph: &Graph) -> Result<StaticClasses, ErrorView> {
    match helper::static_classes(graph, static_class_names()) {
        Err(error) => Err(ErrorView::Helper(error)),
        Ok(found) => match property_info::property_classes_of(graph) {
            Err(error) => Err(ErrorView::PropertyInfo(error)),
            Ok(properties) => Ok(
                StaticClasses {
                    class: found[0],
                    constant: found[1],
                    enumeration: found[2],
                    function: found[3],
                    structure: found[4],
                    properties,
                },
            ),
        },
    }
}

/// Finds the classes by their full names.
pub fn find_static_classes(graph: &Graph) -> (classes: Result<StaticClasses, Error>)
    ensures
        match classes {
            Ok(classes) => static_classes_of(graph) == Ok::<StaticClasses, ErrorView>(classes),
            Err(error) => static_classes_of(graph) == Err::<StaticClasses, ErrorView>(error@),
        },
{
    let names: Vec<&'static str> = vec![
        "Class Core.Class",
        "Class Core.Const",
        "Class Core.Enum",
        "Class Core.Function",
        "Class Core.ScriptStruct",
    ];
    assert(names@ =~= static_class_names());
    proof {
        helper::lemma_static_classes_len(graph, names@);
    }
    let found = match helper::find_all(graph, &names) {
        Ok(found) => found,
        Err(error) => {
            return Err(Error::Helper(error));
        },
    };
    let properties = match property_info::find_static_classes(graph) {
        Ok(properties) => properties,
        Err(error) => {
            return Err(Error::PropertyInfo(error));
        },
    };
    Ok(
        StaticClasses {
            class: found[0],
            constant: found[1],
            enumeration: found[2],
            function: found[3],
            structure: found[4],
            properties,
        },
    )
}

/// The measures of the property behind the node; zeros for a node that was
/// not read as a property.
pub struct Measures {
    pub offset: u32,
    pub element_size: u32,
    pub array_dim: u32,
    pub property_flags: u32,
}

/// The measures of the property behind the node.
pub open spec fn measures_of(graph: &Graph, node: usize) -> Measures {
    match graph.spec_node(Some(node)) {
        Some(found) => match found.spec_property() {
            Some(p) => Measures {
                offset: p.offset,
                element_size: p.element_size,
                array_dim: p.array_dim,
                property_flags: p.property_flags,
            },
            None => Measures { offset: 0, element_size: 0, array_dim: 0, property_flags: 0 },
        },
        None => Measures { offset: 0, element_size: 0, array_dim: 0, property_flags: 0 },
    }
}

/// The measures of the property behind the node.
pub fn measures(graph: &Graph, node: usize) -> (m: Measures)
    ensures
        m == measures_of(graph, node),
{
    match graph.node(Some(node)) {
        Some(found) => match found.property() {
            Some(p) => Measures {
                offset: p.offset,
                element_size: p.element_size,
                array_dim: p.array_dim,
                property_flags: p.property_flags,
            },
            None => Measures { offset: 0, element_size: 0, array_dim: 0, property_flags: 0 },
        },
        None => Measures { offset: 0, element_size: 0, array_dim: 0, property_flags: 0 },
    }
}

/// Whether the child of a struct is a field that takes bytes of the struct
/// behind `offset`: it has a size, lies at or behind `offset`, and is no
/// struct, constant, enum or function declared within the struct.
pub open spec fn is_storage(graph: &Graph, classes: &StaticClasses, child: usize, offset: u32) -> bool {
    &&& measures_of(graph, child).element_size > 0
    &&& measures_of(graph, child).offset >= offset
    &&& !graph.spec_is(child, classes.structure)
    &&& !graph.spec_is(child, classes.constant)
    &&& !graph.spec_is(child, classes.enumeration)
    &&& !graph.spec_is(child, classes.function)
}

/// What the order of the field behind the node depends on.
pub open spec fn key_of(graph: &Graph, classes: &StaticClasses, node: usize) -> FieldKey {
    FieldKey {
        node,
        offset: measures_of(graph, node).offset,
        boolean: graph.spec_is(node, classes.properties.bool_property),
        bitmask: match graph.spec_node(Some(node)) {
            Some(found) => found.spec_bitmask(),
            None => 0,
        },
    }
}

/// The keys of those of `children` that are fields behind `offset`, in the
/// order of `children`.
pub open spec fn storage_keys(
    graph: &Graph,
    classes: &StaticClasses,
    children: Seq<usize>,
    offset: u32,
) -> Seq<FieldKey>
    decreases children.len(),
{
    if children.len() == 0 {
        Seq::empty()
    } else if is_storage(graph, classes, children.last(), offset) {
        storage_keys(graph, classes, children.drop_last(), offset).push(
            key_of(graph, classes, children.last()),
        )
    } else {
        storage_keys(graph, classes, children.drop_last(), offset)
    }
}

/// The fields of the struct behind `offset`, in the order of the layout.
pub open spec fn fields_of(graph: &Graph, classes: &StaticClasses, structure: usize, offset: u32) -> Seq<
    FieldKey,
> {
    sorted_fields(storage_keys(graph, classes, graph.children_of(structure), offset))
}

/// The fields of the struct behind `offset`, in the order of the layout.
pub fn get_fields(graph: &Graph, classes: &StaticClasses, structure: usize, offset: u32) -> (fields:
    Vec<FieldKey>)
    ensures
        fields@ == fields_of(graph, classes, structure, offset),
{
    let children = graph.iter_children(structure);
    let mut keys: Vec<FieldKey> = Vec::new();
    let mut i: usize = 0;
    assert(children@.subrange(0, 0) =~= Seq::<usize>::empty());
    while i < children.len()
        invariant
            i <= children.len(),
            keys@ == storage_keys(graph, classes, children@.subrange(0, i as int), offset),
        decreases children.len() - i,
    {
        assert(children@.subrange(0, i + 1).drop_last() =~= children@.subrange(0, i as int));
        assert(children@.subrange(0, i + 1).last() == children@[i as int]);
        let child = children[i];
        let m = measures(graph, child);
        if m.element_size > 0 && m.offset >= offset && !graph.is(child, classes.structure)
            && !graph.is(child, classes.constant) && !graph.is(child, classes.enumeration)
            && !graph.is(child, classes.function) {
            let bitmask = match graph.node(Some(child)) {
                Some(found) => found.bitmask(),
                None => 0,
            };
            keys.push(
                FieldKey {
                    node: child,
                    offset: m.offset,
                    boolean: graph.is(child, classes.properties.bool_property),
                    bitmask,
                },
            );
        }
        i = i + 1;
    }
    assert(children@.subrange(0, children.len() as int) =~= children@);
    sort_fields(&keys)
}

/// The type of a field of `dimensions` elements.
pub open spec fn field_type(info: InfoView, dimensions: u32) -> Option<Seq<char>> {
    if dimensions > 1 {
        array_text(info, dimensions)
    } else {
        typed_text(info)
    }
}

/// By how many bytes the property is larger than its classification says.
pub open spec fn size_mismatch(m: Measures, info: InfoView) -> int {
    m.element_size * m.array_dim - info.size * m.array_dim
}

/// The field with the key `key`, classified and checked: the bytes that the
/// property takes are those that its classification says. A field of several
/// dimensions is an array of its type; a boolean is one value whatever its
/// dimensions.
#[verifier::opaque]
pub open spec fn slot_of(graph: &Graph, classes: &StaticClasses, key: FieldKey) -> Result<
    SlotView,
    ErrorView,
> {
    let m = measures_of(graph, key.node);
    match classified(graph, &classes.properties, key.node, graph.objects.data.len() as nat) {
        Err(error) => Err(ErrorView::PropertyInfo(error)),
        Ok(info) => if size_mismatch(m, info) != 0 {
            Err(
                ErrorView::PropertySizeMismatch(
                    graph.spec_address_of(Some(key.node)),
                    size_mismatch(m, info) as i128,
                    info,
                ),
            )
        } else {
            match helper::name_of(graph, key.node) {
                Err(error) => Err(ErrorView::Helper(error)),
                Ok(name) => match field_type(
                    info,
                    if key.boolean {
                        1
                    } else {
                        m.array_dim
                    },
                ) {
                    None => Err(ErrorView::PropertyInfo(property_info::Error::StringCapacity)),
                    Some(typ) => Ok(
                        SlotView {
                            offset: key.offset,
                            element_size: m.element_size,
                            array_dim: m.array_dim,
                            boolean: key.boolean,
                            name,
                            typ,
                        },
                    ),
                },
            }
        },
    }
}

/// The fields with the keys `keys`, or the error of the first of them that
/// has one.
pub open spec fn slots_of(graph: &Graph, classes: &StaticClasses, keys: Seq<FieldKey>) -> Result<
    Seq<SlotView>,
    ErrorView,
>
    decreases keys.len(),
{
    if keys.len() == 0 {
        Ok(Seq::empty())
    } else {
        match slots_of(graph, classes, keys.drop_last()) {
            Err(error) => Err(error),
            Ok(slots) => match slot_of(graph, classes, keys.last()) {
                Err(error) => Err(error),
                Ok(slot) => Ok(slots.push(slot)),
            },
        }
    }
}

/// The type of a classified field of `dimensions` elements.
pub fn into_field_type(info: PropertyInfo, dimensions: u32) -> (typ: Result<String, Error>)
    ensures
        match typ {
            Ok(typ) => field_type(info@, dimensions) == Some(typ@),
            Err(error) => field_type(info@, dimensions) is None && error@ == ErrorView::PropertyInfo(
                property_info::Error::StringCapacity,
            ),
        },
{
    let typ = if dimensions > 1 {
        info.into_array_type(dimensions)
    } else {
        info.into_type()
    };
    match typ {
        Ok(typ) => Ok(String::from_str(typ.as_str())),
        Err(error) => Err(Error::PropertyInfo(error)),
    }
}

/// Classifies and checks the field with the key `key`.
pub fn slot_for(graph: &Graph, classes: &StaticClasses, key: &FieldKey) -> (slot: Result<Slot, Error>)
    ensures
        match slot {
            Ok(slot) => slot_of(graph, classes, *key) == Ok::<SlotView, ErrorView>(slot@),
            Err(error) => slot_of(graph, classes, *key) == Err::<SlotView, ErrorView>(error@),
        },
{
    reveal(slot_of);
    let m = measures(graph, key.node);
    let info = match PropertyInfo::try_from(graph, &classes.properties, key.node) {
        Ok(info) => info,
        Err(error) => {
            return Err(Error::PropertyInfo(error));
        },
    };
    let found = total_size(m.element_size, m.array_dim);
    let stated = total_size(info.size, m.array_dim);
    if found != stated {
        let mismatch: i128 = found as i128 - stated as i128;
        return Err(
            Error::PropertySizeMismatch(graph.address_of(Some(key.node)), mismatch, info),
        );
    }
    let name = match helper::get_name(graph, key.node) {
        Ok(name) => name,
        Err(error) => {
            return Err(Error::Helper(error));
        },
    };
    let dimensions = if key.boolean {
        1
    } else {
        m.array_dim
    };
    let typ = match into_field_type(info, dimensions) {
        Ok(typ) => typ,
        Err(error) => {
            return Err(error);
        },
    };
    Ok(
        Slot {
            offset: key.offset,
            element_size: m.element_size,
            array_dim: m.array_dim,
            boolean: key.boolean,
            name,
            typ,
        },
    )
}

/// A lookup that fails for the first `upto` keys fails the same way for all.
proof fn lemma_slots_error(graph: &Graph, classes: &StaticClasses, keys: Seq<FieldKey>, upto: int)
    requires
        0 <= upto <= keys.len(),
        slots_of(graph, classes, keys.subrange(0, upto)) is Err,
    ensures
        slots_of(graph, classes, keys) == slots_of(graph, classes, keys.subrange(0, upto)),
    decreases keys.len() - upto,
{
    if upto == keys.len() {
        assert(keys.subrange(0, upto) =~= keys);
    } else {
        assert(keys.subrange(0, upto + 1).drop_last() =~= keys.subrange(0, upto));
        lemma_slots_error(graph, classes, keys, upto + 1);
    }
}

/// Classifies and checks the fields with the keys `keys`, in their order.
pub fn slots_for(graph: &Graph, classes: &StaticClasses, keys: &Vec<FieldKey>) -> (slots: Result<
    Vec<Slot>,
    Error,
>)
    ensures
        match slots {
            Ok(slots) => slots_of(graph, classes, keys@) == Ok::<Seq<SlotView>, ErrorView>(
                slot_views(slots@),
            ),
            Err(error) => slots_of(graph, classes, keys@) == Err::<Seq<SlotView>, ErrorView>(
                error@,
            ),
        },
{
    let mut slots: Vec<Slot> = Vec::new();
    let mut i: usize = 0;
    assert(keys@.subrange(0, 0) =~= Seq::<FieldKey>::empty());
    assert(slot_views(slots@) =~= Seq::<SlotView>::empty());
    while i < keys.len()
        invariant
            i <= keys.len(),
            slots_of(graph, classes, keys@.subrange(0, i as int)) == Ok::<
                Seq<SlotView>,
                ErrorView,
            >(slot_views(slots@)),
        decreases keys.len() - i,
    {
        assert(keys@.subrange(0, i + 1).drop_last() =~= keys@.subrange(0, i as int));
        assert(keys@.subrange(0, i + 1).last() == keys@[i as int]);
        let ghost before = slot_views(slots@);
        match slot_for(graph, classes, &keys[i]) {
            Ok(slot) => {
                slots.push(slot);
                assert(slot_views(slots@) =~= before.push(slot@));
            },
            Err(error) => {
                proof {
                    lemma_slots_error(graph, classes, keys@, i + 1);
                }
                return Err(error);
            },
        }
        i = i + 1;
    }
    assert(keys@.subrange(0, keys.len() as int) =~= keys@);
    Ok(slots)
}

/// The measures of the struct behind the node; nothing for a node that was
/// not read as a struct.
pub struct Extent {
    pub super_field: Link,
    pub size: u64,
}

/// The base and the declared size of the struct behind the node.
pub open spec fn extent_of(graph: &Graph, node: usize) -> Extent {
    match graph.spec_node(Some(node)) {
        Some(found) => match found.spec_structure() {
            Some(s) => Extent { super_field: s.super_field, size: s.property_size as u64 },
            None => Extent { super_field: None, size: 0 },
        },
        None => Extent { super_field: None, size: 0 },
    }
}

/// The base and the declared size of the struct behind the node.
pub fn extent(graph: &Graph, node: usize) -> (e: Extent)
    ensures
        e == extent_of(graph, node),
{
    match graph.node(Some(node)) {
        Some(found) => match found.structure() {
            Some(s) => Extent { super_field: s.super_field, size: s.property_size as u64 },
            None => Extent { super_field: None, size: 0 },
        },
        None => Extent { super_field: None, size: 0 },
    }
}

/// The name and the size of the struct that the struct extends; `None` for a
/// struct that extends none or names itself as its base.
pub open spec fn base_of(graph: &Graph, structure: usize) -> Result<
    Option<(Seq<char>, u64)>,
    helper::Error,
> {
    match extent_of(graph, structure).super_field {
        None => Ok(None),
        Some(base) => if base == structure {
            Ok(None)
        } else {
            match helper::name_of(graph, base) {
                Err(error) => Err(error),
                Ok(name) => Ok(Some((name, extent_of(graph, base).size))),
            }
        },
    }
}

/// A struct as the emitted source lays it out.
#[derive(Debug)]
pub struct StructDescriptor {
    pub name: String,
    pub full_name: String,
    /// The declared size.
    pub size: u64,
    /// The name of the struct that this one extends.
    pub base_name: Option<String>,
    /// The size of the struct that this one extends; zero without one.
    pub base_size: u64,
    pub spans: Vec<Span>,
    pub bitfields: Bitfields,
}

/// A struct as the emitted source lays it out, its texts as characters.
pub struct DescriptorView {
    pub name: Seq<char>,
    pub full_name: Seq<char>,
    pub size: u64,
    pub base: Option<(Seq<char>, u64)>,
    pub spans: Seq<SpanView>,
    pub sets: Seq<BitfieldView>,
}

impl View for StructDescriptor {
    type V = DescriptorView;

    open spec fn view(&self) -> DescriptorView {
        DescriptorView {
            name: self.name@,
            full_name: self.full_name@,
            size: self.size,
            base: match self.base_name {
                Some(name) => Some((name@, self.base_size)),
                None => None,
            },
            spans: span_views(self.spans@),
            sets: self.bitfields@,
        }
    }
}

/// The struct behind `object` as the emitted source lays it out.
///
/// The span of the base, where the struct has one, comes first. The fields
/// behind the base follow in the order of the layout, with padding in every
/// gap and up to the declared size; the booleans at one offset share one
/// span.
#[verifier::opaque]
pub open spec fn described(graph: &Graph, classes: &StaticClasses, object: usize) -> Result<
    DescriptorView,
    ErrorView,
> {
    match helper::resolved_name(graph, object) {
        Err(error) => Err(ErrorView::Helper(error)),
        Ok(name) => match helper::full_name_of(graph, object) {
            Err(error) => Err(ErrorView::Helper(error)),
            Ok(full_name) => match base_of(graph, object) {
                Err(error) => Err(ErrorView::Helper(error)),
                Ok(base) => match slots_of(
                    graph,
                    classes,
                    fields_of(graph, classes, object, base_start(base) as u32),
                ) {
                    Err(error) => Err(error),
                    Ok(slots) => Ok(
                        DescriptorView {
                            name,
                            full_name,
                            size: extent_of(graph, object).size,
                            base,
                            spans: finished(
                                laid_out(started(base), slots),
                                extent_of(graph, object).size,
                            ),
                            sets: laid_out(started(base), slots).sets,
                        },
                    ),
                },
            },
        },
    }
}

/// Reconstructs the layout of the struct behind `object`.
pub fn reconstruct(graph: &Graph, classes: &StaticClasses, object: usize) -> (descriptor: Result<
    StructDescriptor,
    Error,
>)
    ensures
        match descriptor {
            Ok(descriptor) => described(graph, classes, object) == Ok::<
                DescriptorView,
                ErrorView,
            >(descriptor@),
            Err(error) => described(graph, classes, object) == Err::<DescriptorView, ErrorView>(
                error@,
            ),
        },
{
    reveal(described);
    let name = match helper::resolve_duplicate(graph, object) {
        Ok(name) => name,
        Err(error) => {
            return Err(Error::Helper(error));
        },
    };
    let full_name = match helper::get_full_name(graph, object) {
        Ok(full_name) => full_name,
        Err(error) => {
            return Err(Error::Helper(error));
        },
    };
    let own = extent(graph, object);
    let mut base_name: Option<String> = None;
    let mut base_size: u64 = 0;
    match own.super_field {
        None => {},
        Some(base) => {
            if base != object {
                match helper::get_name(graph, base) {
                    Ok(name) => {
                        base_size = extent(graph, base).size;
                        base_name = Some(name);
                    },
                    Err(error) => {
                        return Err(Error::Helper(error));
                    },
                }
            }
        },
    }
    let keys = get_fields(graph, classes, object, base_size as u32);
    let slots = match slots_for(graph, classes, &keys) {
        Ok(slots) => slots,
        Err(error) => {
            return Err(error);
        },
    };
    let mut layout = match &base_name {
        Some(name) => Layout::with_base(name.as_str(), base_size),
        None => Layout::new(),
    };
    layout.add_all(slots);
    let (spans, bitfields) = layout.finish(own.size);
    Ok(
        StructDescriptor {
            name,
            full_name,
            size: own.size,
            base_name,
            base_size,
            spans,
            bitfields,
        },
    )
}

/// The comment above a struct: its full name and its size; for a struct with
/// a base, the size that it adds, its size and the size of the base.
#[verifier::opaque]
pub open spec fn header_comment(d: DescriptorView) -> Seq<char> {
    match d.base {
        None => "// "@ + d.full_name + ", "@ + hex(d.size as nat),
        Some((_, base)) => "// "@ + d.full_name + ", "@ + hex(
            if d.size >= base {
                (d.size - base) as nat
            } else {
                0
            },
        ) + " ("@ + hex(d.size as nat) + " - "@ + hex(base as nat) + ")"@,
    }
}

/// One field of a struct: an empty line, a comment with its offset and size,
/// and the field.
#[verifier::opaque]
pub open spec fn field_text(
    level: nat,
    name: Seq<char>,
    typ: Seq<char>,
    offset: u64,
    length: u64,
) -> Seq<char> {
    line_text(level, Seq::empty()) + line_text(
        level,
        "// "@ + hex(offset as nat) + "("@ + hex(length as nat) + ")"@,
    ) + line_text(level, name + ": "@ + typ + ","@)
}

/// The fields of a struct.
pub open spec fn spans_text(level: nat, spans: Seq<SpanView>) -> Seq<char>
    decreases spans.len(),
{
    if spans.len() == 0 {
        Seq::empty()
    } else {
        spans_text(level, spans.drop_last()) + field_text(
            level,
            spans.last().name,
            spans.last().typ,
            spans.last().offset,
            spans.last().size,
        )
    }
}

/// The impl block of the trait `name` for the struct `target`: the line
/// `associated`, where there is one, and the one function `function`, which
/// takes `receiver`, returns `ret` and consists of `body`.
#[verifier::opaque]
pub open spec fn deref_impl_text(
    level: nat,
    name: Seq<char>,
    target: Seq<char>,
    associated: Option<Seq<char>>,
    function: Seq<char>,
    receiver: Seq<char>,
    ret: Seq<char>,
    body: Seq<char>,
) -> Seq<char> {
    line_text(level, "impl "@ + name + " for "@ + target + " {"@) + match associated {
        Some(line) => line_text(level + INDENT as nat, line),
        None => Seq::empty(),
    } + function_ret_text(
        level + INDENT as nat,
        Seq::empty(),
        function,
        seq![ArgView::Receiver(receiver)],
        ret,
    ) + line_text(level + 2 * INDENT as nat, body) + close_text(level + 2 * INDENT as nat)
        + close_text(level + INDENT as nat)
}

/// The impl blocks that let the struct `derived` stand for its base `base`.
#[verifier::opaque]
pub open spec fn deref_impls_text(level: nat, derived: Seq<char>, base: Seq<char>) -> Seq<char> {
    deref_impl_text(
        level,
        "Deref"@,
        derived,
        Some("type Target = "@ + base + ";\n"@),
        "deref"@,
        "&self"@,
        "&Self::Target"@,
        "&self.base"@,
    ) + deref_impl_text(
        level,
        "DerefMut"@,
        derived,
        None,
        "deref_mut"@,
        "&mut self"@,
        "&mut Self::Target"@,
        "&mut self.base"@,
    )
}

/// The impl blocks that let the emitted struct `Object` stand for the object
/// of the runtime.
#[verifier::opaque]
pub open spec fn object_deref_text(level: nat) -> Seq<char> {
    deref_impl_text(
        level,
        "Deref"@,
        "Object"@,
        Some("type Target = game::Object;\n"@),
        "deref"@,
        "&self"@,
        "&Self::Target"@,
        "unsafe { &*(self as *const Self as *const Self::Target) }"@,
    ) + deref_impl_text(
        level,
        "DerefMut"@,
        "Object"@,
        None,
        "deref_mut"@,
        "&mut self"@,
        "&mut Self::Target"@,
        "unsafe { &mut *(self as *mut Self as *mut Self::Target) }"@,
    )
}

/// What stands behind the struct `name` to let it stand for what it
/// extends: its base `base`, or the object of the runtime for the struct
/// `Object` that has no base.
#[verifier::opaque]
pub open spec fn deref_text(level: nat, name: Seq<char>, base: Option<Seq<char>>) -> Seq<char> {
    match base {
        Some(base) => deref_impls_text(level, name, base),
        None => if name == "Object"@ {
            object_deref_text(level)
        } else {
            Seq::empty()
        },
    }
}

/// The name of the base of the struct.
pub open spec fn base_name_of(d: DescriptorView) -> Option<Seq<char>> {
    match d.base {
        Some((base, _)) => Some(base),
        None => None,
    }
}

/// The definition of the struct: the comment, the attribute and the fields.
#[verifier::opaque]
pub open spec fn definition_text(level: nat, d: DescriptorView) -> Seq<char> {
    line_text(level, header_comment(d)) + line_text(level, "#[repr(C)]"@) + line_text(
        level,
        Visibility::Public.text() + "struct "@ + d.name + " {"@,
    ) + spans_text(level + INDENT as nat, d.spans) + close_text(level + INDENT as nat)
}

/// The struct in the emitted source: the definition, the accessors of its
/// booleans, and what lets it stand for its base.
#[verifier::opaque]
pub open spec fn structure_text(level: nat, d: DescriptorView) -> Seq<char> {
    definition_text(level, d) + bitfields_text(level, d.name, d.sets) + deref_text(
        level,
        d.name,
        base_name_of(d),
    )
}

/// Writes one field of a struct.
pub fn emit_field(
    struct_gen: &Structure,
    sink: &mut String,
    name: &str,
    typ: &str,
    offset: u64,
    length: u64,
)
    ensures
        final(sink)@ == old(sink)@ + field_text(struct_gen.level(), name@, typ@, offset, length),
{
    reveal(field_text);
    proof {
        reveal_strlit("");
    }
    struct_gen.line(sink, "");
    let mut comment = String::from_str("// ");
    push_hex(&mut comment, offset);
    comment.append("(");
    push_hex(&mut comment, length);
    comment.append(")");
    struct_gen.line(sink, comment.as_str());
    struct_gen.field(sink, name, typ);
    assert(""@ =~= Seq::<char>::empty());
    assert(final(sink)@ =~= old(sink)@ + field_text(
        struct_gen.level(),
        name@,
        typ@,
        offset,
        length,
    ));
}

/// Writes the impl block of the trait `name` for the struct `target` with
/// its one function.
pub fn add_deref_impl(
    sdk: &Scope,
    sink: &mut String,
    name: &str,
    target: &str,
    associated: Option<&str>,
    function: &str,
    receiver: &str,
    ret: &str,
    body: &str,
)
    requires
        sdk.level() + 2 * INDENT <= usize::MAX,
    ensures
        final(sink)@ == old(sink)@ + deref_impl_text(
            sdk.level(),
            name@,
            target@,
            match associated {
                Some(line) => Some(line@),
                None => None,
            },
            function@,
            receiver@,
            ret@,
            body@,
        ),
{
    reveal(deref_impl_text);
    let args: Vec<Arg> = vec![Arg::receiver(receiver)];
    proof {
        reveal_strlit("");
        assert(""@ =~= Seq::<char>::empty());
        assert(arg_views(args@) =~= seq![ArgView::Receiver(receiver@)]);
    }
    let imp = sdk.imp_trait(sink, name, target);
    match associated {
        Some(line) => {
            imp.line(sink, line);
        },
        None => {},
    }
    let method = imp.function_args_ret(sink, "", function, &args, ret);
    method.line(sink, body);
    method.close(sink);
    imp.close(sink);
    assert(final(sink)@ =~= old(sink)@ + deref_impl_text(
        sdk.level(),
        name@,
        target@,
        match associated {
            Some(line) => Some(line@),
            None => None,
        },
        function@,
        receiver@,
        ret@,
        body@,
    ));
}

/// Writes the impl blocks that let the struct `derived_name` stand for its
/// base `base_name`.
pub fn add_deref_impls(sdk: &Scope, sink: &mut String, derived_name: &str, base_name: &str)
    requires
        sdk.level() + 2 * INDENT <= usize::MAX,
    ensures
        final(sink)@ == old(sink)@ + deref_impls_text(sdk.level(), derived_name@, base_name@),
{
    reveal(deref_impls_text);
    let mut target = String::from_str("type Target = ");
    target.append(base_name);
    target.append(";\n");
    add_deref_impl(
        sdk,
        sink,
        "Deref",
        derived_name,
        Some(target.as_str()),
        "deref",
        "&self",
        "&Self::Target",
        "&self.base",
    );
    add_deref_impl(
        sdk,
        sink,
        "DerefMut",
        derived_name,
        None,
        "deref_mut",
        "&mut self",
        "&mut Self::Target",
        "&mut self.base",
    );
}

/// Writes the impl blocks that let the emitted struct `Object` stand for the
/// object of the runtime.
pub fn add_object_deref_impl(sdk: &Scope, sink: &mut String)
    requires
        sdk.level() + 2 * INDENT <= usize::MAX,
    ensures
        final(sink)@ == old(sink)@ + object_deref_text(sdk.level()),
{
    reveal(object_deref_text);
    add_deref_impl(
        sdk,
        sink,
        "Deref",
        "Object",
        Some("type Target = game::Object;\n"),
        "deref",
        "&self",
        "&Self::Target",
        "unsafe { &*(self as *const Self as *const Self::Target) }",
    );
    add_deref_impl(
        sdk,
        sink,
        "DerefMut",
        "Object",
        None,
        "deref_mut",
        "&mut self",
        "&mut Self::Target",
        "unsafe { &mut *(self as *mut Self as *mut Self::Target) }",
    );
}

/// Writes the fields of a struct.
pub fn add_fields(struct_gen: &Structure, sink: &mut String, spans: &Vec<Span>)
    ensures
        final(sink)@ == old(sink)@ + spans_text(struct_gen.level(), span_views(spans@)),
{
    let ghost all = span_views(spans@);
    let mut i: usize = 0;
    assert(all.subrange(0, 0) =~= Seq::<SpanView>::empty());
    assert(sink@ =~= old(sink)@ + spans_text(struct_gen.level(), all.subrange(0, 0)));
    while i < spans.len()
        invariant
            i <= spans.len(),
            all == span_views(spans@),
            sink@ == old(sink)@ + spans_text(struct_gen.level(), all.subrange(0, i as int)),
        decreases spans.len() - i,
    {
        assert(all.subrange(0, i + 1).drop_last() =~= all.subrange(0, i as int));
        assert(all.subrange(0, i + 1).last() == spans@[i as int]@);
        let span = &spans[i];
        emit_field(
            struct_gen,
            sink,
            span.name.as_str(),
            span.typ.as_str(),
            span.offset,
            span.size,
        );
        i = i + 1;
        assert(sink@ =~= old(sink)@ + spans_text(struct_gen.level(), all.subrange(0, i as int)));
    }
    assert(all.subrange(0, spans.len() as int) =~= all);
}

/// The comment above the struct.
pub fn comment_for(descriptor: &StructDescriptor) -> (comment: String)
    ensures
        comment@ == header_comment(descriptor@),
{
    reveal(header_comment);
    let mut comment = String::from_str("// ");
    comment.append(descriptor.full_name.as_str());
    comment.append(", ");
    match &descriptor.base_name {
        None => {
            push_hex(&mut comment, descriptor.size);
        },
        Some(_) => {
            let relative = if descriptor.size >= descriptor.base_size {
                descriptor.size - descriptor.base_size
            } else {
                0
            };
            push_hex(&mut comment, relative);
            comment.append(" (");
            push_hex(&mut comment, descriptor.size);
            comment.append(" - ");
            push_hex(&mut comment, descriptor.base_size);
            comment.append(")");
        },
    }
    assert(comment@ =~= header_comment(descriptor@));
    comment
}

/// Writes what lets the struct `name` stand for what it extends.
pub fn add_deref(sdk: &Scope, sink: &mut String, name: &str, base_name: &Option<String>)
    requires
        sdk.level() + 2 * INDENT <= usize::MAX,
    ensures
        final(sink)@ == old(sink)@ + deref_text(
            sdk.level(),
            name@,
            match base_name {
                Some(base) => Some(base@),
                None => None,
            },
        ),
{
    reveal(deref_text);
    match base_name {
        Some(base) => {
            add_deref_impls(sdk, sink, name, base.as_str());
        },
        None => {
            if str_eq(name, "Object") {
                add_object_deref_impl(sdk, sink);
            } else {
                assert(sink@ =~= old(sink)@ + Seq::<char>::empty());
            }
        },
    }
}

/// Writes the definition of the struct: the comment, the attribute and the
/// fields.
pub fn add_definition(sdk: &Scope, sink: &mut String, descriptor: &StructDescriptor)
    requires
        sdk.level() + INDENT <= usize::MAX,
    ensures
        final(sink)@ == old(sink)@ + definition_text(sdk.level(), descriptor@),
{
    reveal(definition_text);
    let comment = comment_for(descriptor);
    sdk.line(sink, comment.as_str());
    sdk.line(sink, "#[repr(C)]");
    let struct_gen = sdk.structure(sink, Visibility::Public, descriptor.name.as_str());
    add_fields(&struct_gen, sink, &descriptor.spans);
    struct_gen.close(sink);
    assert(final(sink)@ =~= old(sink)@ + definition_text(sdk.level(), descriptor@));
}

/// Writes the struct.
pub fn emit_structure(sdk: &Scope, sink: &mut String, descriptor: StructDescriptor)
    requires
        sdk.level() + 2 * INDENT <= usize::MAX,
    ensures
        final(sink)@ == old(sink)@ + structure_text(sdk.level(), descriptor@),
{
    reveal(structure_text);
    let ghost d = descriptor@;
    let ghost start = sink@;
    add_definition(sdk, sink, &descriptor);
    let ghost defined = sink@;
    let StructDescriptor { name, base_name, bitfields, .. } = descriptor;
    bitfields.emit(sdk, sink, name.as_str());
    let ghost accessed = sink@;
    add_deref(sdk, sink, name.as_str(), &base_name);
    assert(defined == start + definition_text(sdk.level(), d));
    assert(accessed == defined + bitfields_text(sdk.level(), d.name, d.sets));
    assert(sink@ == accessed + deref_text(sdk.level(), d.name, base_name_of(d)));
    assert(sink@ =~= start + structure_text(sdk.level(), d));
}

/// Reconstructs the struct behind `object` and writes it; writes nothing
/// where the reconstruction fails.
pub fn write_structure(
    sdk: &Scope,
    sink: &mut String,
    graph: &Graph,
    classes: &StaticClasses,
    object: usize,
) -> (written: Result<(), Error>)
    requires
        sdk.level() + 2 * INDENT <= usize::MAX,
    ensures
        match written {
            Ok(_) => described(graph, classes, object) is Ok && final(sink)@ == old(sink)@
                + structure_text(sdk.level(), described(graph, classes, object)->Ok_0),
            Err(error) => described(graph, classes, object) == Err::<DescriptorView, ErrorView>(
                error@,
            ) && final(sink)@ == old(sink)@,
        },
{
    match reconstruct(graph, classes, object) {
        Ok(descriptor) => {
            emit_structure(sdk, sink, descriptor);
            Ok(())
        },
        Err(error) => Err(error),
    }
}

/// The slots of the struct behind `object`: its fields behind its base,
/// classified and checked, in the order of the layout.
pub open spec fn own_slots(graph: &Graph, classes: &StaticClasses, object: usize) -> Result<
    Seq<SlotView>,
    ErrorView,
> {
    slots_of(
        graph,
        classes,
        fields_of(
            graph,
            classes,
            object,
            match base_of(graph, object) {
                Ok(base) => base_start(base) as u32,
                Err(_) => 0,
            },
        ),
    )
}

/// The spans of a reconstructed struct whose fields lie apart behind its
/// base and within its declared size lie one behind the other from its first
/// byte to its declared size, and those behind the span of the base from the
/// end of the base: no byte is left out and none is in two spans.
pub proof fn lemma_described_covers(graph: &Graph, classes: &StaticClasses, object: usize)
    requires
        described(graph, classes, object) is Ok,
        lie_apart(
            own_slots(graph, classes, object)->Ok_0,
            base_start(described(graph, classes, object)->Ok_0.base),
            described(graph, classes, object)->Ok_0.size,
        ),
    ensures
        covers(
            described(graph, classes, object)->Ok_0.spans,
            0,
            described(graph, classes, object)->Ok_0.size as nat,
        ),
        described(graph, classes, object)->Ok_0.base is Some ==> covers(
            described(graph, classes, object)->Ok_0.spans.drop_first(),
            base_start(described(graph, classes, object)->Ok_0.base) as nat,
            described(graph, classes, object)->Ok_0.size as nat,
        ),
{
    reveal(described);
    let d = described(graph, classes, object)->Ok_0;
    lemma_fields_apart_are_covered(d.base, own_slots(graph, classes, object)->Ok_0, d.size);
}

} // verus!
