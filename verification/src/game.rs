//! The reflection graph as plain values.
//!
//! The graph lives in another process. Here every node is a record of what was
//! read at its address, held in the slot of the global object table that lists
//! it; a pointer between nodes is the index of the target's slot, and the null
//! pointer is `None`. A link to a slot that is unused or beyond the table is
//! followed like a null pointer.

use vstd::prelude::*;
use vstd::string::*;
use crate::text::str_eq;

verus! {

/// A pointer to a node: the index of its slot in the object table.
pub type Link = Option<usize>;

/// A slot-based table; an unused slot holds `None`.
#[derive(Debug)]
pub struct Array<T> {
    pub data: Vec<Option<T>>,
}

/// The indices of the used slots among the first `upto`, in ascending order.
pub open spec fn used_slots<T>(data: Seq<Option<T>>, upto: int) -> Seq<usize>
    decreases upto,
{
    if upto <= 0 {
        Seq::empty()
    } else if upto <= data.len() && data[upto - 1] is Some {
        used_slots(data, upto - 1).push((upto - 1) as usize)
    } else {
        used_slots(data, upto - 1)
    }
}

impl<T> Array<T> {
    /// The item in slot `index`, if the table has such a slot and it is used.
    pub open spec fn spec_get(&self, index: usize) -> Option<&T> {
        if index < self.data.len() {
            match &self.data[index as int] {
                Some(item) => Some(item),
                None => None,
            }
        } else {
            None
        }
    }

    #[verifier::when_used_as_spec(spec_get)]
    pub fn get(&self, index: usize) -> (item: Option<&T>)
        ensures
            item == self.spec_get(index),
    {
        if index < self.data.len() {
            match &self.data[index] {
                Some(item) => Some(item),
                None => None,
            }
        } else {
            None
        }
    }

    /// The indices of the used slots, in table order.
    pub fn iter(&self) -> (slots: Vec<usize>)
        ensures
            slots@ == used_slots(self.data@, self.data.len() as int),
    {
        let mut slots: Vec<usize> = Vec::new();
        let mut i: usize = 0;
        while i < self.data.len()
            invariant
                i <= self.data.len(),
                slots@ == used_slots(self.data@, i as int),
            decreases self.data.len() - i,
        {
            if self.data[i].is_some() {
                slots.push(i);
            }
            i = i + 1;
        }
        slots
    }
}

/// A reference into the name table.
#[derive(Clone, Copy, Debug, PartialEq, Eq, Structural)]
pub struct NameIndex {
    pub index: u32,
    pub number: u32,
}

/// What every node starts with.
#[derive(Clone, Copy, Debug)]
pub struct Object {
    /// Where the node lives in the foreign process; errors name a node by it.
    pub address: usize,
    pub index: u32,
    pub outer: Link,
    pub name: NameIndex,
    pub class: Link,
}

#[derive(Clone, Copy, Debug)]
pub struct Field {
    pub object: Object,
    pub next: Link,
}

#[derive(Clone, Copy, Debug)]
pub struct Struct {
    pub field: Field,
    pub super_field: Link,
    pub children: Link,
    pub property_size: u16,
}

#[derive(Debug)]
pub struct Const {
    pub field: Field,
    /// The text of the value; `None` where what the runtime holds is no
    /// text.
    pub value: Option<String>,
}

#[derive(Debug)]
pub struct Enum {
    pub field: Field,
    pub variants: Vec<NameIndex>,
}

#[derive(Clone, Copy, Debug)]
pub struct ScriptStruct {
    pub struct_base: Struct,
}

#[derive(Clone, Copy, Debug)]
pub struct Function {
    pub struct_base: Struct,
    pub flags: u32,
}

#[derive(Clone, Copy, Debug)]
pub struct State {
    pub struct_base: Struct,
}

#[derive(Clone, Copy, Debug)]
pub struct Class {
    pub struct_base: Struct,
}

#[derive(Clone, Copy, Debug)]
pub struct Property {
    pub field: Field,
    pub array_dim: u32,
    pub element_size: u32,
    pub property_flags: u32,
    pub offset: u32,
}

#[derive(Clone, Copy, Debug)]
pub struct ByteProperty {
    pub property: Property,
    pub enumeration: Link,
}

#[derive(Clone, Copy, Debug)]
pub struct BoolProperty {
    pub property: Property,
    pub bitmask: u32,
}

#[derive(Clone, Copy, Debug)]
pub struct ObjectProperty {
    pub property: Property,
    pub property_class: Link,
}

#[derive(Clone, Copy, Debug)]
pub struct ClassProperty {
    pub object_property: ObjectProperty,
    pub meta_class: Link,
}

#[derive(Clone, Copy, Debug)]
pub struct InterfaceProperty {
    pub property: Property,
    pub interface_class: Link,
}

#[derive(Clone, Copy, Debug)]
pub struct StructProperty {
    pub property: Property,
    pub inner_struct: Link,
}

#[derive(Clone, Copy, Debug)]
pub struct ArrayProperty {
    pub property: Property,
    pub inner: Link,
}

#[derive(Clone, Copy, Debug)]
pub struct MapProperty {
    pub property: Property,
    pub key: Link,
    pub value: Link,
}

#[derive(Clone, Copy, Debug)]
pub struct DelegateProperty {
    pub property: Property,
}

/// The flag of a property that is a parameter of a function.
pub const PARAM: u32 = 0x80;

/// The flag of a parameter that the function writes to.
pub const OUT_PARAM: u32 = 0x100;

/// The flag of the parameter that holds the function's result.
pub const RETURN_PARAM: u32 = 0x400;

/// The flag of a function that the runtime implements natively.
pub const NATIVE: u32 = 0x400;

impl Property {
    pub open spec fn spec_is_param(&self) -> bool {
        self.property_flags & PARAM != 0
    }

    #[verifier::when_used_as_spec(spec_is_param)]
    pub fn is_param(&self) -> (is: bool)
        ensures
            is == self.spec_is_param(),
    {
        self.property_flags & PARAM != 0
    }

    pub open spec fn spec_is_out_param(&self) -> bool {
        self.property_flags & OUT_PARAM != 0
    }

    #[verifier::when_used_as_spec(spec_is_out_param)]
    pub fn is_out_param(&self) -> (is: bool)
        ensures
            is == self.spec_is_out_param(),
    {
        self.property_flags & OUT_PARAM != 0
    }

    pub open spec fn spec_is_return_param(&self) -> bool {
        self.property_flags & RETURN_PARAM != 0
    }

    #[verifier::when_used_as_spec(spec_is_return_param)]
    pub fn is_return_param(&self) -> (is: bool)
        ensures
            is == self.spec_is_return_param(),
    {
        self.property_flags & RETURN_PARAM != 0
    }
}

impl Function {
    pub open spec fn spec_is_native(&self) -> bool {
        self.flags & NATIVE != 0
    }

    #[verifier::when_used_as_spec(spec_is_native)]
    pub fn is_native(&self) -> (is: bool)
        ensures
            is == self.spec_is_native(),
    {
        self.flags & NATIVE != 0
    }
}

/// A node, by how much of its layout was read.
#[derive(Debug)]
pub enum Node {
    Object(Object),
    Field(Field),
    Const(Const),
    Enum(Enum),
    Struct(Struct),
    ScriptStruct(ScriptStruct),
    Function(Function),
    State(State),
    Class(Class),
    Property(Property),
    ByteProperty(ByteProperty),
    BoolProperty(BoolProperty),
    ObjectProperty(ObjectProperty),
    ClassProperty(ClassProperty),
    InterfaceProperty(InterfaceProperty),
    StructProperty(StructProperty),
    ArrayProperty(ArrayProperty),
    MapProperty(MapProperty),
    DelegateProperty(DelegateProperty),
}

impl Node {
    /// The part that every field has; `None` for a node read as a bare object.
    pub open spec fn spec_field(&self) -> Option<Field> {
        match self {
            Node::Object(_) => None,
            Node::Field(f) => Some(*f),
            Node::Const(c) => Some(c.field),
            Node::Enum(e) => Some(e.field),
            Node::Struct(s) => Some(s.field),
            Node::ScriptStruct(s) => Some(s.struct_base.field),
            Node::Function(f) => Some(f.struct_base.field),
            Node::State(s) => Some(s.struct_base.field),
            Node::Class(c) => Some(c.struct_base.field),
            Node::Property(p) => Some(p.field),
            Node::ByteProperty(p) => Some(p.property.field),
            Node::BoolProperty(p) => Some(p.property.field),
            Node::ObjectProperty(p) => Some(p.property.field),
            Node::ClassProperty(p) => Some(p.object_property.property.field),
            Node::InterfaceProperty(p) => Some(p.property.field),
            Node::StructProperty(p) => Some(p.property.field),
            Node::ArrayProperty(p) => Some(p.property.field),
            Node::MapProperty(p) => Some(p.property.field),
            Node::DelegateProperty(p) => Some(p.property.field),
        }
    }

    #[verifier::when_used_as_spec(spec_field)]
    pub fn field(&self) -> (field: Option<Field>)
        ensures
            field == self.spec_field(),
    {
        match self {
            Node::Object(_) => None,
            Node::Field(f) => Some(*f),
            Node::Const(c) => Some(c.field),
            Node::Enum(e) => Some(e.field),
            Node::Struct(s) => Some(s.field),
            Node::ScriptStruct(s) => Some(s.struct_base.field),
            Node::Function(f) => Some(f.struct_base.field),
            Node::State(s) => Some(s.struct_base.field),
            Node::Class(c) => Some(c.struct_base.field),
            Node::Property(p) => Some(p.field),
            Node::ByteProperty(p) => Some(p.property.field),
            Node::BoolProperty(p) => Some(p.property.field),
            Node::ObjectProperty(p) => Some(p.property.field),
            Node::ClassProperty(p) => Some(p.object_property.property.field),
            Node::InterfaceProperty(p) => Some(p.property.field),
            Node::StructProperty(p) => Some(p.property.field),
            Node::ArrayProperty(p) => Some(p.property.field),
            Node::MapProperty(p) => Some(p.property.field),
            Node::DelegateProperty(p) => Some(p.property.field),
        }
    }

    /// The header of the node.
    pub open spec fn spec_object(&self) -> Object {
        match self {
            Node::Object(o) => *o,
            Node::Field(f) => f.object,
            Node::Const(c) => c.field.object,
            Node::Enum(e) => e.field.object,
            Node::Struct(s) => s.field.object,
            Node::ScriptStruct(s) => s.struct_base.field.object,
            Node::Function(f) => f.struct_base.field.object,
            Node::State(s) => s.struct_base.field.object,
            Node::Class(c) => c.struct_base.field.object,
            Node::Property(p) => p.field.object,
            Node::ByteProperty(p) => p.property.field.object,
            Node::BoolProperty(p) => p.property.field.object,
            Node::ObjectProperty(p) => p.property.field.object,
            Node::ClassProperty(p) => p.object_property.property.field.object,
            Node::InterfaceProperty(p) => p.property.field.object,
            Node::StructProperty(p) => p.property.field.object,
            Node::ArrayProperty(p) => p.property.field.object,
            Node::MapProperty(p) => p.property.field.object,
            Node::DelegateProperty(p) => p.property.field.object,
        }
    }

    #[verifier::when_used_as_spec(spec_object)]
    pub fn object(&self) -> (object: Object)
        ensures
            object == self.spec_object(),
    {
        match self {
            Node::Object(o) => *o,
            Node::Field(f) => f.object,
            Node::Const(c) => c.field.object,
            Node::Enum(e) => e.field.object,
            Node::Struct(s) => s.field.object,
            Node::ScriptStruct(s) => s.struct_base.field.object,
            Node::Function(f) => f.struct_base.field.object,
            Node::State(s) => s.struct_base.field.object,
            Node::Class(c) => c.struct_base.field.object,
            Node::Property(p) => p.field.object,
            Node::ByteProperty(p) => p.property.field.object,
            Node::BoolProperty(p) => p.property.field.object,
            Node::ObjectProperty(p) => p.property.field.object,
            Node::ClassProperty(p) => p.object_property.property.field.object,
            Node::InterfaceProperty(p) => p.property.field.object,
            Node::StructProperty(p) => p.property.field.object,
            Node::ArrayProperty(p) => p.property.field.object,
            Node::MapProperty(p) => p.property.field.object,
            Node::DelegateProperty(p) => p.property.field.object,
        }
    }

    /// The part that every struct, function, state and class has.
    pub open spec fn spec_structure(&self) -> Option<Struct> {
        match self {
            Node::Struct(s) => Some(*s),
            Node::ScriptStruct(s) => Some(s.struct_base),
            Node::Function(f) => Some(f.struct_base),
            Node::State(s) => Some(s.struct_base),
            Node::Class(c) => Some(c.struct_base),
            _ => None,
        }
    }

    #[verifier::when_used_as_spec(spec_structure)]
    pub fn structure(&self) -> (structure: Option<Struct>)
        ensures
            structure == self.spec_structure(),
    {
        match self {
            Node::Struct(s) => Some(*s),
            Node::ScriptStruct(s) => Some(s.struct_base),
            Node::Function(f) => Some(f.struct_base),
            Node::State(s) => Some(s.struct_base),
            Node::Class(c) => Some(c.struct_base),
            _ => None,
        }
    }

    /// The part that every property has.
    pub open spec fn spec_property(&self) -> Option<Property> {
        match self {
            Node::Property(p) => Some(*p),
            Node::ByteProperty(p) => Some(p.property),
            Node::BoolProperty(p) => Some(p.property),
            Node::ObjectProperty(p) => Some(p.property),
            Node::ClassProperty(p) => Some(p.object_property.property),
            Node::InterfaceProperty(p) => Some(p.property),
            Node::StructProperty(p) => Some(p.property),
            Node::ArrayProperty(p) => Some(p.property),
            Node::MapProperty(p) => Some(p.property),
            Node::DelegateProperty(p) => Some(p.property),
            _ => None,
        }
    }

    #[verifier::when_used_as_spec(spec_property)]
    pub fn property(&self) -> (property: Option<Property>)
        ensures
            property == self.spec_property(),
    {
        match self {
            Node::Property(p) => Some(*p),
            Node::ByteProperty(p) => Some(p.property),
            Node::BoolProperty(p) => Some(p.property),
            Node::ObjectProperty(p) => Some(p.property),
            Node::ClassProperty(p) => Some(p.object_property.property),
            Node::InterfaceProperty(p) => Some(p.property),
            Node::StructProperty(p) => Some(p.property),
            Node::ArrayProperty(p) => Some(p.property),
            Node::MapProperty(p) => Some(p.property),
            Node::DelegateProperty(p) => Some(p.property),
            _ => None,
        }
    }

    /// The mask of the bit that a boolean property occupies; zero for any
    /// other node.
    pub open spec fn spec_bitmask(&self) -> u32 {
        match self {
            Node::BoolProperty(p) => p.bitmask,
            _ => 0,
        }
    }

    #[verifier::when_used_as_spec(spec_bitmask)]
    pub fn bitmask(&self) -> (bitmask: u32)
        ensures
            bitmask == self.spec_bitmask(),
    {
        match self {
            Node::BoolProperty(p) => p.bitmask,
            _ => 0,
        }
    }

    /// The enumeration behind a byte property.
    pub open spec fn spec_enumeration(&self) -> Link {
        match self {
            Node::ByteProperty(p) => p.enumeration,
            _ => None,
        }
    }

    #[verifier::when_used_as_spec(spec_enumeration)]
    pub fn enumeration(&self) -> (enumeration: Link)
        ensures
            enumeration == self.spec_enumeration(),
    {
        match self {
            Node::ByteProperty(p) => p.enumeration,
            _ => None,
        }
    }

    /// The class whose subclasses a class property holds.
    pub open spec fn spec_meta_class(&self) -> Link {
        match self {
            Node::ClassProperty(p) => p.meta_class,
            _ => None,
        }
    }

    #[verifier::when_used_as_spec(spec_meta_class)]
    pub fn meta_class(&self) -> (class: Link)
        ensures
            class == self.spec_meta_class(),
    {
        match self {
            Node::ClassProperty(p) => p.meta_class,
            _ => None,
        }
    }

    /// The interface that an interface property refers to.
    pub open spec fn spec_interface_class(&self) -> Link {
        match self {
            Node::InterfaceProperty(p) => p.interface_class,
            _ => None,
        }
    }

    #[verifier::when_used_as_spec(spec_interface_class)]
    pub fn interface_class(&self) -> (class: Link)
        ensures
            class == self.spec_interface_class(),
    {
        match self {
            Node::InterfaceProperty(p) => p.interface_class,
            _ => None,
        }
    }

    /// The struct that a struct property holds.
    pub open spec fn spec_inner_struct(&self) -> Link {
        match self {
            Node::StructProperty(p) => p.inner_struct,
            _ => None,
        }
    }

    #[verifier::when_used_as_spec(spec_inner_struct)]
    pub fn inner_struct(&self) -> (inner: Link)
        ensures
            inner == self.spec_inner_struct(),
    {
        match self {
            Node::StructProperty(p) => p.inner_struct,
            _ => None,
        }
    }

    /// The property of the items of an array property.
    pub open spec fn spec_inner(&self) -> Link {
        match self {
            Node::ArrayProperty(p) => p.inner,
            _ => None,
        }
    }

    #[verifier::when_used_as_spec(spec_inner)]
    pub fn inner(&self) -> (inner: Link)
        ensures
            inner == self.spec_inner(),
    {
        match self {
            Node::ArrayProperty(p) => p.inner,
            _ => None,
        }
    }

    /// The property of the keys of a map property.
    pub open spec fn spec_key(&self) -> Link {
        match self {
            Node::MapProperty(p) => p.key,
            _ => None,
        }
    }

    #[verifier::when_used_as_spec(spec_key)]
    pub fn key(&self) -> (key: Link)
        ensures
            key == self.spec_key(),
    {
        match self {
            Node::MapProperty(p) => p.key,
            _ => None,
        }
    }

    /// The property of the values of a map property.
    pub open spec fn spec_value(&self) -> Link {
        match self {
            Node::MapProperty(p) => p.value,
            _ => None,
        }
    }

    #[verifier::when_used_as_spec(spec_value)]
    pub fn value(&self) -> (value: Link)
        ensures
            value == self.spec_value(),
    {
        match self {
            Node::MapProperty(p) => p.value,
            _ => None,
        }
    }

    /// The class that an object or class property refers to.
    pub open spec fn spec_property_class(&self) -> Link {
        match self {
            Node::ObjectProperty(p) => p.property_class,
            Node::ClassProperty(p) => p.object_property.property_class,
            _ => None,
        }
    }

    #[verifier::when_used_as_spec(spec_property_class)]
    pub fn property_class(&self) -> (class: Link)
        ensures
            class == self.spec_property_class(),
    {
        match self {
            Node::ObjectProperty(p) => p.property_class,
            Node::ClassProperty(p) => p.object_property.property_class,
            _ => None,
        }
    }
}

/// Which pointer of a node a walk follows.
#[derive(Clone, Copy, Debug, PartialEq, Eq, Structural)]
pub enum Step {
    /// The object that holds this one.
    Outer,
    /// The struct that this one extends.
    Super,
    /// The next field of the same struct.
    Next,
}

pub type Names = Array<String>;

pub type Objects = Array<Node>;

/// The name table and the object table of one process.
#[derive(Debug)]
pub struct Graph {
    pub names: Names,
    pub objects: Objects,
}

impl Graph {
    /// The node behind `link`; `None` for the null pointer and for a link that
    /// leads to no used slot.
    pub open spec fn spec_node(&self, link: Link) -> Option<&Node> {
        match link {
            Some(index) => self.objects.spec_get(index),
            None => None,
        }
    }

    #[verifier::when_used_as_spec(spec_node)]
    pub fn node(&self, link: Link) -> (node: Option<&Node>)
        ensures
            node == self.spec_node(link),
    {
        match link {
            Some(index) => self.objects.get(index),
            None => None,
        }
    }

    /// Where the pointer `step` of the node behind `link` leads.
    pub open spec fn spec_follow(&self, link: Link, step: Step) -> Link {
        match self.spec_node(link) {
            None => None,
            Some(node) => match step {
                Step::Outer => node.spec_object().outer,
                Step::Super => match node.spec_structure() {
                    Some(s) => s.super_field,
                    None => None,
                },
                Step::Next => match node.spec_field() {
                    Some(f) => f.next,
                    None => None,
                },
            },
        }
    }

    #[verifier::when_used_as_spec(spec_follow)]
    pub fn follow(&self, link: Link, step: Step) -> (next: Link)
        ensures
            next == self.spec_follow(link, step),
    {
        match self.node(link) {
            None => None,
            Some(node) => match step {
                Step::Outer => node.object().outer,
                Step::Super => match node.structure() {
                    Some(s) => s.super_field,
                    None => None,
                },
                Step::Next => match node.field() {
                    Some(f) => f.next,
                    None => None,
                },
            },
        }
    }

    /// The declared size of the struct behind `link`; zero where the node is
    /// missing or was not read as a struct.
    pub open spec fn spec_declared_size(&self, link: Link) -> u16 {
        match self.spec_node(link) {
            Some(node) => match node.spec_structure() {
                Some(s) => s.property_size,
                None => 0,
            },
            None => 0,
        }
    }

    #[verifier::when_used_as_spec(spec_declared_size)]
    pub fn declared_size(&self, link: Link) -> (size: u16)
        ensures
            size == self.spec_declared_size(link),
    {
        match self.node(link) {
            Some(node) => match node.structure() {
                Some(s) => s.property_size,
                None => 0,
            },
            None => 0,
        }
    }

    /// The nodes met from `start` on by following `step`, `start` first, up to
    /// the first link that leads to no node and no further than `limit` nodes.
    pub open spec fn chain(&self, start: Link, step: Step, limit: nat) -> Seq<usize>
        decreases limit,
    {
        if limit == 0 || self.spec_node(start) is None {
            Seq::empty()
        } else {
            seq![start.unwrap()] + self.chain(
                self.spec_follow(start, step),
                step,
                (limit - 1) as nat,
            )
        }
    }

    /// The chain from `start`, cut after as many nodes as the table has
    /// slots. A chain is cut only where it runs in a circle: see
    /// `lemma_cut_walk_repeats`.
    pub open spec fn walk_of(&self, start: Link, step: Step) -> Seq<usize> {
        self.chain(start, step, self.objects.data.len() as nat)
    }

    /// Follows `step` from `start` to the end of the chain.
    pub fn walk(&self, start: Link, step: Step) -> (nodes: Vec<usize>)
        ensures
            nodes@ == self.walk_of(start, step),
    {
        let limit = self.objects.data.len();
        let mut nodes: Vec<usize> = Vec::new();
        let mut current = start;
        let mut left = limit;
        while left > 0 && self.node(current).is_some()
            invariant
                left <= limit,
                nodes@ + self.chain(current, step, left as nat) == self.chain(
                    start,
                    step,
                    limit as nat,
                ),
            decreases left,
        {
            let ghost before = nodes@;
            nodes.push(current.unwrap());
            let ghost here = current;
            current = self.follow(current, step);
            left = left - 1;
            assert(nodes@ + self.chain(current, step, left as nat) =~= before + self.chain(
                here,
                step,
                (left + 1) as nat,
            ));
        }
        assert(self.chain(current, step, left as nat) =~= Seq::empty());
        assert(nodes@ + Seq::<usize>::empty() =~= nodes@);
        nodes
    }

    /// The object and the objects that hold it, innermost first.
    pub open spec fn outer_chain(&self, object: usize) -> Seq<usize> {
        self.walk_of(Some(object), Step::Outer)
    }

    /// The object and the objects that hold it, innermost first.
    pub fn iter_outer(&self, object: usize) -> (chain: Vec<usize>)
        ensures
            chain@ == self.outer_chain(object),
    {
        self.walk(Some(object), Step::Outer)
    }

    /// The class of the object and the classes that it extends, nearest first.
    pub open spec fn class_chain(&self, object: usize) -> Seq<usize> {
        match self.spec_node(Some(object)) {
            Some(node) => self.walk_of(node.spec_object().class, Step::Super),
            None => Seq::empty(),
        }
    }

    /// The class of the object and the classes that it extends, nearest first.
    pub fn iter_class(&self, object: usize) -> (chain: Vec<usize>)
        ensures
            chain@ == self.class_chain(object),
    {
        match self.node(Some(object)) {
            Some(node) => self.walk(node.object().class, Step::Super),
            None => Vec::new(),
        }
    }

    /// The fields of a struct in the order of their declaration.
    pub open spec fn children_of(&self, structure: usize) -> Seq<usize> {
        match self.spec_node(Some(structure)) {
            Some(node) => match node.spec_structure() {
                Some(s) => self.walk_of(s.children, Step::Next),
                None => Seq::empty(),
            },
            None => Seq::empty(),
        }
    }

    /// The fields of a struct in the order of their declaration.
    pub fn iter_children(&self, structure: usize) -> (children: Vec<usize>)
        ensures
            children@ == self.children_of(structure),
    {
        match self.node(Some(structure)) {
            Some(node) => match node.structure() {
                Some(s) => self.walk(s.children, Step::Next),
                None => Vec::new(),
            },
            None => Vec::new(),
        }
    }

    /// Whether the object is of the class `class` or of one that extends it.
    pub open spec fn spec_is(&self, object: usize, class: usize) -> bool {
        self.class_chain(object).contains(class)
    }

    /// Whether the object is of the class `class` or of one that extends it.
    #[verifier::when_used_as_spec(spec_is)]
    pub fn is(&self, object: usize, class: usize) -> (is: bool)
        ensures
            is == self.spec_is(object, class),
    {
        let chain = self.iter_class(object);
        let mut i: usize = 0;
        while i < chain.len()
            invariant
                i <= chain.len(),
                chain@ == self.class_chain(object),
                forall|j: int| 0 <= j < i ==> chain@[j] != class,
            decreases chain.len() - i,
        {
            if chain[i] == class {
                return true;
            }
            i = i + 1;
        }
        false
    }
}

/// The names `names`, given innermost first, joined outermost first by dots.
pub open spec fn dotted(names: Seq<Seq<char>>) -> Seq<char>
    decreases names.len(),
{
    if names.len() == 0 {
        Seq::empty()
    } else if names.len() == 1 {
        names[0]
    } else {
        dotted(names.drop_first()) + seq!['.'] + names[0]
    }
}

impl Graph {
    /// The text of the object's name; `None` where the object or its entry in
    /// the name table is missing.
    pub open spec fn spec_name(&self, object: usize) -> Option<Seq<char>> {
        match self.spec_node(Some(object)) {
            Some(node) => match self.names.spec_get(node.spec_object().name.index as usize) {
                Some(text) => Some(text@),
                None => None,
            },
            None => None,
        }
    }

    /// The text of the object's name.
    pub fn name(&self, object: usize) -> (name: Option<&String>)
        ensures
            name is Some == self.spec_name(object) is Some,
            name is Some ==> name.unwrap()@ == self.spec_name(object).unwrap(),
    {
        match self.node(Some(object)) {
            Some(node) => self.names.get(node.object().name.index as usize),
            None => None,
        }
    }

    /// Whether every object of `chain` has a name.
    pub open spec fn all_named(&self, chain: Seq<usize>) -> bool {
        forall|i: int| 0 <= i < chain.len() ==> (#[trigger] self.spec_name(chain[i])) is Some
    }

    /// The names of the objects of `chain`.
    pub open spec fn names_of(&self, chain: Seq<usize>) -> Seq<Seq<char>> {
        Seq::new(chain.len(), |i: int| self.spec_name(chain[i]).unwrap())
    }

    /// The names of the object's outer objects and its own, outermost first,
    /// joined by dots; `None` where the object or one of the names is missing.
    pub open spec fn qualified_name_of(&self, object: usize) -> Option<Seq<char>> {
        if self.spec_node(Some(object)) is Some && self.all_named(self.outer_chain(object)) {
            Some(dotted(self.names_of(self.outer_chain(object))))
        } else {
            None
        }
    }

    /// The names of the object's outer objects and its own, outermost first,
    /// joined by dots.
    pub fn qualified_name(&self, object: usize) -> (name: Option<String>)
        ensures
            name is Some == self.qualified_name_of(object) is Some,
            name is Some ==> name.unwrap()@ == self.qualified_name_of(object).unwrap(),
    {
        if self.node(Some(object)).is_none() {
            return None;
        }
        let chain = self.iter_outer(object);
        let ghost names = self.names_of(chain@);
        let mut out = String::new();
        let mut i: usize = chain.len();
        assert(names.subrange(i as int, chain.len() as int) =~= Seq::<Seq<char>>::empty());
        while i > 0
            invariant
                i <= chain.len(),
                chain@ == self.outer_chain(object),
                names == self.names_of(chain@),
                forall|j: int| i <= j < chain.len() ==> (#[trigger] self.spec_name(chain@[j])) is Some,
                out@ == dotted(names.subrange(i as int, chain.len() as int)),
            decreases i,
        {
            i = i - 1;
            match self.name(chain[i]) {
                None => {
                    return None;
                },
                Some(text) => {
                    let ghost rest = names.subrange(i + 1, chain.len() as int);
                    let ghost all = names.subrange(i as int, chain.len() as int);
                    assert(all.drop_first() =~= rest);
                    assert(all[0] == text@);
                    if i + 1 < chain.len() {
                        out.append(".");
                        proof {
                            reveal_strlit(".");
                        }
                        assert("."@ =~= seq!['.']);
                    }
                    out.append(text.as_str());
                    assert(out@ =~= dotted(all));
                },
            }
        }
        assert(names.subrange(0, chain.len() as int) =~= names);
        Some(out)
    }

    /// The name of the object's class, a space and the object's qualified
    /// name; `None` where the object, its class or one of the names is
    /// missing.
    pub open spec fn full_name_of(&self, object: usize) -> Option<Seq<char>> {
        match self.spec_node(Some(object)) {
            Some(node) => match node.spec_object().class {
                Some(class) => match (self.spec_name(class), self.qualified_name_of(object)) {
                    (Some(class_name), Some(qualified)) => Some(class_name + seq![' '] + qualified),
                    _ => None,
                },
                None => None,
            },
            None => None,
        }
    }

    /// The name of the object's class, a space and the object's qualified
    /// name.
    pub fn full_name(&self, object: usize) -> (name: Option<String>)
        ensures
            name is Some == self.full_name_of(object) is Some,
            name is Some ==> name.unwrap()@ == self.full_name_of(object).unwrap(),
    {
        let node = match self.node(Some(object)) {
            Some(node) => node,
            None => {
                return None;
            },
        };
        let class = match node.object().class {
            Some(class) => class,
            None => {
                return None;
            },
        };
        let qualified = match self.qualified_name(object) {
            Some(qualified) => qualified,
            None => {
                return None;
            },
        };
        let class_name = match self.name(class) {
            Some(class_name) => class_name,
            None => {
                return None;
            },
        };
        let mut out = class_name.clone();
        out.push(' ');
        out.append(qualified.as_str());
        assert(out@ =~= class_name@ + seq![' '] + qualified@);
        Some(out)
    }

    /// The address of the object; zero where the table does not hold it.
    pub open spec fn spec_address_of(&self, object: Link) -> usize {
        match self.spec_node(object) {
            Some(node) => node.spec_object().address,
            None => 0,
        }
    }

    #[verifier::when_used_as_spec(spec_address_of)]
    pub fn address_of(&self, object: Link) -> (address: usize)
        ensures
            address == self.spec_address_of(object),
    {
        match self.node(object) {
            Some(node) => node.object().address,
            None => 0,
        }
    }

    /// Whether `object` is the first object of the table whose full name is
    /// `full_name`.
    pub open spec fn is_first_named(&self, object: usize, full_name: Seq<char>) -> bool {
        &&& self.full_name_of(object) == Some(full_name)
        &&& forall|earlier: usize|
            earlier < object ==> (#[trigger] self.full_name_of(earlier)) != Some(full_name)
    }

    /// The first object of the table whose full name is `full_name`.
    pub open spec fn first_named(&self, full_name: Seq<char>) -> Option<usize> {
        if exists|object: usize| self.is_first_named(object, full_name) {
            Some(choose|object: usize| self.is_first_named(object, full_name))
        } else {
            None
        }
    }

    /// The first object of the table whose full name is `full_name`.
    pub fn find(&self, full_name: &str) -> (found: Option<usize>)
        ensures
            found == self.first_named(full_name@),
            found is Some ==> self.is_first_named(found.unwrap(), full_name@),
            found is None ==> forall|object: usize|
                (#[trigger] self.full_name_of(object)) != Some(full_name@),
    {
        let mut i: usize = 0;
        while i < self.objects.data.len()
            invariant
                i <= self.objects.data.len(),
                forall|earlier: usize|
                    earlier < i ==> (#[trigger] self.full_name_of(earlier)) != Some(full_name@),
            decreases self.objects.data.len() - i,
        {
            match self.full_name(i) {
                Some(name) => {
                    if str_eq(name.as_str(), full_name) {
                        assert(self.is_first_named(i, full_name@));
                        let ghost chosen = choose|object: usize|
                            self.is_first_named(object, full_name@);
                        assert(chosen == i) by {
                            if chosen < i {
                                assert(self.full_name_of(chosen) != Some(full_name@));
                            }
                            if i < chosen {
                                assert(self.full_name_of(i) != Some(full_name@));
                            }
                        }
                        return Some(i);
                    }
                },
                None => {},
            }
            i = i + 1;
        }
        assert forall|object: usize| (#[trigger] self.full_name_of(object)) != Some(full_name@) by {
            if object >= self.objects.data.len() {
                assert(self.spec_node(Some(object)) is None);
            }
        }
        None
    }
}

impl Graph {
    /// Every node of a chain is in the table.
    pub proof fn lemma_chain_in_table(&self, start: Link, step: Step, limit: nat, at: int)
        requires
            0 <= at < self.chain(start, step, limit).len(),
        ensures
            self.chain(start, step, limit)[at] < self.objects.data.len(),
            self.spec_node(Some(self.chain(start, step, limit)[at])) is Some,
        decreases limit,
    {
        if at > 0 {
            self.lemma_chain_in_table(
                self.spec_follow(start, step),
                step,
                (limit - 1) as nat,
                at - 1,
            );
        }
    }

    /// A chain that does not end within as many nodes as the table has slots
    /// meets some node twice: a walk is cut only where the chain runs in a
    /// circle.
    pub proof fn lemma_cut_walk_repeats(&self, start: Link, step: Step)
        requires
            self.chain(start, step, self.objects.data.len() as nat + 1).len()
                > self.objects.data.len(),
        ensures
            !self.chain(start, step, self.objects.data.len() as nat + 1).no_duplicates(),
    {
        let slots = self.objects.data.len() as int;
        let chain = self.chain(start, step, slots as nat + 1);
        if chain.no_duplicates() {
            let places = Seq::new(chain.len(), |i: int| chain[i] as int);
            assert(places.no_duplicates());
            places.unique_seq_to_set();
            vstd::set_lib::lemma_int_range(0, slots);
            assert(places.to_set().subset_of(vstd::set_lib::set_int_range(0, slots))) by {
                assert forall|place: int| places.to_set().contains(place) implies 0 <= place
                    < slots by {
                    let i = choose|i: int| 0 <= i < places.len() && places[i] == place;
                    self.lemma_chain_in_table(start, step, slots as nat + 1, i);
                }
            }
            vstd::set_lib::lemma_len_subset(
                places.to_set(),
                vstd::set_lib::set_int_range(0, slots),
            );
        }
    }
}

} // verus!
