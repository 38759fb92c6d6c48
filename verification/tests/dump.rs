use blps::dump::bitfield::Bitfields;
use blps::dump::bounded::{BoundedString, CAPACITY};
use blps::dump::enums::{
    describe_enumeration, find_shared_prefix, join_prefix, normalize, split_components,
    strip_variant, write_enumeration,
};
use blps::dump::error::Error;
use blps::dump::helper;
use blps::dump::layout::{Layout, Slot, Span, SpanKind};
use blps::dump::method::{parameters_for, ParameterKind};
use blps::dump::order::{sort_fields, FieldKey};
use blps::dump::property_info;
use blps::dump::property_info::PropertyInfo;
use blps::dump::structure::{
    find_static_classes, get_fields, reconstruct, write_structure, StaticClasses,
};
use blps::dump::{sdk, write_class, write_constant, write_object};
use blps::game::{
    Array, ArrayProperty, BoolProperty, ByteProperty, Class, ClassProperty, Const,
    DelegateProperty, Enum, Field, Function, Graph, InterfaceProperty, Link, MapProperty,
    NameIndex, Node, Object, ObjectProperty, Property, ScriptStruct, Step, StructProperty,
    NATIVE, OUT_PARAM, PARAM, RETURN_PARAM,
};
use blps::genial::{Scope, Writer};
use blps::hook::cached_function_indexes;
use blps::hook::cached_function_indexes::CachedFunctionIndexes;

const CLASSES: [&str; 18] = [
    "Class",
    "Const",
    "Enum",
    "Function",
    "ScriptStruct",
    "ArrayProperty",
    "BoolProperty",
    "ByteProperty",
    "ClassProperty",
    "DelegateProperty",
    "FloatProperty",
    "IntProperty",
    "InterfaceProperty",
    "MapProperty",
    "NameProperty",
    "ObjectProperty",
    "StrProperty",
    "StructProperty",
];

struct World {
    graph: Graph,
    core: usize,
}

fn address(index: usize) -> usize {
    0x1000 + 0x100 * index
}

impl World {
    /// The package `Core` in slot 0 and the classes of the kinds behind it.
    fn new() -> World {
        let mut world = World {
            graph: Graph { names: Array { data: vec![] }, objects: Array { data: vec![] } },
            core: 0,
        };
        let core = world.object("Core", None, None);
        world.core = world.add(Node::Object(core));
        for class in CLASSES {
            world.class(class);
        }
        world
    }

    fn name(&mut self, text: &str) -> NameIndex {
        let names = &mut self.graph.names.data;
        let found = names.iter().position(|n| n.as_deref() == Some(text));
        let index = found.unwrap_or_else(|| {
            names.push(Some(text.to_string()));
            names.len() - 1
        });
        NameIndex { index: index as u32, number: 0 }
    }

    fn next(&self) -> usize {
        self.graph.objects.data.len()
    }

    fn object(&mut self, name: &str, class: Link, outer: Link) -> Object {
        let index = self.next();
        Object { address: address(index), index: index as u32, outer, name: self.name(name), class }
    }

    fn field(&mut self, name: &str, class: Link, outer: Link, next: Link) -> Field {
        Field { object: self.object(name, class, outer), next }
    }

    fn add(&mut self, node: Node) -> usize {
        self.graph.objects.data.push(Some(node));
        self.next() - 1
    }

    fn find(&self, name: &str) -> usize {
        self.graph.find(name).unwrap()
    }

    fn kind(&self, class: &str) -> usize {
        self.find(&format!("Class Core.{}", class))
    }

    fn class(&mut self, name: &str) -> usize {
        let field = self.field(name, Some(1), Some(self.core), None);
        self.add(Node::Class(Class {
            struct_base: blps::game::Struct {
                field,
                super_field: None,
                children: None,
                property_size: 0,
            },
        }))
    }

    fn property(
        &mut self,
        kind: &str,
        name: &str,
        outer: Link,
        next: Link,
        offset: u32,
        element_size: u32,
    ) -> Property {
        let class = self.kind(kind);
        Property {
            field: self.field(name, Some(class), outer, next),
            array_dim: 1,
            element_size,
            property_flags: 0,
            offset,
        }
    }

    fn integer(&mut self, name: &str, outer: Link, next: Link, offset: u32) -> usize {
        let p = self.property("IntProperty", name, outer, next, offset, 4);
        self.add(Node::Property(p))
    }

    fn float(&mut self, name: &str, outer: Link, next: Link, offset: u32) -> usize {
        let p = self.property("FloatProperty", name, outer, next, offset, 4);
        self.add(Node::Property(p))
    }

    fn boolean(&mut self, name: &str, outer: Link, next: Link, offset: u32, bitmask: u32) -> usize {
        let property = self.property("BoolProperty", name, outer, next, offset, 4);
        self.add(Node::BoolProperty(BoolProperty { property, bitmask }))
    }

    fn structure(&mut self, name: &str, outer: Link, base: Link, children: Link, size: u16) -> usize {
        let class = self.kind("ScriptStruct");
        let field = self.field(name, Some(class), outer, None);
        self.add(Node::ScriptStruct(ScriptStruct {
            struct_base: blps::game::Struct {
                field,
                super_field: base,
                children,
                property_size: size,
            },
        }))
    }

    fn enumeration(&mut self, name: &str, outer: Link, variants: &[&str]) -> usize {
        let class = self.kind("Enum");
        let field = self.field(name, Some(class), outer, None);
        let variants = variants.iter().map(|v| self.name(v)).collect();
        self.add(Node::Enum(Enum { field, variants }))
    }

    fn package(&mut self, name: &str, outer: Link) -> usize {
        let object = self.object(name, None, outer);
        self.add(Node::Object(object))
    }

    fn classes(&self) -> StaticClasses {
        find_static_classes(&self.graph).unwrap()
    }
}

fn scope() -> Scope {
    Scope::new(Writer::new())
}

// --- navigating the graph ---

#[test]
fn names_are_joined_from_the_outermost_object() {
    let mut world = World::new();
    let engine = world.package("Engine", None);
    let actor = world.package("Actor", Some(engine));
    let stats = world.structure("Stats", Some(actor), None, None, 0);
    assert_eq!(world.graph.name(stats).map(|n| n.as_str()), Some("Stats"));
    assert_eq!(world.graph.qualified_name(stats).as_deref(), Some("Engine.Actor.Stats"));
    assert_eq!(world.graph.full_name(stats).as_deref(), Some("ScriptStruct Engine.Actor.Stats"));
    assert_eq!(world.graph.qualified_name(engine).as_deref(), Some("Engine"));
    assert_eq!(world.graph.iter_outer(stats), vec![stats, actor, engine]);
    assert_eq!(world.graph.full_name(engine), None);
}

#[test]
fn a_link_to_no_node_is_followed_like_null() {
    let mut world = World::new();
    let far = world.next() + 40;
    let lost = world.package("Lost", Some(far));
    assert_eq!(world.graph.iter_outer(lost), vec![lost]);
    assert_eq!(world.graph.qualified_name(lost).as_deref(), Some("Lost"));
    assert_eq!(world.graph.qualified_name(far), None);
    assert_eq!(world.graph.name(far), None);
    assert!(world.graph.node(Some(far)).is_none());
    assert!(world.graph.node(None).is_none());
    assert_eq!(world.graph.address_of(Some(far)), 0);
    assert_eq!(world.graph.address_of(Some(lost)), address(lost));
    assert_eq!(world.graph.follow(Some(lost), Step::Outer), Some(far));
    assert_eq!(world.graph.follow(Some(far), Step::Outer), None);
}

#[test]
fn unused_slots_are_skipped() {
    let mut world = World::new();
    world.graph.objects.data.push(None);
    let after = world.package("After", None);
    let slots = world.graph.objects.iter();
    assert_eq!(slots.len(), world.graph.objects.data.len() - 1);
    assert!(slots.contains(&after));
    assert!(!slots.contains(&(after - 1)));
    assert!(world.graph.objects.get(after - 1).is_none());
    assert!(world.graph.objects.get(after).is_some());
    assert!(world.graph.objects.get(after + 1).is_none());
}

#[test]
fn a_missing_name_hides_the_names_that_hold_it() {
    let mut world = World::new();
    let engine = world.package("Engine", None);
    let mut nameless = world.object("x", None, Some(engine));
    nameless.name = NameIndex { index: 9999, number: 0 };
    let nameless = world.add(Node::Object(nameless));
    let inner = world.structure("Inner", Some(nameless), None, None, 0);
    assert_eq!(world.graph.name(nameless), None);
    assert_eq!(world.graph.qualified_name(inner), None);
    assert_eq!(world.graph.full_name(inner), None);
    assert!(matches!(
        helper::get_name(&world.graph, nameless),
        Err(helper::Error::NullName(a)) if a == address(nameless)
    ));
    assert!(matches!(
        helper::get_full_name(&world.graph, inner),
        Err(helper::Error::NullName(a)) if a == address(inner)
    ));
}

#[test]
fn kind_is_told_by_the_chain_of_classes() {
    let mut world = World::new();
    let property = world.kind("ObjectProperty");
    // A class of properties that extends the class of object properties.
    let field = world.field("WeakProperty", Some(1), Some(world.core), None);
    let weak = world.add(Node::Class(Class {
        struct_base: blps::game::Struct {
            field,
            super_field: Some(property),
            children: None,
            property_size: 0,
        },
    }));
    let field = world.field("Target", Some(weak), None, None);
    let thing = world.add(Node::Field(field));
    assert!(world.graph.is(thing, weak));
    assert!(world.graph.is(thing, property));
    assert!(!world.graph.is(thing, world.kind("IntProperty")));
    assert!(!world.graph.is(thing, thing));
    assert_eq!(world.graph.iter_class(thing), vec![weak, property]);
    assert!(!world.graph.is(world.next() + 1, property));
}

#[test]
fn a_chain_that_runs_in_a_circle_ends() {
    let mut world = World::new();
    let first = world.next();
    let second = first + 1;
    let a = world.object("A", None, Some(second));
    world.add(Node::Object(a));
    let b = world.object("B", None, Some(first));
    world.add(Node::Object(b));
    let chain = world.graph.iter_outer(first);
    assert_eq!(chain.len(), world.graph.objects.data.len());
    assert_eq!(&chain[..4], &[first, second, first, second]);
}

#[test]
fn children_come_in_the_order_of_their_declaration() {
    let mut world = World::new();
    let at = world.next();
    let c = world.integer("C", None, None, 8);
    let b = world.integer("B", None, Some(c), 0);
    let a = world.integer("A", None, Some(b), 4);
    let s = world.structure("S", None, None, Some(a), 12);
    assert_eq!(at, c);
    assert_eq!(world.graph.iter_children(s), vec![a, b, c]);
    assert_eq!(world.graph.iter_children(a), Vec::<usize>::new());
}

#[test]
fn find_takes_the_first_object_of_that_full_name() {
    let mut world = World::new();
    let first = world.structure("Twin", Some(world.core), None, None, 0);
    let second = world.structure("Twin", Some(world.core), None, None, 0);
    assert_ne!(first, second);
    assert_eq!(world.graph.find("ScriptStruct Core.Twin"), Some(first));
    assert_eq!(world.graph.find("ScriptStruct Core.Twi"), None);
    assert_eq!(world.graph.find("Class Core.Class"), Some(1));
    assert_eq!(helper::find(&world.graph, "Class Core.Enum").unwrap(), world.kind("Enum"));
    assert!(matches!(
        helper::find(&world.graph, "Class Core.Nothing"),
        Err(helper::Error::StaticClassNotFound("Class Core.Nothing"))
    ));
}

#[test]
fn static_classes_are_found_by_name() {
    let world = World::new();
    let classes = world.classes();
    assert_eq!(classes.class, 1);
    assert_eq!(classes.constant, world.kind("Const"));
    assert_eq!(classes.enumeration, world.kind("Enum"));
    assert_eq!(classes.function, world.kind("Function"));
    assert_eq!(classes.structure, world.kind("ScriptStruct"));
    assert_eq!(classes.properties.array_property, world.kind("ArrayProperty"));
    assert_eq!(classes.properties.bool_property, world.kind("BoolProperty"));
    assert_eq!(classes.properties.struct_property, world.kind("StructProperty"));
    assert_eq!(classes.properties.str_property, world.kind("StrProperty"));
}

#[test]
fn a_missing_static_class_is_named() {
    let mut world = World::new();
    let map = world.kind("MapProperty");
    world.graph.objects.data[map] = None;
    assert!(matches!(
        find_static_classes(&world.graph),
        Err(Error::PropertyInfo(property_info::Error::Helper(
            helper::Error::StaticClassNotFound("Class Core.MapProperty")
        )))
    ));
    let function = world.kind("Function");
    world.graph.objects.data[function] = None;
    assert!(matches!(
        find_static_classes(&world.graph),
        Err(Error::Helper(helper::Error::StaticClassNotFound("Class Core.Function")))
    ));
    let mut sink = String::from("kept");
    assert!(sdk(&world.graph, &mut sink).is_err());
    assert_eq!(sink, "kept");
}

// --- names that unrelated types share ---

#[test]
fn two_enums_of_one_listed_name_get_two_names() {
    let mut world = World::new();
    let engine = world.package("Engine", None);
    let pawn = world.package("Pawn", Some(engine));
    let game = world.package("WillowGame", None);
    let vehicle = world.package("Vehicle", Some(game));
    let first = world.enumeration("EFlightMode", Some(pawn), &["FM_Walk"]);
    let second = world.enumeration("EFlightMode", Some(vehicle), &["FM_Fly"]);
    let first = helper::resolve_duplicate(&world.graph, first).unwrap();
    let second = helper::resolve_duplicate(&world.graph, second).unwrap();
    assert_eq!(first, "Engine_Pawn_EFlightMode");
    assert_eq!(second, "WillowGame_Vehicle_EFlightMode");
    assert_ne!(first, second);
}

#[test]
fn every_listed_name_is_resolved_and_no_other() {
    let mut world = World::new();
    let a = world.package("A", None);
    let b = world.package("B", Some(a));
    for name in [
        "ECompareObjectOutputLinkIds",
        "EFlightMode",
        "CheckpointRecord",
        "TerrainWeightedMaterial",
        "ProjectileBehaviorSequenceStateData",
    ] {
        assert!(helper::is_known_duplicate(name));
        let object = world.structure(name, Some(b), None, None, 0);
        assert_eq!(
            helper::resolve_duplicate(&world.graph, object).unwrap(),
            format!("A_B_{}", name)
        );
    }
    assert!(!helper::is_known_duplicate("EFlightModes"));
    assert!(!helper::is_known_duplicate("eflightmode"));
    let plain = world.structure("Vector", Some(b), None, None, 0);
    assert_eq!(helper::resolve_duplicate(&world.graph, plain).unwrap(), "Vector");
}

#[test]
fn a_listed_name_needs_two_outer_objects() {
    let mut world = World::new();
    let a = world.package("A", None);
    let shallow = world.enumeration("EFlightMode", Some(a), &["X"]);
    let bare = world.enumeration("EFlightMode", None, &["X"]);
    assert!(matches!(
        helper::resolve_duplicate(&world.graph, shallow),
        Err(helper::Error::ModuleSubmodule(at)) if at == address(shallow)
    ));
    assert!(matches!(
        helper::resolve_duplicate(&world.graph, bare),
        Err(helper::Error::ModuleSubmodule(at)) if at == address(bare)
    ));
    assert!(matches!(
        helper::resolve_duplicate(&world.graph, world.next() + 3),
        Err(helper::Error::NullName(0))
    ));
}

// --- classifying properties ---

fn classify(world: &World, property: usize) -> Result<PropertyInfo, property_info::Error> {
    PropertyInfo::try_from(&world.graph, &world.classes().properties, property)
}

fn classified(world: &World, property: usize) -> (u32, String, String) {
    let info = classify(world, property).unwrap();
    (info.size, info.field_type.as_str().to_string(), info.comment.as_str().to_string())
}

fn simple(size: u32, typ: &str) -> (u32, String, String) {
    (size, typ.to_string(), String::new())
}

#[test]
fn plain_kinds_have_their_runtime_sizes() {
    let mut world = World::new();
    let b = world.boolean("bOn", None, None, 0, 1);
    assert_eq!(classified(&world, b), simple(4, "u32"));
    let i = world.integer("Count", None, None, 0);
    assert_eq!(classified(&world, i), simple(4, "i32"));
    let f = world.float("Scale", None, None, 0);
    assert_eq!(classified(&world, f), simple(4, "f32"));
    let p = world.property("NameProperty", "Tag", None, None, 0, 8);
    let n = world.add(Node::Property(p));
    assert_eq!(classified(&world, n), simple(8, "NameIndex"));
    let p = world.property("StrProperty", "Title", None, None, 0, 12);
    let s = world.add(Node::Property(p));
    assert_eq!(classified(&world, s), simple(12, "FString"));
    let property = world.property("DelegateProperty", "OnHit", None, None, 0, 12);
    let d = world.add(Node::DelegateProperty(DelegateProperty { property }));
    assert_eq!(classified(&world, d), simple(12, "ScriptDelegate"));
}

#[test]
fn byte_is_named_after_its_enum() {
    let mut world = World::new();
    let a = world.package("A", None);
    let b = world.package("B", Some(a));
    let plain = world.enumeration("EColor", Some(b), &["Red"]);
    let listed = world.enumeration("EFlightMode", Some(b), &["Walk"]);
    let property = world.property("ByteProperty", "Raw", None, None, 0, 1);
    let raw = world.add(Node::ByteProperty(ByteProperty { property, enumeration: None }));
    let property = world.property("ByteProperty", "Color", None, None, 0, 1);
    let color = world.add(Node::ByteProperty(ByteProperty { property, enumeration: Some(plain) }));
    let property = world.property("ByteProperty", "Mode", None, None, 0, 1);
    let mode = world.add(Node::ByteProperty(ByteProperty { property, enumeration: Some(listed) }));
    assert_eq!(classified(&world, raw), simple(1, "u8"));
    assert_eq!(classified(&world, color), simple(1, "EColor"));
    assert_eq!(classified(&world, mode), simple(1, "A_B_EFlightMode"));
}

#[test]
fn references_are_pointers_to_the_named_class() {
    let mut world = World::new();
    let actor = world.class("Actor");
    let property = world.property("ObjectProperty", "Owner", None, None, 0, 4);
    let owner = world.add(Node::ObjectProperty(ObjectProperty {
        property,
        property_class: Some(actor),
    }));
    assert_eq!(classified(&world, owner), simple(4, "*mut Actor"));

    let property = world.property("ClassProperty", "Kind", None, None, 0, 4);
    let kind = world.add(Node::ClassProperty(ClassProperty {
        object_property: ObjectProperty { property, property_class: Some(1) },
        meta_class: Some(actor),
    }));
    assert_eq!(classified(&world, kind), simple(4, "*mut Actor"));

    let property = world.property("InterfaceProperty", "Usable", None, None, 0, 4);
    let usable = world.add(Node::InterfaceProperty(InterfaceProperty {
        property,
        interface_class: Some(actor),
    }));
    assert_eq!(classified(&world, usable), simple(4, "*mut Actor"));
}

#[test]
fn struct_reference_takes_the_declared_size_of_the_struct() {
    let mut world = World::new();
    let vector = world.structure("Vector", Some(world.core), None, None, 12);
    let property = world.property("StructProperty", "Location", None, None, 0, 12);
    let location = world.add(Node::StructProperty(StructProperty {
        property,
        inner_struct: Some(vector),
    }));
    assert_eq!(classified(&world, location), simple(12, "Vector"));
    assert_eq!(world.graph.declared_size(Some(vector)), 12);
    assert_eq!(world.graph.declared_size(Some(location)), 0);
    assert_eq!(world.graph.declared_size(None), 0);

    let property = world.property("StructProperty", "Bigger", None, None, 0, 16);
    let bigger = world.add(Node::StructProperty(StructProperty {
        property,
        inner_struct: Some(vector),
    }));
    assert_eq!(classified(&world, bigger), simple(12, "Vector"));
    let holder = world.structure("Holder", Some(world.core), None, Some(bigger), 16);
    assert!(matches!(
        reconstruct(&world.graph, &world.classes(), holder),
        Err(Error::PropertySizeMismatch(at, 4, _)) if at == address(bigger)
    ));
}

#[test]
fn array_nests_the_type_of_its_items() {
    let mut world = World::new();
    let actor = world.class("Actor");
    let item = world.integer("Item", None, None, 0);
    let property = world.property("ArrayProperty", "Counts", None, None, 0, 12);
    let counts = world.add(Node::ArrayProperty(ArrayProperty { property, inner: Some(item) }));
    assert_eq!(classified(&world, counts), simple(12, "Array<i32>"));

    let property = world.property("ArrayProperty", "Grid", None, None, 0, 12);
    let grid = world.add(Node::ArrayProperty(ArrayProperty { property, inner: Some(counts) }));
    assert_eq!(classified(&world, grid), simple(12, "Array<Array<i32>>"));

    let key = world.integer("Key", None, None, 0);
    let property = world.property("MapProperty", "Lookup", None, None, 0, 60);
    let lookup = world.add(Node::MapProperty(MapProperty {
        property,
        key: Some(key),
        value: Some(item),
    }));
    let property = world.property("ArrayProperty", "Lookups", None, None, 0, 12);
    let lookups = world.add(Node::ArrayProperty(ArrayProperty { property, inner: Some(lookup) }));
    assert_eq!(
        classified(&world, lookups),
        (12, "Array<[u8; 60]>".to_string(), "Map<i32, i32>".to_string())
    );
    let property = world.property("ObjectProperty", "Owner", None, None, 0, 4);
    let owner = world.add(Node::ObjectProperty(ObjectProperty {
        property,
        property_class: Some(actor),
    }));
    let property = world.property("ArrayProperty", "Owners", None, None, 0, 12);
    let owners = world.add(Node::ArrayProperty(ArrayProperty { property, inner: Some(owner) }));
    assert_eq!(classified(&world, owners), simple(12, "Array<*mut Actor>"));
}

#[test]
fn map_keeps_its_types_in_the_comment_only() {
    let mut world = World::new();
    let key = world.integer("Key", None, None, 0);
    let p = world.property("StrProperty", "Value", None, None, 0, 12);
    let value = world.add(Node::Property(p));
    let property = world.property("MapProperty", "Titles", None, None, 0, 60);
    let titles = world.add(Node::MapProperty(MapProperty {
        property,
        key: Some(key),
        value: Some(value),
    }));
    assert_eq!(
        classified(&world, titles),
        (60, "[u8; 60]".to_string(), "Map<i32, FString>".to_string())
    );
    let info = classify(&world, titles).unwrap();
    assert_eq!(info.into_type().unwrap().as_str(), "[u8; 60] /* Map<i32, FString> */");
    let info = classify(&world, titles).unwrap();
    assert_eq!(
        info.into_array_type(3).unwrap().as_str(),
        "[[u8; 60] /* Map<i32, FString> */; 3]"
    );
}

#[test]
fn a_required_reference_that_is_null_is_an_error() {
    let mut world = World::new();
    let key = world.integer("Key", None, None, 0);
    let property = world.property("ArrayProperty", "A", None, None, 0, 12);
    let array = world.add(Node::ArrayProperty(ArrayProperty { property, inner: None }));
    let property = world.property("MapProperty", "NoKey", None, None, 0, 60);
    let no_key = world.add(Node::MapProperty(MapProperty { property, key: None, value: Some(key) }));
    let property = world.property("MapProperty", "NoValue", None, None, 0, 60);
    let no_value =
        world.add(Node::MapProperty(MapProperty { property, key: Some(key), value: None }));
    let property = world.property("InterfaceProperty", "I", None, None, 0, 8);
    let interface = world.add(Node::InterfaceProperty(InterfaceProperty {
        property,
        interface_class: None,
    }));
    let property = world.property("ClassProperty", "C", None, None, 0, 4);
    let class = world.add(Node::ClassProperty(ClassProperty {
        object_property: ObjectProperty { property, property_class: Some(1) },
        meta_class: None,
    }));
    let property = world.property("ObjectProperty", "O", None, None, 0, 4);
    let object =
        world.add(Node::ObjectProperty(ObjectProperty { property, property_class: None }));
    let property = world.property("StructProperty", "S", None, None, 0, 4);
    let structure =
        world.add(Node::StructProperty(StructProperty { property, inner_struct: None }));

    assert!(matches!(classify(&world, array), Err(property_info::Error::NullArrayInner(a)) if a == address(array)));
    assert!(matches!(classify(&world, no_key), Err(property_info::Error::NullMapKeyProperty(a)) if a == address(no_key)));
    assert!(
        matches!(classify(&world, no_value), Err(property_info::Error::NullMapValueProperty(a)) if a == address(no_value))
    );
    assert!(
        matches!(classify(&world, interface), Err(property_info::Error::NullInterfaceClass(a)) if a == address(interface))
    );
    assert!(matches!(classify(&world, class), Err(property_info::Error::NullMetaClass(a)) if a == address(class)));
    assert!(matches!(classify(&world, object), Err(property_info::Error::NullPropertyClass(a)) if a == address(object)));
    assert!(
        matches!(classify(&world, structure), Err(property_info::Error::NullPropertyStruct(a)) if a == address(structure))
    );
}

#[test]
fn an_unknown_kind_is_an_error() {
    let mut world = World::new();
    let odd = world.class("OddProperty");
    let field = world.field("Odd", Some(odd), None, None);
    let property = world.add(Node::Property(Property {
        field,
        array_dim: 1,
        element_size: 4,
        property_flags: 0,
        offset: 0,
    }));
    assert!(matches!(
        classify(&world, property),
        Err(property_info::Error::UnknownProperty(a)) if a == address(property)
    ));
    assert!(matches!(
        classify(&world, world.next() + 5),
        Err(property_info::Error::UnknownProperty(0))
    ));
}

#[test]
fn an_array_of_itself_is_an_error() {
    let mut world = World::new();
    let at = world.next();
    let property = world.property("ArrayProperty", "Loop", None, None, 0, 12);
    let array = world.add(Node::ArrayProperty(ArrayProperty { property, inner: Some(at) }));
    assert_eq!(array, at);
    assert!(matches!(
        classify(&world, array),
        Err(property_info::Error::UnknownProperty(a)) if a == address(array)
    ));
}

#[test]
fn a_type_that_does_not_fit_is_an_error() {
    let mut world = World::new();
    let long = "L".repeat(125);
    let fits = "F".repeat(123);
    let actor = world.class(&long);
    let other = world.class(&fits);
    let property = world.property("ObjectProperty", "Owner", None, None, 0, 4);
    let owner = world.add(Node::ObjectProperty(ObjectProperty {
        property,
        property_class: Some(actor),
    }));
    let property = world.property("ObjectProperty", "Other", None, None, 0, 4);
    let okay = world.add(Node::ObjectProperty(ObjectProperty {
        property,
        property_class: Some(other),
    }));
    assert!(matches!(classify(&world, owner), Err(property_info::Error::StringCapacity)));
    let (size, typ, comment) = classified(&world, okay);
    assert_eq!((size, typ.len(), comment.as_str()), (4, 128, ""));
    // Three bytes for each of these characters: 43 of them are more than 128 bytes.
    let wide = world.structure(&"\u{20ac}".repeat(43), Some(world.core), None, None, 4);
    let property = world.property("StructProperty", "Wide", None, None, 0, 4);
    let wide = world.add(Node::StructProperty(StructProperty {
        property,
        inner_struct: Some(wide),
    }));
    assert!(matches!(classify(&world, wide), Err(property_info::Error::StringCapacity)));
    let info = classify(&world, okay).unwrap();
    assert!(matches!(info.into_array_type(2), Err(property_info::Error::StringCapacity)));
}

#[test]
fn a_reference_without_a_name_is_an_error_of_the_name() {
    let mut world = World::new();
    let mut nameless = world.field("x", Some(1), Some(world.core), None);
    nameless.object.name = NameIndex { index: 4000, number: 0 };
    let nameless = world.add(Node::Field(nameless));
    let property = world.property("ClassProperty", "Kind", None, None, 0, 4);
    let kind = world.add(Node::ClassProperty(ClassProperty {
        object_property: ObjectProperty { property, property_class: Some(1) },
        meta_class: Some(nameless),
    }));
    assert!(matches!(
        classify(&world, kind),
        Err(property_info::Error::Helper(helper::Error::NullName(at))) if at == address(nameless)
    ));
    let s = world.structure("Holder", Some(world.core), None, Some(kind), 4);
    assert!(matches!(
        reconstruct(&world.graph, &world.classes(), s),
        Err(Error::PropertyInfo(property_info::Error::Helper(helper::Error::NullName(_))))
    ));
    let unnamed = world.structure("Unnamed", Some(world.core), None, None, 0);
    if let Some(Node::ScriptStruct(s)) = world.graph.objects.data[unnamed].as_mut() {
        s.struct_base.field.object.name = NameIndex { index: 4000, number: 0 };
    }
    assert!(matches!(
        reconstruct(&world.graph, &world.classes(), unnamed),
        Err(Error::Helper(helper::Error::NullName(at))) if at == address(unnamed)
    ));
}

#[test]
fn a_new_classification_has_no_comment() {
    let typ = BoundedString::concat(&vec!["Vec", "tor"]).unwrap();
    let info = PropertyInfo::new(12, typ);
    assert_eq!(info.size, 12);
    assert_eq!(info.field_type.as_str(), "Vector");
    assert_eq!(info.comment.as_str(), "");
    assert!(info.comment.is_empty());
    assert!(!info.field_type.is_empty());
    assert_eq!(info.into_type().unwrap().as_str(), "Vector");
}

#[test]
fn bounded_text_holds_up_to_its_capacity() {
    assert_eq!(CAPACITY, 128);
    assert!(BoundedString::new().is_empty());
    assert_eq!(BoundedString::concat(&vec![]).unwrap().as_str(), "");
    let full = "x".repeat(128);
    assert_eq!(BoundedString::concat(&vec![full.as_str()]).unwrap().as_str(), full);
    assert!(BoundedString::concat(&vec![full.as_str(), ""]).is_some());
    assert!(BoundedString::concat(&vec![full.as_str(), "y"]).is_none());
    assert!(BoundedString::concat(&vec!["y", full.as_str()]).is_none());
    // Two bytes for each of these characters.
    let wide = "\u{e9}".repeat(64);
    assert_eq!(wide.chars().count(), 64);
    assert_eq!(BoundedString::concat(&vec![wide.as_str()]).unwrap().as_str(), wide);
    assert!(BoundedString::concat(&vec![wide.as_str(), "a"]).is_none());
    // Four bytes for each of these characters.
    let wider = "\u{1f600}".repeat(32);
    assert!(BoundedString::concat(&vec![wider.as_str()]).is_some());
    assert!(BoundedString::concat(&vec![wider.as_str(), "\u{e9}"]).is_none());
}

// --- the order of the fields ---

fn key(node: usize, offset: u32, boolean: bool, bitmask: u32) -> FieldKey {
    FieldKey { node, offset, boolean, bitmask }
}

fn nodes(keys: &[FieldKey]) -> Vec<usize> {
    keys.iter().map(|k| k.node).collect()
}

#[test]
fn fields_go_by_offset_and_booleans_by_mask() {
    let keys = vec![
        key(0, 8, false, 0),
        key(1, 4, true, 4),
        key(2, 0, false, 0),
        key(3, 4, true, 1),
        key(4, 4, true, 2),
    ];
    assert_eq!(nodes(&sort_fields(&keys)), vec![2, 3, 4, 1, 0]);
}

#[test]
fn fields_that_compare_equal_keep_their_order() {
    let keys = vec![
        key(0, 4, false, 9),
        key(1, 4, false, 1),
        key(2, 4, true, 1),
        key(3, 0, true, 7),
        key(4, 0, true, 7),
    ];
    assert_eq!(nodes(&sort_fields(&keys)), vec![3, 4, 0, 1, 2]);
    assert_eq!(nodes(&sort_fields(&vec![])), Vec::<usize>::new());
}

#[test]
fn zero_sized_and_nested_definitions_are_no_fields() {
    let mut world = World::new();
    let last = world.integer("Late", None, None, 8);
    let nested = world.enumeration("ENested", None, &["A"]);
    if let Some(Node::Enum(e)) = world.graph.objects.data[nested].as_mut() {
        e.field.next = Some(last);
    }
    let marker = world.property("IntProperty", "Marker", None, Some(nested), 4, 0);
    let marker = world.add(Node::Property(marker));
    let inherited = world.integer("Inherited", None, Some(marker), 0);
    let early = world.integer("Early", None, Some(inherited), 4);
    let s = world.structure("S", None, None, Some(early), 12);
    let all = get_fields(&world.graph, &world.classes(), s, 0);
    assert_eq!(nodes(&all), vec![inherited, early, last]);
    let own = get_fields(&world.graph, &world.classes(), s, 4);
    assert_eq!(nodes(&own), vec![early, last]);
}

// --- laying out ---

fn slot(offset: u32, size: u32, dim: u32, boolean: bool, name: &str, typ: &str) -> Slot {
    Slot {
        offset,
        element_size: size,
        array_dim: dim,
        boolean,
        name: name.to_string(),
        typ: typ.to_string(),
    }
}

fn spans(spans: &[Span]) -> Vec<(SpanKind, u64, u64, &str, &str)> {
    spans.iter().map(|s| (s.kind, s.offset, s.size, s.name.as_str(), s.typ.as_str())).collect()
}

fn assert_covers(spans: &[Span], from: u64, to: u64) {
    let mut cursor = from;
    for span in spans {
        assert_eq!(span.offset, cursor, "a gap or an overlap before {:?}", span);
        cursor += span.size;
    }
    assert_eq!(cursor, to);
}

#[test]
fn two_fields_and_trailing_padding() {
    let mut world = World::new();
    let mana = world.float("Mana", None, None, 4);
    let health = world.integer("Health", None, Some(mana), 0);
    let stats = world.structure("Stats", Some(world.core), None, Some(health), 12);
    let d = reconstruct(&world.graph, &world.classes(), stats).unwrap();
    assert_eq!(d.name, "Stats");
    assert_eq!(d.size, 12);
    assert_eq!(d.base_name, None);
    assert_eq!(
        spans(&d.spans),
        vec![
            (SpanKind::Field, 0x0, 0x4, "pub Health", "i32"),
            (SpanKind::Field, 0x4, 0x4, "pub Mana", "f32"),
            (SpanKind::Padding, 0x8, 0x4, "pad_at_0x8", "[u8; 0x4]"),
        ]
    );
    assert_covers(&d.spans, 0, 12);
    assert!(d.bitfields.bitfields.is_empty());

    let mut sink = String::new();
    write_structure(&scope(), &mut sink, &world.graph, &world.classes(), stats).unwrap();
    assert_eq!(
        sink,
        "// ScriptStruct Core.Stats, 0xc\n#[repr(C)]\npub struct Stats {\n    \n    // 0x0(0x4)\n    pub Health: i32,\n    \n    // 0x4(0x4)\n    pub Mana: f32,\n    \n    // 0x8(0x4)\n    pad_at_0x8: [u8; 0x4],\n}\n\n"
    );
}

#[test]
fn three_booleans_share_one_value() {
    let mut world = World::new();
    let c = world.boolean("bThird", None, None, 0x10, 4);
    let a = world.boolean("bFirst", None, Some(c), 0x10, 1);
    let b = world.boolean("bSecond", None, Some(a), 0x10, 2);
    let flags = world.structure("Flags", Some(world.core), None, Some(b), 0x14);
    let d = reconstruct(&world.graph, &world.classes(), flags).unwrap();
    assert_eq!(
        spans(&d.spans),
        vec![
            (SpanKind::Padding, 0x0, 0x10, "pad_at_0x0", "[u8; 0x10]"),
            (SpanKind::Bitfield, 0x10, 0x4, "pub bitfield", "u32"),
        ]
    );
    assert_covers(&d.spans, 0, 0x14);
    assert_eq!(d.bitfields.bitfields.len(), 1);
    assert_eq!(d.bitfields.bitfields[0].offset, 0x10);
    assert_eq!(d.bitfields.bitfields[0].fields, vec!["bFirst", "bSecond", "bThird"]);

    let mut sink = String::new();
    write_structure(&scope(), &mut sink, &world.graph, &world.classes(), flags).unwrap();
    for (bit, name) in ["first", "second", "third"].iter().enumerate() {
        assert!(sink.contains(&format!(
            "    pub fn is_{}(&self, ) -> bool {{\n        is_bit_set(self.bitfield, {})\n    }}\n",
            name, bit
        )));
        assert!(sink.contains(&format!(
            "    pub fn set_{}(&mut self, value: bool, ) {{\n        set_bit(&mut self.bitfield, {}, value);\n    }}\n",
            name, bit
        )));
    }
    assert!(!sink.contains("pad_at_0x14"));
    assert!(sink.contains("impl Flags {\n"));
}

#[test]
fn derived_struct_begins_behind_its_base() {
    let mut world = World::new();
    let x = world.integer("X", None, None, 0);
    let base = world.structure("Base", Some(world.core), None, Some(x), 8);
    let z = world.integer("Z", None, None, 12);
    let shadow = world.integer("X", None, Some(z), 0);
    let derived = world.structure("Derived", Some(world.core), Some(base), Some(shadow), 16);
    let d = reconstruct(&world.graph, &world.classes(), derived).unwrap();
    assert_eq!(d.base_name.as_deref(), Some("Base"));
    assert_eq!(d.base_size, 8);
    assert_eq!(
        spans(&d.spans),
        vec![
            (SpanKind::Base, 0, 8, "base", "Base"),
            (SpanKind::Padding, 8, 4, "pad_at_0x8", "[u8; 0x4]"),
            (SpanKind::Field, 12, 4, "pub Z", "i32"),
        ]
    );
    assert_covers(&d.spans, 0, 16);
    assert_covers(&d.spans[1..], 8, 16);

    let mut sink = String::new();
    write_structure(&scope(), &mut sink, &world.graph, &world.classes(), derived).unwrap();
    assert!(sink.starts_with(
        "// ScriptStruct Core.Derived, 0x8 (0x10 - 0x8)\n#[repr(C)]\npub struct Derived {\n    \n    // 0x0(0x8)\n    base: Base,\n"
    ));
    assert!(sink.ends_with(
        "impl Deref for Derived {\n    type Target = Base;\n\n    fn deref(&self, ) -> &Self::Target {\n        &self.base\n    }\n\n}\n\nimpl DerefMut for Derived {\n    fn deref_mut(&mut self, ) -> &mut Self::Target {\n        &mut self.base\n    }\n\n}\n\n"
    ));
}

#[test]
fn a_struct_that_names_itself_as_base_has_none() {
    let mut world = World::new();
    let at = world.next();
    let root = world.structure("Object", Some(world.core), Some(at), None, 4);
    assert_eq!(at, root);
    let d = reconstruct(&world.graph, &world.classes(), root).unwrap();
    assert_eq!(d.base_name, None);
    assert_eq!(spans(&d.spans), vec![(SpanKind::Padding, 0, 4, "pad_at_0x0", "[u8; 0x4]")]);
    let mut sink = String::new();
    write_structure(&scope(), &mut sink, &world.graph, &world.classes(), root).unwrap();
    assert!(sink.contains("impl Deref for Object {\n    type Target = game::Object;\n\n"));
    assert!(sink.contains("unsafe { &mut *(self as *mut Self as *mut Self::Target) }"));
}

#[test]
fn fields_of_one_name_are_numbered_and_reserved_names_escaped() {
    let mut layout = Layout::new();
    layout.add_all(vec![
        slot(0, 4, 1, false, "mod", "i32"),
        slot(4, 4, 1, false, "Value", "i32"),
        slot(8, 4, 1, true, "bA", "u32"),
        slot(8, 4, 1, true, "bB", "u32"),
        slot(12, 4, 1, false, "Value", "f32"),
        slot(16, 4, 1, true, "bC", "u32"),
        slot(20, 4, 1, false, "mod", "u8"),
        slot(24, 2, 3, false, "Pair", "[u16; 3]"),
    ]);
    let (all, bitfields) = layout.finish(32);
    assert_eq!(
        spans(&all),
        vec![
            (SpanKind::Field, 0, 4, "pub r#mod", "i32"),
            (SpanKind::Field, 4, 4, "pub Value", "i32"),
            (SpanKind::Bitfield, 8, 4, "pub bitfield", "u32"),
            (SpanKind::Field, 12, 4, "pub Value_1", "f32"),
            (SpanKind::Bitfield, 16, 4, "pub bitfield_1", "u32"),
            (SpanKind::Field, 20, 4, "pub r#mod_1", "u8"),
            (SpanKind::Field, 24, 6, "pub Pair", "[u16; 3]"),
            (SpanKind::Padding, 30, 2, "pad_at_0x1e", "[u8; 0x2]"),
        ]
    );
    assert_covers(&all, 0, 32);
    assert_eq!(bitfields.bitfields.len(), 2);
    assert_eq!(bitfields.bitfields[0].fields, vec!["bA", "bB"]);
    assert_eq!(bitfields.bitfields[1].fields, vec!["bC"]);
}

#[test]
fn layout_without_fields() {
    let (none, sets) = Layout::new().finish(0);
    assert!(none.is_empty());
    assert!(sets.bitfields.is_empty());
    let (pad, _) = Layout::new().finish(3);
    assert_eq!(spans(&pad), vec![(SpanKind::Padding, 0, 3, "pad_at_0x0", "[u8; 0x3]")]);
    let (base, _) = Layout::with_base("B", 8).finish(8);
    assert_eq!(spans(&base), vec![(SpanKind::Base, 0, 8, "base", "B")]);
}

#[test]
fn a_field_of_the_largest_size_does_not_overflow() {
    let mut layout = Layout::new();
    layout.add(slot(u32::MAX, u32::MAX, u32::MAX, false, "Huge", "u8"));
    assert_eq!(layout.cursor, u32::MAX as u64 + (u32::MAX as u64) * (u32::MAX as u64));
    let (all, _) = layout.finish(0);
    assert_eq!(all.len(), 2);
    assert_eq!(all[1].size, 0xffff_fffe_0000_0001);
}

#[test]
fn a_size_that_differs_from_the_classification_is_an_error() {
    let mut world = World::new();
    let wrong = world.property("IntProperty", "Wrong", None, None, 0, 8);
    let mut wrong = wrong;
    wrong.array_dim = 3;
    let wrong = world.add(Node::Property(wrong));
    let s = world.structure("S", Some(world.core), None, Some(wrong), 24);
    match reconstruct(&world.graph, &world.classes(), s) {
        Err(Error::PropertySizeMismatch(at, mismatch, info)) => {
            assert_eq!(at, address(wrong));
            assert_eq!(mismatch, 12);
            assert_eq!(info.size, 4);
            assert_eq!(info.field_type.as_str(), "i32");
        }
        other => panic!("expected a size mismatch, got {:?}", other),
    }
    let small = world.property("NameProperty", "Small", None, None, 0, 4);
    let small = world.add(Node::Property(small));
    let t = world.structure("T", Some(world.core), None, Some(small), 4);
    assert!(matches!(
        reconstruct(&world.graph, &world.classes(), t),
        Err(Error::PropertySizeMismatch(_, -4, _))
    ));
    let mut sink = String::from("before");
    assert!(write_structure(&scope(), &mut sink, &world.graph, &world.classes(), t).is_err());
    assert_eq!(sink, "before");
}

#[test]
fn arrays_of_fixed_size_are_typed_by_their_dimension() {
    let mut world = World::new();
    let mut triple = world.property("FloatProperty", "Axis", None, None, 0, 4);
    triple.array_dim = 3;
    let triple = world.add(Node::Property(triple));
    let s = world.structure("S", Some(world.core), None, Some(triple), 12);
    let d = reconstruct(&world.graph, &world.classes(), s).unwrap();
    assert_eq!(spans(&d.spans), vec![(SpanKind::Field, 0, 12, "pub Axis", "[f32; 3]")]);
}

#[test]
fn booleans_share_four_bytes_whatever_their_dimensions() {
    let mut world = World::new();
    let after = world.integer("After", None, None, 12);
    let property = world.property("BoolProperty", "bMany", None, Some(after), 4, 4);
    let mut property = property;
    property.array_dim = 2;
    let many = world.add(Node::BoolProperty(BoolProperty { property, bitmask: 1 }));
    let s = world.structure("S", Some(world.core), None, Some(many), 16);
    let d = reconstruct(&world.graph, &world.classes(), s).unwrap();
    assert_eq!(
        spans(&d.spans),
        vec![
            (SpanKind::Padding, 0, 4, "pad_at_0x0", "[u8; 0x4]"),
            (SpanKind::Bitfield, 4, 4, "pub bitfield", "u32"),
            (SpanKind::Padding, 8, 4, "pad_at_0x8", "[u8; 0x4]"),
            (SpanKind::Field, 12, 4, "pub After", "i32"),
        ]
    );
    assert_covers(&d.spans, 0, 16);
}

#[test]
fn overlapping_fields_are_laid_out_as_they_come() {
    let mut layout = Layout::new();
    layout.add_all(vec![slot(0, 8, 1, false, "Wide", "u64"), slot(4, 4, 1, false, "In", "i32")]);
    let (all, _) = layout.finish(6);
    assert_eq!(
        spans(&all),
        vec![(SpanKind::Field, 0, 8, "pub Wide", "u64"), (SpanKind::Field, 4, 4, "pub In", "i32")]
    );
}

// --- enums ---

fn strings(names: &[&str]) -> Vec<String> {
    names.iter().map(|n| n.to_string()).collect()
}

fn parts(text: &str) -> Vec<String> {
    let chars: Vec<char> = text.chars().collect();
    split_components(&chars).iter().map(|p| p.iter().collect()).collect()
}

#[test]
fn common_prefix_is_cut() {
    let variants = strings(&["WEAP_Pistol", "WEAP_Shotgun", "WEAP_MAX"]);
    assert_eq!(join_prefix(&find_shared_prefix(&variants)), "WEAP_");
    assert_eq!(normalize("WEAP", &variants), vec!["Pistol", "Shotgun", "MAX"]);

    let mut world = World::new();
    let e = world.enumeration("WEAP", Some(world.core), &["WEAP_Pistol", "WEAP_Shotgun", "WEAP_MAX"]);
    let d = describe_enumeration(&world.graph, e).unwrap().unwrap();
    assert_eq!(d.name, "WEAP");
    assert_eq!(d.prefix, "WEAP_");
    assert_eq!(d.variants, vec!["Pistol", "Shotgun", "MAX"]);
    let mut sink = String::new();
    write_enumeration(&scope(), &mut sink, &world.graph, e).unwrap();
    assert_eq!(
        sink,
        "#[repr(u8)]\npub enum WEAP {\n    Pistol,\n    Shotgun,\n    MAX,\n}\n\n"
    );
}

#[test]
fn text_is_split_at_every_underscore() {
    assert_eq!(parts("A_Bc_D"), vec!["A", "Bc", "D"]);
    assert_eq!(parts("Plain"), vec!["Plain"]);
    assert_eq!(parts(""), vec![""]);
    assert_eq!(parts("_"), vec!["", ""]);
    assert_eq!(parts("A__B_"), vec!["A", "", "B", ""]);
}

#[test]
fn prefix_shrinks_with_every_variant() {
    assert_eq!(join_prefix(&find_shared_prefix(&strings(&["A_B_C"]))), "A_B_C_");
    assert_eq!(join_prefix(&find_shared_prefix(&strings(&["A_B_C", "A_B_D"]))), "A_B_");
    assert_eq!(join_prefix(&find_shared_prefix(&strings(&["A_B_C", "A_B_D", "A_X"]))), "A_");
    assert_eq!(join_prefix(&find_shared_prefix(&strings(&["A_B", "A_B", "C_D"]))), "");
    assert_eq!(join_prefix(&find_shared_prefix(&strings(&["AB_C", "A_C"]))), "");
    assert_eq!(join_prefix(&find_shared_prefix(&strings(&[]))), "");
}

#[test]
fn a_rest_that_is_no_identifier_keeps_the_variant_whole() {
    assert_eq!(
        normalize("ESize", &strings(&["SZ_1x", "SZ_Self", "SZ_", "SZ_Big"])),
        vec!["SZ_1x", "SZ_Self", "SZ_", "Big"]
    );
    assert_eq!(normalize("E", &strings(&["Only_One"])), vec!["Only_One"]);
    assert_eq!(normalize("E", &strings(&["A_B", "A_B_C"])), vec!["A_B", "C"]);
}

#[test]
fn the_marker_of_the_count_becomes_max() {
    assert_eq!(
        normalize("EColor", &strings(&["C_Red", "C_EColor_MAX", "C_EColorMAX", "C_EColorMax"])),
        vec!["Red", "MAX", "MAX_1", "EColorMax"]
    );
    assert_eq!(strip_variant("EColor", "C_EColorMAX", Some(2)), "MAX");
    assert_eq!(strip_variant("EColor", "C_OtherMAX", Some(2)), "OtherMAX");
    assert_eq!(strip_variant("MAX", "C_MAX", Some(2)), "MAX");
    assert_eq!(strip_variant("EColor", "C_Red", Some(7)), "C_Red");
    assert_eq!(strip_variant("EColor", "C_Red", None), "C_Red");
    assert_eq!(strip_variant("EColor", "C_Red", Some(0)), "C_Red");
}

#[test]
fn names_that_are_the_same_after_the_cut_are_numbered() {
    assert_eq!(
        normalize("E", &strings(&["P_1x", "P_P_1x", "P_Q", "P_Q"])),
        vec!["P_1x", "P_1x_1", "Q", "Q_1"]
    );
    let names = normalize("E", &strings(&["X_a", "X_a", "X_b", "X_a"]));
    assert_eq!(names, vec!["a", "a_1", "b", "a_2"]);
    assert!(names.iter().all(|n| !n.is_empty()));
}

#[test]
fn an_enum_without_variants_leaves_nothing() {
    let mut world = World::new();
    let e = world.enumeration("EFlightMode", None, &[]);
    assert!(describe_enumeration(&world.graph, e).unwrap().is_none());
    let mut sink = String::new();
    write_enumeration(&scope(), &mut sink, &world.graph, e).unwrap();
    assert_eq!(sink, "");
}

#[test]
fn a_variant_without_a_name_is_an_error() {
    let mut world = World::new();
    let e = world.enumeration("EBroken", Some(world.core), &["EB_A", "EB_B"]);
    if let Some(Node::Enum(e)) = world.graph.objects.data[e].as_mut() {
        e.variants[1] = NameIndex { index: 70_000, number: 0 };
    }
    assert!(matches!(
        describe_enumeration(&world.graph, e),
        Err(Error::BadVariant(at)) if at == address(e)
    ));
    let mut sink = String::from("x");
    assert!(write_enumeration(&scope(), &mut sink, &world.graph, e).is_err());
    assert_eq!(sink, "x");
    let f = world.enumeration("EUnset", Some(world.core), &["EU_Gone"]);
    let gone = world.name("EU_Gone").index as usize;
    world.graph.names.data[gone] = None;
    assert!(matches!(
        describe_enumeration(&world.graph, f),
        Err(Error::BadVariant(at)) if at == address(f)
    ));
}

// --- constants ---

fn constant(world: &mut World, name: &str, outer: Link, value: &str) -> usize {
    let class = world.kind("Const");
    let field = world.field(name, Some(class), outer, None);
    world.add(Node::Const(Const { field, value: Some(value.to_string()) }))
}

#[test]
fn constant_is_a_comment_without_the_terminator() {
    let mut world = World::new();
    let actor = world.class("Actor");
    let c = constant(&mut world, "MAX_HEALTH", Some(actor), "100\0");
    let plain = constant(&mut world, "NAME", Some(actor), "\"x\"");
    let mut sink = String::new();
    write_constant(&scope(), &mut sink, &world.graph, c).unwrap();
    write_constant(&scope(), &mut sink, &world.graph, plain).unwrap();
    assert_eq!(sink, "// Actor_MAX_HEALTH = 100\n\n// Actor_NAME = \"x\"\n\n");
    assert_eq!(blps::dump::trim_terminator("\0"), "");
    assert_eq!(blps::dump::trim_terminator("a\0\0"), "a\0");
    assert_eq!(blps::dump::trim_terminator(""), "");
}

#[test]
fn constant_whose_value_is_no_text_is_an_error() {
    let mut world = World::new();
    let actor = world.class("Actor");
    let c = constant(&mut world, "GARBLED", Some(actor), "");
    if let Some(Node::Const(c)) = world.graph.objects.data[c].as_mut() {
        c.value = None;
    }
    let mut sink = String::new();
    assert!(matches!(
        write_constant(&scope(), &mut sink, &world.graph, c),
        Err(Error::StringConversion(at)) if at == address(c)
    ));
    assert_eq!(sink, "");
}

#[test]
fn constant_outside_any_object_is_an_error() {
    let mut world = World::new();
    let c = constant(&mut world, "LOST", None, "1");
    let mut sink = String::new();
    assert!(matches!(
        write_constant(&scope(), &mut sink, &world.graph, c),
        Err(Error::ConstOuter(at)) if at == address(c)
    ));
    assert_eq!(sink, "");
}

// --- functions ---

fn parameter(
    world: &mut World,
    kind: &str,
    name: &str,
    next: Link,
    offset: u32,
    size: u32,
    flags: u32,
) -> usize {
    let mut property = world.property(kind, name, None, next, offset, size);
    property.property_flags = flags;
    if kind == "BoolProperty" {
        world.add(Node::BoolProperty(BoolProperty { property, bitmask: 1 }))
    } else {
        world.add(Node::Property(property))
    }
}

fn function(world: &mut World, name: &str, outer: Link, next: Link, children: Link, flags: u32) -> usize {
    let class = world.kind("Function");
    let field = world.field(name, Some(class), outer, next);
    world.add(Node::Function(Function {
        struct_base: blps::game::Struct { field, super_field: None, children, property_size: 0 },
        flags,
    }))
}

#[test]
fn parameters_are_ordered_like_fields_and_named_in_the_order_of_declaration() {
    let mut world = World::new();
    let local = parameter(&mut world, "IntProperty", "Temp", None, 16, 4, 0);
    let ret = parameter(&mut world, "BoolProperty", "ReturnValue", Some(local), 12, 4, PARAM | RETURN_PARAM);
    let twin = parameter(&mut world, "FloatProperty", "Amount", Some(ret), 0, 4, PARAM);
    let out = parameter(&mut world, "IntProperty", "mod", Some(twin), 8, 4, PARAM | OUT_PARAM);
    let first = parameter(&mut world, "IntProperty", "Amount", Some(out), 4, 4, PARAM);
    let f = function(&mut world, "Heal", None, None, Some(first), 0);
    let parameters = parameters_for(&world.graph, &world.classes(), f).unwrap();
    let listed: Vec<(ParameterKind, &str, &str)> =
        parameters.iter().map(|p| (p.kind, p.name.as_str(), p.typ.as_str())).collect();
    assert_eq!(
        listed,
        vec![
            (ParameterKind::Input, "Amount_1", "f32"),
            (ParameterKind::Input, "Amount", "i32"),
            (ParameterKind::Output, "r#mod", "i32"),
            (ParameterKind::Output, "ReturnValue", "bool"),
        ]
    );
}

#[test]
fn wrapper_of_a_native_function_with_one_output() {
    let mut world = World::new();
    let actor = world.class("Actor");
    let ret = parameter(&mut world, "FloatProperty", "ReturnValue", None, 4, 4, PARAM | RETURN_PARAM);
    let amount = parameter(&mut world, "IntProperty", "Amount", Some(ret), 0, 4, PARAM);
    let heal = function(&mut world, "Heal", Some(actor), None, Some(amount), NATIVE);
    if let Some(Node::Class(c)) = world.graph.objects.data[actor].as_mut() {
        c.struct_base.children = Some(heal);
    }
    let mut sink = String::new();
    blps::dump::add_methods(&scope(), &mut sink, &world.graph, &world.classes(), actor).unwrap();
    assert_eq!(
        sink,
        "impl Actor {\n    pub unsafe fn Heal(&mut self, Amount: i32, ) -> Option<f32> {\n        static mut FUNCTION: Option<*mut game::Function> = None;\n\n        if let Some(function) = FUNCTION {\n            #[repr(C)]\n            pub struct Parameters {\n                Amount: i32,\n                ReturnValue: MaybeUninit<f32>,\n            }\n\n            let mut p = Parameters {\n                Amount,\n                ReturnValue: MaybeUninit::uninit(),\n            };\n\n            let old_flags = (*function).flags;\n            (*function).flags |= 0x400;\n            self.process_event(function, &mut p as *mut Parameters as *mut _);\n            (*function).flags = old_flags;\n\n            Some(p.ReturnValue.assume_init())\n        } else {\n            FUNCTION = (*GLOBAL_OBJECTS)\n                .find_mut(\"Function Core.Actor.Heal\")\n                .map(|o| o.cast());\n            None\n        }\n\n    }\n\n}\n\n"
    );
}

#[test]
fn wrappers_without_and_with_several_outputs() {
    let mut world = World::new();
    let actor = world.class("Actor");
    let b = parameter(&mut world, "IntProperty", "B", None, 4, 4, PARAM | OUT_PARAM);
    let a = parameter(&mut world, "FloatProperty", "A", Some(b), 0, 4, PARAM | OUT_PARAM);
    let get = function(&mut world, "Tick", Some(actor), None, Some(a), 0);
    let tick = function(&mut world, "Tick", Some(actor), Some(get), None, 0);
    if let Some(Node::Class(c)) = world.graph.objects.data[actor].as_mut() {
        c.struct_base.children = Some(tick);
    }
    let mut sink = String::new();
    write_class(&scope(), &mut sink, &world.graph, &world.classes(), actor).unwrap();
    assert!(sink.starts_with("// Class Core.Actor, 0x0\n#[repr(C)]\npub struct Actor {\n}\n\nimpl Actor {\n"));
    assert!(sink.contains(
        "    pub unsafe fn Tick(&mut self, ) {\n        static mut FUNCTION: Option<*mut game::Function> = None;\n\n        if let Some(function) = FUNCTION {\n            #[repr(C)]\n            pub struct Parameters {\n            }\n\n            let mut p = Parameters {\n            };\n\n            let old_flags = (*function).flags;\n            self.process_event(function, &mut p as *mut Parameters as *mut _);\n            (*function).flags = old_flags;\n\n        } else {\n            FUNCTION = (*GLOBAL_OBJECTS)\n                .find_mut(\"Function Core.Actor.Tick\")\n                .map(|o| o.cast());\n        }\n\n    }\n\n"
    ));
    assert!(sink.contains("    pub unsafe fn Tick_1(&mut self, ) -> Option<(f32, i32)> {\n"));
    assert!(sink.contains("            Some((p.A.assume_init(), p.B.assume_init()))\n        } else {\n"));
    assert!(sink.contains("                .map(|o| o.cast());\n            None\n        }\n"));
}

#[test]
fn class_with_fields_booleans_and_a_function() {
    let mut world = World::new();
    let actor = world.class("Actor");
    let tick = function(&mut world, "Tick", Some(actor), None, None, 0);
    let second = world.boolean("bHidden", None, Some(tick), 4, 2);
    let first = world.boolean("bStatic", None, Some(second), 4, 1);
    let health = world.integer("Health", None, Some(first), 0);
    if let Some(Node::Class(c)) = world.graph.objects.data[actor].as_mut() {
        c.struct_base.children = Some(health);
        c.struct_base.property_size = 8;
    }
    let mut sink = String::new();
    write_object(&scope(), &mut sink, &world.graph, &world.classes(), actor).unwrap();
    assert!(sink.starts_with(
        "// Class Core.Actor, 0x8\n#[repr(C)]\npub struct Actor {\n    \n    // 0x0(0x4)\n    pub Health: i32,\n    \n    // 0x4(0x4)\n    pub bitfield: u32,\n}\n\nimpl Actor {\n    // get bStatic\n    pub fn is_static(&self, ) -> bool {\n        is_bit_set(self.bitfield, 0)\n    }\n\n"
    ));
    assert!(sink.contains("    // set bHidden\n    pub fn set_hidden(&mut self, value: bool, ) {\n        set_bit(&mut self.bitfield, 1, value);\n    }\n\n}\n\nimpl Actor {\n    pub unsafe fn Tick(&mut self, ) {\n"));
    assert!(sink.ends_with("                .map(|o| o.cast());\n        }\n\n    }\n\n}\n\n"));
    assert_eq!(sink.matches("impl Actor {").count(), 2);
}

#[test]
fn a_class_whose_function_fails_leaves_nothing() {
    let mut world = World::new();
    let actor = world.class("Actor");
    let odd = world.class("OddProperty");
    let field = world.field("Odd", Some(odd), None, None);
    let bad = world.add(Node::Property(Property {
        field,
        array_dim: 1,
        element_size: 4,
        property_flags: PARAM,
        offset: 0,
    }));
    let f = function(&mut world, "Break", Some(actor), None, Some(bad), 0);
    if let Some(Node::Class(c)) = world.graph.objects.data[actor].as_mut() {
        c.struct_base.children = Some(f);
    }
    let mut sink = String::from("kept");
    assert!(matches!(
        write_object(&scope(), &mut sink, &world.graph, &world.classes(), actor),
        Err(Error::PropertyInfo(property_info::Error::UnknownProperty(at))) if at == address(bad)
    ));
    assert_eq!(sink, "kept");
}

#[test]
fn watched_functions_are_found_by_their_full_names() {
    let mut world = World::new();
    let game = world.package("WillowGame", None);
    let viewport = world.package("WillowGameViewportClient", Some(game));
    let controller = world.package("WillowPlayerController", Some(game));
    assert!(matches!(
        CachedFunctionIndexes::new(&world.graph),
        Err(cached_function_indexes::Error::NotFound(
            "Function WillowGame.WillowGameViewportClient.PostRender"
        ))
    ));
    let render = function(&mut world, "PostRender", Some(viewport), None, None, 0);
    let tick = function(&mut world, "PlayerTick", Some(controller), None, None, 0);
    assert!(matches!(
        CachedFunctionIndexes::new(&world.graph),
        Err(cached_function_indexes::Error::NotFound(
            "Function WillowGame.WillowPlayerController.Destroyed"
        ))
    ));
    let destroyed = function(&mut world, "Destroyed", Some(controller), None, None, 0);
    let indexes = CachedFunctionIndexes::new(&world.graph).unwrap();
    assert_eq!(indexes.post_render as usize, render);
    assert_eq!(indexes.player_tick as usize, tick);
    assert_eq!(indexes.player_destroyed as usize, destroyed);
    assert_eq!(cached_function_indexes::find(&world.graph, "Class Core.Class").unwrap(), 1);
}

// --- the whole run ---

fn small_world() -> World {
    let mut world = World::new();
    let mana = world.float("Mana", None, None, 4);
    let health = world.integer("Health", None, Some(mana), 0);
    world.structure("Stats", Some(world.core), None, Some(health), 12);
    world.enumeration("WEAP", Some(world.core), &["WEAP_Pistol", "WEAP_MAX"]);
    let wrong = world.property("IntProperty", "Wrong", None, None, 0, 2);
    let wrong = world.add(Node::Property(wrong));
    world.structure("Broken", Some(world.core), None, Some(wrong), 2);
    world.graph.objects.data.push(None);
    constant(&mut world, "LIMIT", Some(1), "7\0");
    world
}

#[test]
fn a_run_writes_what_it_can_and_reports_the_rest() {
    let world = small_world();
    let mut sink = String::new();
    let failures = sdk(&world.graph, &mut sink).unwrap();
    assert_eq!(failures.len(), 1);
    assert_eq!(failures[0].object, world.find("ScriptStruct Core.Broken"));
    assert!(matches!(failures[0].error, Error::PropertySizeMismatch(_, -2, _)));
    assert!(sink.starts_with(
        "#![allow(bindings_with_variant_name)]\n#![allow(clippy::doc_markdown)]\n#![allow(dead_code)]\n#![allow(non_camel_case_types)]\n#![allow(non_snake_case)]\n\nuse crate::GLOBAL_OBJECTS;\nuse crate::game::{self, Array, FString, NameIndex, ScriptDelegate, ScriptInterface};\nuse crate::hook::bitfield::{is_bit_set, set_bit};\nuse std::mem::MaybeUninit;\nuse std::ops::{Deref, DerefMut};\n\n// Class Core.Class, 0x0\n#[repr(C)]\npub struct Class {\n}\n\nimpl Class {\n}\n\n"
    ));
    assert!(sink.contains("pub struct Stats {\n"));
    assert!(sink.contains("#[repr(u8)]\npub enum WEAP {\n    Pistol,\n    MAX,\n}\n\n"));
    assert!(!sink.contains("Broken"));
    assert!(sink.ends_with("// Class_LIMIT = 7\n\n"));
    let stats = sink.find("pub struct Stats").unwrap();
    let weap = sink.find("pub enum WEAP").unwrap();
    assert!(stats < weap);
}

#[test]
fn two_runs_over_one_graph_write_the_same() {
    let world = small_world();
    let mut first = String::new();
    let mut second = String::new();
    let first_failures = sdk(&world.graph, &mut first).unwrap();
    let second_failures = sdk(&world.graph, &mut second).unwrap();
    assert_eq!(first, second);
    assert_eq!(format!("{:?}", first_failures), format!("{:?}", second_failures));
    let mut third = first.clone();
    sdk(&world.graph, &mut third).unwrap();
    assert_eq!(third, format!("{}{}", first, first));
}

#[test]
fn objects_of_other_kinds_leave_nothing() {
    let mut world = World::new();
    let package = world.package("Engine", None);
    let i = world.integer("Free", None, None, 0);
    let mut sink = String::new();
    write_object(&scope(), &mut sink, &world.graph, &world.classes(), package).unwrap();
    write_object(&scope(), &mut sink, &world.graph, &world.classes(), i).unwrap();
    write_object(&scope(), &mut sink, &world.graph, &world.classes(), world.next() + 9).unwrap();
    assert_eq!(sink, "");
    let _ = Bitfields::new();
}
