//! What a property is in the emitted source: its size in the runtime's
//! memory, the text of its type and a comment that says what the type cannot.

use vstd::prelude::*;
use vstd::string::*;
use crate::dump::bounded::{bounded, texts, BoundedString};
use crate::dump::helper;
use crate::game::{Graph, Link};
use crate::text::{concat, decimal, lemma_concat_parts, push_decimal};

verus! {

/// The size of a pointer of the runtime.
pub const POINTER_SIZE: u32 = 4;

/// The size of an array handle: a pointer, a count and a capacity.
pub const ARRAY_SIZE: u32 = 12;

/// The size of the bytes that stand for a map.
pub const MAP_SIZE_BYTES: u32 = 60;

/// The size of the value behind a set of boolean properties.
pub const BOOL_SIZE: u32 = 4;

/// The size of a reference into the name table.
pub const NAME_SIZE: u32 = 8;

/// The size of a delegate: an object and the name of a function.
pub const DELEGATE_SIZE: u32 = 12;

#[derive(Debug)]
pub enum Error {
    Helper(helper::Error),
    NullArrayInner(usize),
    NullInterfaceClass(usize),
    NullMetaClass(usize),
    NullMapKeyProperty(usize),
    NullMapValueProperty(usize),
    NullPropertyClass(usize),
    NullPropertyStruct(usize),
    /// A text took more bytes than a bounded text holds.
    StringCapacity,
    UnknownProperty(usize),
}

/// The classes of the property kinds, found once and handed to every
/// classification.
#[derive(Clone, Copy, Debug)]
pub struct PropertyClasses {
    pub array_property: usize,
    pub bool_property: usize,
    pub byte_property: usize,
    pub class_property: usize,
    pub delegate_property: usize,
    pub float_property: usize,
    pub int_property: usize,
    pub interface_property: usize,
    pub map_property: usize,
    pub name_property: usize,
    pub object_property: usize,
    pub str_property: usize,
    pub struct_property: usize,
}

/// The full names of the classes of the property kinds.
pub open spec fn property_class_names() -> Seq<&'static str> {
    seq![
        "Class Core.ArrayProperty",
        "Class Core.BoolProperty",
        "Class Core.ByteProperty",
        "Class Core.ClassProperty",
        "Class Core.DelegateProperty",
        "Class Core.FloatProperty",
        "Class Core.IntProperty",
        "Class Core.InterfaceProperty",
        "Class Core.MapProperty",
        "Class Core.NameProperty",
        "Class Core.ObjectProperty",
        "Class Core.StrProperty",
        "Class Core.StructProperty",
    ]
}

impl PropertyClasses {
    /// The classes in the order of `property_class_names`.
    pub open spec fn of(found: Seq<usize>) -> PropertyClasses {
        PropertyClasses {
            array_property: found[0],
            bool_property: found[1],
            byte_property: found[2],
            class_property: found[3],
            delegate_property: found[4],
            float_property: found[5],
            int_property: found[6],
            interface_property: found[7],
            map_property: found[8],
            name_property: found[9],
            object_property: found[10],
            str_property: found[11],
            struct_property: found[12],
        }
    }
}

/// The classes of the property kinds in `graph`, or the error that names the
/// first that the graph does not hold.
pub open spec fn property_classes_of(graph: &Graph) -> Result<PropertyClasses, Error> {
    match helper::static_classes(graph, property_class_names()) {
        Ok(found) => Ok(PropertyClasses::of(found)),
        Err(error) => Err(Error::Helper(error)),
    }
}

/// Finds the classes of the property kinds by their full names.
pub fn find_static_classes(graph: &Graph) -> (classes: Result<PropertyClasses, Error>)
    ensures
        classes == property_classes_of(graph),
{
    let names: Vec<&'static str> = vec![
        "Class Core.ArrayProperty",
        "Class Core.BoolProperty",
        "Class Core.ByteProperty",
        "Class Core.ClassProperty",
        "Class Core.DelegateProperty",
        "Class Core.FloatProperty",
        "Class Core.IntProperty",
        "Class Core.InterfaceProperty",
        "Class Core.MapProperty",
        "Class Core.NameProperty",
        "Class Core.ObjectProperty",
        "Class Core.StrProperty",
        "Class Core.StructProperty",
    ];
    assert(names@ =~= property_class_names());
    proof {
        helper::lemma_static_classes_len(graph, names@);
    }
    match helper::find_all(graph, &names) {
        Ok(found) => Ok(
            PropertyClasses {
                array_property: found[0],
                bool_property: found[1],
                byte_property: found[2],
                class_property: found[3],
                delegate_property: found[4],
                float_property: found[5],
                int_property: found[6],
                interface_property: found[7],
                map_property: found[8],
                name_property: found[9],
                object_property: found[10],
                str_property: found[11],
                struct_property: found[12],
            },
        ),
        Err(error) => Err(Error::Helper(error)),
    }
}

/// A classified property.
#[derive(Debug)]
pub struct PropertyInfo {
    pub size: u32,
    pub field_type: BoundedString,
    pub comment: BoundedString,
}

/// A classified property, its texts as characters.
pub struct InfoView {
    pub size: u32,
    pub field_type: Seq<char>,
    pub comment: Seq<char>,
}

impl View for PropertyInfo {
    type V = InfoView;

    open spec fn view(&self) -> InfoView {
        InfoView { size: self.size, field_type: self.field_type@, comment: self.comment@ }
    }
}

/// The type with its comment behind it, where there is one and both fit into
/// a bounded text.
pub open spec fn typed_text(info: InfoView) -> Option<Seq<char>> {
    if info.comment.len() == 0 {
        Some(info.field_type)
    } else {
        bounded(info.field_type + " /* "@ + info.comment + " */"@)
    }
}

/// The type of an array of `dimensions` items of the type, where it fits
/// into a bounded text.
pub open spec fn array_text(info: InfoView, dimensions: u32) -> Option<Seq<char>> {
    match typed_text(info) {
        Some(typ) => bounded("["@ + typ + "; "@ + decimal(dimensions as nat) + "]"@),
        None => None,
    }
}

/// Whether the bounded text or error that a function returned is the one that
/// its specification gives.
pub open spec fn bounded_is(returned: Result<BoundedString, Error>, stated: Option<Seq<char>>) -> bool {
    match (returned, stated) {
        (Ok(text), Some(expected)) => text@ == expected,
        (Err(error), None) => error == Error::StringCapacity,
        _ => false,
    }
}

/// Whether the classification or error that a function returned is the one
/// that its specification gives.
pub open spec fn info_is(returned: Result<PropertyInfo, Error>, stated: Result<InfoView, Error>) -> bool {
    match (returned, stated) {
        (Ok(info), Ok(expected)) => info@ == expected,
        (Err(error), Err(expected)) => error == expected,
        _ => false,
    }
}

/// A type without a comment.
pub open spec fn simple(size: u32, field_type: Seq<char>) -> Result<InfoView, Error> {
    match bounded(field_type) {
        Some(text) => Ok(InfoView { size, field_type: text, comment: Seq::empty() }),
        None => Err(Error::StringCapacity),
    }
}

/// A type with a comment.
pub open spec fn commented(size: u32, field_type: Seq<char>, comment: Seq<char>) -> Result<
    InfoView,
    Error,
> {
    match (bounded(field_type), bounded(comment)) {
        (Some(text), Some(note)) => Ok(InfoView { size, field_type: text, comment: note }),
        _ => Err(Error::StringCapacity),
    }
}

/// A byte: the enumeration that it holds a variant of, where it has one.
pub open spec fn byte_info(graph: &Graph, property: usize) -> Result<InfoView, Error> {
    match graph.spec_node(Some(property)).unwrap().spec_enumeration() {
        None => simple(1, "u8"@),
        Some(enumeration) => match helper::resolved_name(graph, enumeration) {
            Err(error) => Err(Error::Helper(error)),
            Ok(name) => simple(1, name),
        },
    }
}

/// A pointer to an object of the class `class`; `missing` where the property
/// names no class.
pub open spec fn pointer_info(graph: &Graph, class: Link, missing: Error) -> Result<
    InfoView,
    Error,
> {
    match class {
        None => Err(missing),
        Some(class) => match helper::name_of(graph, class) {
            Err(error) => Err(Error::Helper(error)),
            Ok(name) => simple(POINTER_SIZE, "*mut "@ + name),
        },
    }
}

/// A struct held by value: as large as the struct is declared.
pub open spec fn struct_info(graph: &Graph, property: usize) -> Result<InfoView, Error> {
    let node = graph.spec_node(Some(property)).unwrap();
    match node.spec_inner_struct() {
        None => Err(Error::NullPropertyStruct(graph.spec_address_of(Some(property)))),
        Some(inner) => match helper::resolved_name(graph, inner) {
            Err(error) => Err(Error::Helper(error)),
            Ok(name) => simple(graph.spec_declared_size(Some(inner)) as u32, name),
        },
    }
}

/// The classification of `property`.
///
/// The kind is the first of array, boolean, byte, class, delegate, float,
/// integer, interface, map, name, object, string and struct whose class the
/// property is of. An array nests the type of its items; a map keeps the types
/// of its keys and values in its comment only. Arrays and maps may nest no
/// deeper than `depth`: the property at which the count runs out is reported
/// as unknown.
pub open spec fn classified(
    graph: &Graph,
    classes: &PropertyClasses,
    property: usize,
    depth: nat,
) -> Result<InfoView, Error>
    decreases depth,
{
    let address = graph.spec_address_of(Some(property));
    if graph.spec_is(property, classes.array_property) {
        match graph.spec_node(Some(property)).unwrap().spec_inner() {
            None => Err(Error::NullArrayInner(address)),
            Some(inner) => if depth == 0 {
                Err(Error::UnknownProperty(graph.spec_address_of(Some(inner))))
            } else {
                match classified(graph, classes, inner, (depth - 1) as nat) {
                    Err(error) => Err(error),
                    Ok(item) => commented(
                        ARRAY_SIZE,
                        "Array<"@ + item.field_type + ">"@,
                        item.comment,
                    ),
                }
            },
        }
    } else if graph.spec_is(property, classes.bool_property) {
        simple(BOOL_SIZE, "u32"@)
    } else if graph.spec_is(property, classes.byte_property) {
        byte_info(graph, property)
    } else if graph.spec_is(property, classes.class_property) {
        pointer_info(
            graph,
            graph.spec_node(Some(property)).unwrap().spec_meta_class(),
            Error::NullMetaClass(address),
        )
    } else if graph.spec_is(property, classes.delegate_property) {
        simple(DELEGATE_SIZE, "ScriptDelegate"@)
    } else if graph.spec_is(property, classes.float_property) {
        simple(4, "f32"@)
    } else if graph.spec_is(property, classes.int_property) {
        simple(4, "i32"@)
    } else if graph.spec_is(property, classes.interface_property) {
        pointer_info(
            graph,
            graph.spec_node(Some(property)).unwrap().spec_interface_class(),
            Error::NullInterfaceClass(address),
        )
    } else if graph.spec_is(property, classes.map_property) {
        let node = graph.spec_node(Some(property)).unwrap();
        match (node.spec_key(), node.spec_value()) {
            (None, _) => Err(Error::NullMapKeyProperty(address)),
            (Some(_), None) => Err(Error::NullMapValueProperty(address)),
            (Some(key), Some(value)) => if depth == 0 {
                Err(Error::UnknownProperty(graph.spec_address_of(Some(key))))
            } else {
                match classified(graph, classes, key, (depth - 1) as nat) {
                    Err(error) => Err(error),
                    Ok(key) => match classified(graph, classes, value, (depth - 1) as nat) {
                        Err(error) => Err(error),
                        Ok(value) => commented(
                            MAP_SIZE_BYTES,
                            "[u8; 60]"@,
                            "Map<"@ + key.field_type + ", "@ + value.field_type + ">"@,
                        ),
                    },
                }
            },
        }
    } else if graph.spec_is(property, classes.name_property) {
        simple(NAME_SIZE, "NameIndex"@)
    } else if graph.spec_is(property, classes.object_property) {
        pointer_info(
            graph,
            graph.spec_node(Some(property)).unwrap().spec_property_class(),
            Error::NullPropertyClass(address),
        )
    } else if graph.spec_is(property, classes.str_property) {
        simple(ARRAY_SIZE, "FString"@)
    } else if graph.spec_is(property, classes.struct_property) {
        struct_info(graph, property)
    } else {
        Err(Error::UnknownProperty(address))
    }
}

impl PropertyInfo {
    /// A type without a comment.
    pub fn new(size: u32, field_type: BoundedString) -> (info: PropertyInfo)
        ensures
            info@ == (InfoView { size, field_type: field_type@, comment: Seq::empty() }),
    {
        PropertyInfo { size, field_type, comment: BoundedString::new() }
    }

    fn simple(size: u32, field_type: &str) -> (info: Result<PropertyInfo, Error>)
        ensures
            info_is(info, simple(size, field_type@)),
    {
        proof {
            reveal_strlit("");
        }
        Self::commented(size, field_type, "")
    }

    fn commented(size: u32, field_type: &str, comment: &str) -> (info: Result<PropertyInfo, Error>)
        ensures
            info_is(info, commented(size, field_type@, comment@)),
            comment@.len() == 0 ==> info_is(info, simple(size, field_type@)),
    {
        let parts: Vec<&str> = vec![field_type];
        let notes: Vec<&str> = vec![comment];
        proof {
            let e = Seq::<char>::empty();
            lemma_concat_parts(field_type@, e, e, e, e);
            lemma_concat_parts(comment@, e, e, e, e);
            assert(texts(parts@) =~= seq![field_type@]);
            assert(texts(notes@) =~= seq![comment@]);
            assert(crate::text::utf8_len(e) == 0);
        }
        match BoundedString::concat(&parts) {
            None => Err(Error::StringCapacity),
            Some(field_type) => match BoundedString::concat(&notes) {
                None => Err(Error::StringCapacity),
                Some(comment) => Ok(PropertyInfo { size, field_type, comment }),
            },
        }
    }

    /// The text of a name, or the error, as this module reports it.
    fn named(name: Result<String, helper::Error>) -> (text: Result<String, Error>)
        ensures
            match (text, name) {
                (Ok(text), Ok(name)) => text == name,
                (Err(error), Err(cause)) => error == Error::Helper(cause),
                _ => false,
            },
    {
        match name {
            Ok(name) => Ok(name),
            Err(error) => Err(Error::Helper(error)),
        }
    }

    fn pointer(graph: &Graph, class: Link, missing: Error) -> (info: Result<PropertyInfo, Error>)
        ensures
            info_is(info, pointer_info(graph, class, missing)),
    {
        match class {
            None => Err(missing),
            Some(class) => {
                let name = match Self::named(helper::get_name(graph, class)) {
                    Ok(name) => name,
                    Err(error) => {
                        return Err(error);
                    },
                };
                let mut typ = String::from_str("*mut ");
                typ.append(name.as_str());
                Self::simple(POINTER_SIZE, typ.as_str())
            },
        }
    }

    /// Classifies `property`.
    pub fn try_from(graph: &Graph, classes: &PropertyClasses, property: usize) -> (info: Result<
        PropertyInfo,
        Error,
    >)
        ensures
            info_is(
                info,
                classified(graph, classes, property, graph.objects.data.len() as nat),
            ),
    {
        Self::classify(graph, classes, property, graph.objects.data.len())
    }

    /// Classifies `property`, with arrays and maps nested no deeper than
    /// `depth`.
    pub fn classify(graph: &Graph, classes: &PropertyClasses, property: usize, depth: usize) -> (info:
        Result<PropertyInfo, Error>)
        ensures
            info_is(info, classified(graph, classes, property, depth as nat)),
        decreases depth,
    {
        let address = graph.address_of(Some(property));
        let node = match graph.node(Some(property)) {
            Some(node) => node,
            None => {
                assert(graph.class_chain(property) =~= Seq::<usize>::empty());
                return Err(Error::UnknownProperty(address));
            },
        };
        if graph.is(property, classes.array_property) {
            let inner = match node.inner() {
                Some(inner) => inner,
                None => {
                    return Err(Error::NullArrayInner(address));
                },
            };
            if depth == 0 {
                return Err(Error::UnknownProperty(graph.address_of(Some(inner))));
            }
            let item = match Self::classify(graph, classes, inner, depth - 1) {
                Ok(item) => item,
                Err(error) => {
                    return Err(error);
                },
            };
            let mut typ = String::from_str("Array<");
            typ.append(item.field_type.as_str());
            typ.append(">");
            Self::commented(ARRAY_SIZE, typ.as_str(), item.comment.as_str())
        } else if graph.is(property, classes.bool_property) {
            Self::simple(BOOL_SIZE, "u32")
        } else if graph.is(property, classes.byte_property) {
            match node.enumeration() {
                None => Self::simple(1, "u8"),
                Some(enumeration) => {
                    match Self::named(helper::resolve_duplicate(graph, enumeration)) {
                        Ok(name) => Self::simple(1, name.as_str()),
                        Err(error) => Err(error),
                    }
                },
            }
        } else if graph.is(property, classes.class_property) {
            Self::pointer(graph, node.meta_class(), Error::NullMetaClass(address))
        } else if graph.is(property, classes.delegate_property) {
            Self::simple(DELEGATE_SIZE, "ScriptDelegate")
        } else if graph.is(property, classes.float_property) {
            Self::simple(4, "f32")
        } else if graph.is(property, classes.int_property) {
            Self::simple(4, "i32")
        } else if graph.is(property, classes.interface_property) {
            Self::pointer(graph, node.interface_class(), Error::NullInterfaceClass(address))
        } else if graph.is(property, classes.map_property) {
            let key = match node.key() {
                Some(key) => key,
                None => {
                    return Err(Error::NullMapKeyProperty(address));
                },
            };
            let value = match node.value() {
                Some(value) => value,
                None => {
                    return Err(Error::NullMapValueProperty(address));
                },
            };
            if depth == 0 {
                return Err(Error::UnknownProperty(graph.address_of(Some(key))));
            }
            let key = match Self::classify(graph, classes, key, depth - 1) {
                Ok(key) => key,
                Err(error) => {
                    return Err(error);
                },
            };
            let value = match Self::classify(graph, classes, value, depth - 1) {
                Ok(value) => value,
                Err(error) => {
                    return Err(error);
                },
            };
            let mut comment = String::from_str("Map<");
            comment.append(key.field_type.as_str());
            comment.append(", ");
            comment.append(value.field_type.as_str());
            comment.append(">");
            Self::commented(MAP_SIZE_BYTES, "[u8; 60]", comment.as_str())
        } else if graph.is(property, classes.name_property) {
            Self::simple(NAME_SIZE, "NameIndex")
        } else if graph.is(property, classes.object_property) {
            Self::pointer(graph, node.property_class(), Error::NullPropertyClass(address))
        } else if graph.is(property, classes.str_property) {
            Self::simple(ARRAY_SIZE, "FString")
        } else if graph.is(property, classes.struct_property) {
            let inner = match node.inner_struct() {
                Some(inner) => inner,
                None => {
                    return Err(Error::NullPropertyStruct(address));
                },
            };
            let size = graph.declared_size(Some(inner));
            match Self::named(helper::resolve_duplicate(graph, inner)) {
                Ok(name) => Self::simple(size as u32, name.as_str()),
                Err(error) => Err(error),
            }
        } else {
            Err(Error::UnknownProperty(address))
        }
    }

    /// The type, with the comment behind it where there is one.
    pub fn into_type(self) -> (typ: Result<BoundedString, Error>)
        ensures
            bounded_is(typ, typed_text(self@)),
    {
        if self.comment.is_empty() {
            Ok(self.field_type)
        } else {
            let parts: Vec<&str> = vec![
                self.field_type.as_str(),
                " /* ",
                self.comment.as_str(),
                " */",
            ];
            proof {
                lemma_concat_parts(
                    self.field_type@,
                    " /* "@,
                    self.comment@,
                    " */"@,
                    Seq::empty(),
                );
                assert(texts(parts@) =~= seq![self.field_type@, " /* "@, self.comment@, " */"@]);
            }
            match BoundedString::concat(&parts) {
                Some(typ) => Ok(typ),
                None => Err(Error::StringCapacity),
            }
        }
    }

    /// The type of an array of `dimensions` items of the type.
    pub fn into_array_type(self, dimensions: u32) -> (typ: Result<BoundedString, Error>)
        ensures
            bounded_is(typ, array_text(self@, dimensions)),
    {
        let typ = match self.into_type() {
            Ok(typ) => typ,
            Err(error) => {
                return Err(error);
            },
        };
        let mut count = String::new();
        push_decimal(&mut count, dimensions as u64);
        assert(count@ =~= decimal(dimensions as nat));
        let parts: Vec<&str> = vec!["[", typ.as_str(), "; ", count.as_str(), "]"];
        proof {
            lemma_concat_parts("["@, typ@, "; "@, count@, "]"@);
            assert(texts(parts@) =~= seq!["["@, typ@, "; "@, count@, "]"@]);
        }
        match BoundedString::concat(&parts) {
            Some(typ) => Ok(typ),
            None => Err(Error::StringCapacity),
        }
    }
}

} // verus!
