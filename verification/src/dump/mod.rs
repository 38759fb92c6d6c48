//! From the reflection graph to source text.
//!
//! One pass over the object table writes one block per object: a comment for
//! a constant, the variants of an enum, the fields of a struct with the
//! accessors of its booleans, and for a class also the wrappers of its
//! functions. An object that cannot be reconstructed leaves no text; its
//! error is handed back with the place of the object in the table.

use vstd::prelude::*;
use vstd::string::*;
use crate::dump::enums::{enumeration_written, write_enumeration};
use crate::dump::error::{Error, ErrorView};
use crate::dump::method::{
    add_method, method_for, method_of, method_text, Method, MethodView,
};
use crate::dump::names::NameCounts;
use crate::dump::structure::{
    described, emit_structure, find_static_classes, reconstruct, static_classes_of,
    structure_text, StaticClasses,
};
use crate::game::{used_slots, Graph, Node, Step};
use crate::genial::{close_text, line_text, Gen, Scope, Writer, WriterWrapper, INDENT};
use crate::text::{chars_of, string_of};

pub mod bitfield;
pub mod bounded;
pub mod enums;
pub mod error;
pub mod helper;
pub mod layout;
pub mod method;
pub mod names;
pub mod order;
pub mod property_info;
pub mod structure;

verus! {

/// The attributes that the emitted source begins with.
pub open spec fn crate_attributes() -> Seq<char> {
    "#![allow(bindings_with_variant_name)]\n#![allow(clippy::doc_markdown)]\n#![allow(dead_code)]\n#![allow(non_camel_case_types)]\n#![allow(non_snake_case)]\n"@
}

/// The imports that the emitted source needs.
pub open spec fn imports() -> Seq<char> {
    "use crate::GLOBAL_OBJECTS;\nuse crate::game::{self, Array, FString, NameIndex, ScriptDelegate, ScriptInterface};\nuse crate::hook::bitfield::{is_bit_set, set_bit};\nuse std::mem::MaybeUninit;\nuse std::ops::{Deref, DerefMut};\n"@
}

/// Writes the attributes that the emitted source begins with.
pub fn add_crate_attributes(scope: &Scope, sink: &mut String)
    ensures
        final(sink)@ == old(sink)@ + line_text(scope.level(), crate_attributes()),
{
    scope.line(
        sink,
        "#![allow(bindings_with_variant_name)]\n#![allow(clippy::doc_markdown)]\n#![allow(dead_code)]\n#![allow(non_camel_case_types)]\n#![allow(non_snake_case)]\n",
    );
}

/// Writes the imports that the emitted source needs.
pub fn add_imports(scope: &Scope, sink: &mut String)
    ensures
        final(sink)@ == old(sink)@ + line_text(scope.level(), imports()),
{
    scope.line(
        sink,
        "use crate::GLOBAL_OBJECTS;\nuse crate::game::{self, Array, FString, NameIndex, ScriptDelegate, ScriptInterface};\nuse crate::hook::bitfield::{is_bit_set, set_bit};\nuse std::mem::MaybeUninit;\nuse std::ops::{Deref, DerefMut};\n",
    );
}

/// The value without the zero character that ends a string of the runtime.
pub open spec fn printable(value: Seq<char>) -> Seq<char> {
    if value.len() > 0 && value.last() == '\0' {
        value.drop_last()
    } else {
        value
    }
}

/// The value without the zero character that ends a string of the runtime.
pub fn trim_terminator(value: &str) -> (trimmed: String)
    ensures
        trimmed@ == printable(value@),
{
    let chars = chars_of(value);
    let n = chars.len();
    if n > 0 && chars[n - 1] == '\0' {
        assert(chars@.subrange(0, n - 1) =~= chars@.drop_last());
        string_of(&chars, 0, n - 1)
    } else {
        assert(chars@.subrange(0, n as int) =~= chars@);
        string_of(&chars, 0, n)
    }
}

/// The value of the constant behind `object`: empty for a node that was not
/// read as a constant, and the error that names the constant where its value
/// is no text.
pub open spec fn value_of(graph: &Graph, object: usize) -> Result<Seq<char>, ErrorView> {
    match graph.spec_node(Some(object)) {
        Some(Node::Const(c)) => match c.value {
            Some(value) => Ok(printable(value@)),
            None => Err(ErrorView::StringConversion(graph.spec_address_of(Some(object)))),
        },
        _ => Ok(Seq::empty()),
    }
}

/// What the emitted source has for the constant behind `object`: a comment
/// with the name of the object that holds it, its own name and its value.
#[verifier::opaque]
pub open spec fn constant_written(graph: &Graph, level: nat, object: usize) -> Result<
    Seq<char>,
    ErrorView,
> {
    let outer = graph.spec_follow(Some(object), Step::Outer);
    match value_of(graph, object) {
        Err(error) => Err(error),
        Ok(value) => if graph.spec_node(outer) is None {
            Err(ErrorView::ConstOuter(graph.spec_address_of(Some(object))))
        } else {
            match helper::name_of(graph, outer.unwrap()) {
                Err(error) => Err(ErrorView::Helper(error)),
                Ok(holder) => match helper::name_of(graph, object) {
                    Err(error) => Err(ErrorView::Helper(error)),
                    Ok(name) => Ok(
                        line_text(
                            level,
                            "// "@ + holder + "_"@ + name + " = "@ + value + "\n"@,
                        ),
                    ),
                },
            }
        },
    }
}

/// Writes the comment for the constant behind `object`; writes nothing where
/// the value or a name is missing.
pub fn write_constant(sdk: &Scope, sink: &mut String, graph: &Graph, object: usize) -> (written:
    Result<(), Error>)
    ensures
        match written {
            Ok(_) => constant_written(graph, sdk.level(), object) is Ok && final(sink)@ == old(
                sink,
            )@ + constant_written(graph, sdk.level(), object)->Ok_0,
            Err(error) => constant_written(graph, sdk.level(), object) == Err::<
                Seq<char>,
                ErrorView,
            >(error@) && final(sink)@ == old(sink)@,
        },
{
    reveal(constant_written);
    let value = match graph.node(Some(object)) {
        Some(Node::Const(c)) => match &c.value {
            Some(value) => trim_terminator(value.as_str()),
            None => {
                return Err(Error::StringConversion(graph.address_of(Some(object))));
            },
        },
        _ => String::new(),
    };
    let outer = graph.follow(Some(object), Step::Outer);
    if graph.node(outer).is_none() {
        return Err(Error::ConstOuter(graph.address_of(Some(object))));
    }
    let holder = match helper::get_name(graph, outer.unwrap()) {
        Ok(holder) => holder,
        Err(error) => {
            return Err(Error::Helper(error));
        },
    };
    let name = match helper::get_name(graph, object) {
        Ok(name) => name,
        Err(error) => {
            return Err(Error::Helper(error));
        },
    };
    let mut comment = String::from_str("// ");
    comment.append(holder.as_str());
    comment.append("_");
    comment.append(name.as_str());
    comment.append(" = ");
    comment.append(value.as_str());
    comment.append("\n");
    sdk.line(sink, comment.as_str());
    Ok(())
}

/// The functions among `children`, in the order of `children`.
pub open spec fn functions_among(graph: &Graph, classes: &StaticClasses, children: Seq<usize>) -> Seq<
    usize,
>
    decreases children.len(),
{
    if children.len() == 0 {
        Seq::empty()
    } else if graph.spec_is(children.last(), classes.function) {
        functions_among(graph, classes, children.drop_last()).push(children.last())
    } else {
        functions_among(graph, classes, children.drop_last())
    }
}

/// The functions of the class, in the order of their declaration.
pub fn get_methods(graph: &Graph, classes: &StaticClasses, class: usize) -> (methods: Vec<usize>)
    ensures
        methods@ == functions_among(graph, classes, graph.children_of(class)),
{
    let children = graph.iter_children(class);
    let mut methods: Vec<usize> = Vec::new();
    let mut i: usize = 0;
    assert(children@.subrange(0, 0) =~= Seq::<usize>::empty());
    while i < children.len()
        invariant
            i <= children.len(),
            methods@ == functions_among(graph, classes, children@.subrange(0, i as int)),
        decreases children.len() - i,
    {
        assert(children@.subrange(0, i + 1).drop_last() =~= children@.subrange(0, i as int));
        assert(children@.subrange(0, i + 1).last() == children@[i as int]);
        if graph.is(children[i], classes.function) {
            methods.push(children[i]);
        }
        i = i + 1;
    }
    assert(children@.subrange(0, children.len() as int) =~= children@);
    methods
}

/// The names of the functions in the graph.
pub open spec fn method_bases(methods: Seq<MethodView>) -> Seq<Seq<char>> {
    Seq::new(methods.len(), |i: int| methods[i].base)
}

/// The functions, their texts as characters.
pub open spec fn method_views(methods: Seq<Method>) -> Seq<MethodView> {
    Seq::new(methods.len(), |i: int| methods[i]@)
}

/// The functions behind `methods` as one class has them, or the error of the
/// first of them that has one.
pub open spec fn methods_of(graph: &Graph, classes: &StaticClasses, methods: Seq<usize>) -> Result<
    Seq<MethodView>,
    ErrorView,
>
    decreases methods.len(),
{
    if methods.len() == 0 {
        Ok(Seq::empty())
    } else {
        match methods_of(graph, classes, methods.drop_last()) {
            Err(error) => Err(error),
            Ok(before) => match method_of(graph, classes, methods.last(), method_bases(before)) {
                Err(error) => Err(error),
                Ok(method) => Ok(before.push(method)),
            },
        }
    }
}

/// A lookup that fails for the first `upto` functions fails the same way for
/// all.
proof fn lemma_methods_error(graph: &Graph, classes: &StaticClasses, methods: Seq<usize>, upto: int)
    requires
        0 <= upto <= methods.len(),
        methods_of(graph, classes, methods.subrange(0, upto)) is Err,
    ensures
        methods_of(graph, classes, methods) == methods_of(
            graph,
            classes,
            methods.subrange(0, upto),
        ),
    decreases methods.len() - upto,
{
    if upto == methods.len() {
        assert(methods.subrange(0, upto) =~= methods);
    } else {
        assert(methods.subrange(0, upto + 1).drop_last() =~= methods.subrange(0, upto));
        lemma_methods_error(graph, classes, methods, upto + 1);
    }
}

/// Describes the functions behind `methods`, in their order.
pub fn methods_for(graph: &Graph, classes: &StaticClasses, methods: &Vec<usize>) -> (described:
    Result<Vec<Method>, Error>)
    ensures
        match described {
            Ok(described) => methods_of(graph, classes, methods@) == Ok::<
                Seq<MethodView>,
                ErrorView,
            >(method_views(described@)),
            Err(error) => methods_of(graph, classes, methods@) == Err::<
                Seq<MethodView>,
                ErrorView,
            >(error@),
        },
{
    let mut counts = NameCounts::new();
    let mut described: Vec<Method> = Vec::new();
    let mut i: usize = 0;
    assert(methods@.subrange(0, 0) =~= Seq::<usize>::empty());
    assert(method_views(described@) =~= Seq::<MethodView>::empty());
    assert(method_bases(method_views(described@)) =~= counts@);
    while i < methods.len()
        invariant
            i <= methods.len(),
            methods_of(graph, classes, methods@.subrange(0, i as int)) == Ok::<
                Seq<MethodView>,
                ErrorView,
            >(method_views(described@)),
            counts@ == method_bases(method_views(described@)),
        decreases methods.len() - i,
    {
        assert(methods@.subrange(0, i + 1).drop_last() =~= methods@.subrange(0, i as int));
        assert(methods@.subrange(0, i + 1).last() == methods@[i as int]);
        let ghost before = method_views(described@);
        match method_for(graph, classes, methods[i], &mut counts) {
            Ok(method) => {
                described.push(method);
                assert(method_views(described@) =~= before.push(method@));
                assert(counts@ =~= method_bases(method_views(described@)));
            },
            Err(error) => {
                proof {
                    lemma_methods_error(graph, classes, methods@, i + 1);
                }
                return Err(error);
            },
        }
        i = i + 1;
    }
    assert(methods@.subrange(0, methods.len() as int) =~= methods@);
    Ok(described)
}

/// The wrappers, one after the other.
pub open spec fn methods_text(level: nat, methods: Seq<MethodView>) -> Seq<char>
    decreases methods.len(),
{
    if methods.len() == 0 {
        Seq::empty()
    } else {
        methods_text(level, methods.drop_last()) + method_text(level, methods.last())
    }
}

/// The impl block of the class `name` with the wrappers of its functions.
#[verifier::opaque]
pub open spec fn impl_text(level: nat, name: Seq<char>, methods: Seq<MethodView>) -> Seq<char> {
    line_text(level, "impl "@ + name + " {"@) + methods_text(level + INDENT as nat, methods)
        + close_text(level + INDENT as nat)
}

/// What the emitted source has for the functions of the class behind
/// `class`.
#[verifier::opaque]
pub open spec fn methods_written(graph: &Graph, classes: &StaticClasses, level: nat, class: usize) -> Result<
    Seq<char>,
    ErrorView,
> {
    match helper::resolved_name(graph, class) {
        Err(error) => Err(ErrorView::Helper(error)),
        Ok(name) => match methods_of(
            graph,
            classes,
            functions_among(graph, classes, graph.children_of(class)),
        ) {
            Err(error) => Err(error),
            Ok(methods) => Ok(impl_text(level, name, methods)),
        },
    }
}

/// Writes the impl block of the class `name` with the wrappers `methods`.
pub fn emit_methods(sdk: &Scope, sink: &mut String, name: &str, methods: &Vec<Method>)
    requires
        sdk.level() + 4 * INDENT <= usize::MAX,
    ensures
        final(sink)@ == old(sink)@ + impl_text(sdk.level(), name@, method_views(methods@)),
{
    reveal(impl_text);
    let ghost all = method_views(methods@);
    let impl_gen = sdk.imp(sink, name);
    let ghost opened = sink@;
    let mut i: usize = 0;
    assert(all.subrange(0, 0) =~= Seq::<MethodView>::empty());
    assert(sink@ =~= opened + methods_text(impl_gen.level(), all.subrange(0, 0)));
    while i < methods.len()
        invariant
            i <= methods.len(),
            all == method_views(methods@),
            impl_gen.level() + 3 * INDENT <= usize::MAX,
            sink@ == opened + methods_text(impl_gen.level(), all.subrange(0, i as int)),
        decreases methods.len() - i,
    {
        assert(all.subrange(0, i + 1).drop_last() =~= all.subrange(0, i as int));
        assert(all.subrange(0, i + 1).last() == methods@[i as int]@);
        add_method(&impl_gen, sink, &methods[i]);
        i = i + 1;
        assert(sink@ =~= opened + methods_text(impl_gen.level(), all.subrange(0, i as int)));
    }
    assert(all.subrange(0, methods.len() as int) =~= all);
    impl_gen.close(sink);
    assert(final(sink)@ =~= old(sink)@ + impl_text(sdk.level(), name@, all));
}

/// Writes the wrappers of the functions of the class behind `class`; writes
/// nothing where one of them cannot be described.
pub fn add_methods(
    sdk: &Scope,
    sink: &mut String,
    graph: &Graph,
    classes: &StaticClasses,
    class: usize,
) -> (written: Result<(), Error>)
    requires
        sdk.level() + 4 * INDENT <= usize::MAX,
    ensures
        match written {
            Ok(_) => methods_written(graph, classes, sdk.level(), class) is Ok && final(sink)@
                == old(sink)@ + methods_written(graph, classes, sdk.level(), class)->Ok_0,
            Err(error) => methods_written(graph, classes, sdk.level(), class) == Err::<
                Seq<char>,
                ErrorView,
            >(error@) && final(sink)@ == old(sink)@,
        },
{
    reveal(methods_written);
    let name = match helper::resolve_duplicate(graph, class) {
        Ok(name) => name,
        Err(error) => {
            return Err(Error::Helper(error));
        },
    };
    let functions = get_methods(graph, classes, class);
    let methods = match methods_for(graph, classes, &functions) {
        Ok(methods) => methods,
        Err(error) => {
            return Err(error);
        },
    };
    emit_methods(sdk, sink, name.as_str(), &methods);
    Ok(())
}

/// What the emitted source has for the struct behind `object`.
#[verifier::opaque]
pub open spec fn structure_written(graph: &Graph, classes: &StaticClasses, level: nat, object: usize) -> Result<
    Seq<char>,
    ErrorView,
> {
    match described(graph, classes, object) {
        Err(error) => Err(error),
        Ok(d) => Ok(structure_text(level, d)),
    }
}

/// What the emitted source has for the class behind `object`: the struct of
/// its fields, then the wrappers of its functions.
#[verifier::opaque]
pub open spec fn class_written(graph: &Graph, classes: &StaticClasses, level: nat, object: usize) -> Result<
    Seq<char>,
    ErrorView,
> {
    match structure_written(graph, classes, level, object) {
        Err(error) => Err(error),
        Ok(structure) => match methods_written(graph, classes, level, object) {
            Err(error) => Err(error),
            Ok(methods) => Ok(structure + methods),
        },
    }
}

/// Reconstructs the class behind `object` and writes it; writes nothing
/// where the reconstruction fails.
pub fn write_class(
    sdk: &Scope,
    sink: &mut String,
    graph: &Graph,
    classes: &StaticClasses,
    object: usize,
) -> (written: Result<(), Error>)
    requires
        sdk.level() + 4 * INDENT <= usize::MAX,
    ensures
        match written {
            Ok(_) => class_written(graph, classes, sdk.level(), object) is Ok && final(sink)@
                == old(sink)@ + class_written(graph, classes, sdk.level(), object)->Ok_0,
            Err(error) => class_written(graph, classes, sdk.level(), object) == Err::<
                Seq<char>,
                ErrorView,
            >(error@) && final(sink)@ == old(sink)@,
        },
{
    reveal(structure_written);
    reveal(class_written);
    let descriptor = match reconstruct(graph, classes, object) {
        Ok(descriptor) => descriptor,
        Err(error) => {
            return Err(error);
        },
    };
    let mut methods = String::new();
    match add_methods(sdk, &mut methods, graph, classes, object) {
        Ok(_) => {},
        Err(error) => {
            return Err(error);
        },
    }
    let ghost start = sink@;
    emit_structure(sdk, sink, descriptor);
    sink.append(methods.as_str());
    assert(methods@ =~= methods_written(graph, classes, sdk.level(), object)->Ok_0);
    assert(sink@ =~= start + class_written(graph, classes, sdk.level(), object)->Ok_0);
    Ok(())
}

/// What the emitted source has for `object`, by the kind of the object: a
/// constant, an enum, a struct or a class; nothing for any other object.
#[verifier::opaque]
pub open spec fn object_written(graph: &Graph, classes: &StaticClasses, level: nat, object: usize) -> Result<
    Seq<char>,
    ErrorView,
> {
    if graph.spec_is(object, classes.constant) {
        constant_written(graph, level, object)
    } else if graph.spec_is(object, classes.enumeration) {
        enumeration_written(graph, level, object)
    } else if graph.spec_is(object, classes.structure) {
        structure_written(graph, classes, level, object)
    } else if graph.spec_is(object, classes.class) {
        class_written(graph, classes, level, object)
    } else {
        Ok(Seq::empty())
    }
}

/// Reconstructs `object` and writes it; writes nothing where the
/// reconstruction fails.
pub fn write_object(
    sdk: &Scope,
    sink: &mut String,
    graph: &Graph,
    classes: &StaticClasses,
    object: usize,
) -> (written: Result<(), Error>)
    requires
        sdk.level() + 4 * INDENT <= usize::MAX,
    ensures
        match written {
            Ok(_) => object_written(graph, classes, sdk.level(), object) is Ok && final(sink)@
                == old(sink)@ + object_written(graph, classes, sdk.level(), object)->Ok_0,
            Err(error) => object_written(graph, classes, sdk.level(), object) == Err::<
                Seq<char>,
                ErrorView,
            >(error@) && final(sink)@ == old(sink)@,
        },
{
    reveal(object_written);
    reveal(structure_written);
    if graph.is(object, classes.constant) {
        write_constant(sdk, sink, graph, object)
    } else if graph.is(object, classes.enumeration) {
        write_enumeration(sdk, sink, graph, object)
    } else if graph.is(object, classes.structure) {
        crate::dump::structure::write_structure(sdk, sink, graph, classes, object)
    } else if graph.is(object, classes.class) {
        write_class(sdk, sink, graph, classes, object)
    } else {
        assert(sink@ =~= old(sink)@ + Seq::<char>::empty());
        Ok(())
    }
}

/// An object that could not be reconstructed, by its place in the table.
#[derive(Debug)]
pub struct Failure {
    pub object: usize,
    pub error: Error,
}

/// An object that could not be reconstructed, the texts of its error as
/// characters.
pub struct FailureView {
    pub object: usize,
    pub error: ErrorView,
}

impl View for Failure {
    type V = FailureView;

    open spec fn view(&self) -> FailureView {
        FailureView { object: self.object, error: self.error@ }
    }
}

/// The failures, the texts of their errors as characters.
pub open spec fn failure_views(failures: Seq<Failure>) -> Seq<FailureView> {
    Seq::new(failures.len(), |i: int| failures[i]@)
}

/// What the emitted source has for the objects `objects`, one after the
/// other; an object that cannot be reconstructed leaves nothing.
pub open spec fn objects_text(graph: &Graph, classes: &StaticClasses, objects: Seq<usize>) -> Seq<
    char,
>
    decreases objects.len(),
{
    if objects.len() == 0 {
        Seq::empty()
    } else {
        objects_text(graph, classes, objects.drop_last()) + match object_written(
            graph,
            classes,
            0,
            objects.last(),
        ) {
            Ok(text) => text,
            Err(_) => Seq::empty(),
        }
    }
}

/// Those of the objects `objects` that cannot be reconstructed, each with
/// its error, in the order of `objects`.
pub open spec fn failures_of(graph: &Graph, classes: &StaticClasses, objects: Seq<usize>) -> Seq<
    FailureView,
>
    decreases objects.len(),
{
    if objects.len() == 0 {
        Seq::empty()
    } else {
        match object_written(graph, classes, 0, objects.last()) {
            Ok(_) => failures_of(graph, classes, objects.drop_last()),
            Err(error) => failures_of(graph, classes, objects.drop_last()).push(
                FailureView { object: objects.last(), error },
            ),
        }
    }
}

/// The emitted source for the whole graph: the attributes, the imports, and
/// the objects in the order of the table.
pub open spec fn artifact(graph: &Graph, classes: &StaticClasses) -> Seq<char> {
    line_text(0, crate_attributes()) + line_text(0, imports()) + objects_text(
        graph,
        classes,
        used_slots(graph.objects.data@, graph.objects.data.len() as int),
    )
}

/// Whether a run over `graph` that ended with `result` has turned the text
/// `before` into the text `after`.
///
/// Where the classes by which the kinds are told are found, the run appends
/// the emitted source for the whole graph and hands back the objects that it
/// had to leave out. Where one of them is missing, the run fails with the
/// error that names it and appends nothing.
pub open spec fn is_run(
    graph: &Graph,
    before: Seq<char>,
    after: Seq<char>,
    result: Result<Seq<FailureView>, ErrorView>,
) -> bool {
    match static_classes_of(graph) {
        Err(error) => result == Err::<Seq<FailureView>, ErrorView>(error) && after == before,
        Ok(classes) => {
            &&& after == before + artifact(graph, &classes)
            &&& result == Ok::<Seq<FailureView>, ErrorView>(
                failures_of(
                    graph,
                    &classes,
                    used_slots(graph.objects.data@, graph.objects.data.len() as int),
                ),
            )
        },
    }
}

/// The result of a run, the texts of its errors as characters.
pub open spec fn run_view(result: Result<Vec<Failure>, Error>) -> Result<Seq<FailureView>, ErrorView> {
    match result {
        Ok(failures) => Ok(failure_views(failures@)),
        Err(error) => Err(error@),
    }
}

/// Writes the source for the objects `objects` and hands back those that
/// could not be reconstructed.
pub fn write_objects(
    scope: &Scope,
    sink: &mut String,
    graph: &Graph,
    classes: &StaticClasses,
    objects: &Vec<usize>,
) -> (failures: Vec<Failure>)
    requires
        scope.level() == 0,
    ensures
        final(sink)@ == old(sink)@ + objects_text(graph, classes, objects@),
        failure_views(failures@) == failures_of(graph, classes, objects@),
{
    let mut failures: Vec<Failure> = Vec::new();
    let mut i: usize = 0;
    assert(objects@.subrange(0, 0) =~= Seq::<usize>::empty());
    assert(sink@ =~= old(sink)@ + objects_text(graph, classes, objects@.subrange(0, 0)));
    assert(failure_views(failures@) =~= failures_of(graph, classes, objects@.subrange(0, 0)));
    while i < objects.len()
        invariant
            i <= objects.len(),
            scope.level() == 0,
            sink@ == old(sink)@ + objects_text(graph, classes, objects@.subrange(0, i as int)),
            failure_views(failures@) == failures_of(
                graph,
                classes,
                objects@.subrange(0, i as int),
            ),
        decreases objects.len() - i,
    {
        assert(objects@.subrange(0, i + 1).drop_last() =~= objects@.subrange(0, i as int));
        assert(objects@.subrange(0, i + 1).last() == objects@[i as int]);
        let ghost before = failure_views(failures@);
        let ghost written = sink@;
        match write_object(scope, sink, graph, classes, objects[i]) {
            Ok(_) => {},
            Err(error) => {
                let failure = Failure { object: objects[i], error };
                failures.push(failure);
                assert(failure_views(failures@) =~= before.push(failure@));
                assert(sink@ =~= written + Seq::<char>::empty());
            },
        }
        i = i + 1;
        assert(sink@ =~= old(sink)@ + objects_text(
            graph,
            classes,
            objects@.subrange(0, i as int),
        ));
    }
    assert(objects@.subrange(0, objects.len() as int) =~= objects@);
    failures
}

/// Writes the source for the whole graph to `sink` and hands back the
/// objects that could not be reconstructed.
pub fn sdk(graph: &Graph, sink: &mut String) -> (result: Result<Vec<Failure>, Error>)
    ensures
        is_run(graph, old(sink)@, final(sink)@, run_view(result)),
{
    let classes = match find_static_classes(graph) {
        Ok(classes) => classes,
        Err(error) => {
            return Err(error);
        },
    };
    let scope = Scope::new(Writer::new());
    add_crate_attributes(&scope, sink);
    add_imports(&scope, sink);
    let objects = graph.objects.iter();
    let failures = write_objects(&scope, sink, graph, &classes, &objects);
    assert(sink@ =~= old(sink)@ + artifact(graph, &classes));
    Ok(failures)
}

/// Two runs over one graph that begin with the same text end with the same
/// text and leave out the same objects for the same reasons.
pub proof fn lemma_runs_agree(
    graph: &Graph,
    before: Seq<char>,
    first: Seq<char>,
    first_result: Result<Seq<FailureView>, ErrorView>,
    second: Seq<char>,
    second_result: Result<Seq<FailureView>, ErrorView>,
)
    requires
        is_run(graph, before, first, first_result),
        is_run(graph, before, second, second_result),
    ensures
        first == second,
        first_result == second_result,
{
}

} // verus!
