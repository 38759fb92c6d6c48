//! The functions of a class as wrappers around the runtime's dispatch.
//!
//! A wrapper packs its inputs into a record laid out like the function's
//! parameters, hands the record to the dispatch entry point, and unpacks the
//! outputs into its result.

use vstd::prelude::*;
use vstd::string::*;
use crate::dump::error::{Error, ErrorView};
use crate::dump::helper;
use crate::dump::names::{
    get_unique_name, occurrences, scrub_reserved_name, scrubbed, unique_name, NameCounts,
};
use crate::dump::order::{lemma_sorted_members, sort_fields, sorted_fields, FieldKey};
use crate::dump::property_info;
use crate::dump::property_info::{classified, typed_text, PropertyInfo};
use crate::dump::structure::{key_of, measures, measures_of, StaticClasses};
use crate::game::{Graph, Node, OUT_PARAM, PARAM, RETURN_PARAM};
use crate::genial::{
    arg_views, block_close_text, close_text, function_ret_text, function_text, line_text,
    put_text, Arg, ArgView, BlockSuffix, Function, Gen, GenFunction, IfBlock, Impl, Visibility,
    WriterWrapper, INDENT,
};
use crate::text::str_eq;

verus! {

/// Which way a parameter passes its value.
#[derive(Clone, Copy, Debug, PartialEq, Eq, Structural)]
pub enum ParameterKind {
    Input,
    Output,
}

/// Which way a property with these flags passes its value, if it is a
/// parameter at all: what the function writes to or returns is an output,
/// any other parameter an input.
pub open spec fn kind_of(flags: u32) -> Option<ParameterKind> {
    if flags & OUT_PARAM != 0 || flags & RETURN_PARAM != 0 {
        Some(ParameterKind::Output)
    } else if flags & PARAM != 0 {
        Some(ParameterKind::Input)
    } else {
        None
    }
}

/// Which way a property with these flags passes its value.
pub fn parameter_kind(flags: u32) -> (kind: Option<ParameterKind>)
    ensures
        kind == kind_of(flags),
{
    if flags & OUT_PARAM != 0 || flags & RETURN_PARAM != 0 {
        Some(ParameterKind::Output)
    } else if flags & PARAM != 0 {
        Some(ParameterKind::Input)
    } else {
        None
    }
}

/// A parameter of a function.
#[derive(Debug)]
pub struct Parameter {
    /// What the place of the parameter in the record depends on.
    pub key: FieldKey,
    pub kind: ParameterKind,
    /// The name of the property, usable as an identifier.
    pub base: String,
    /// The name of the parameter, unique within the function.
    pub name: String,
    pub typ: String,
}

/// A parameter, its texts as characters.
pub struct ParameterView {
    pub key: FieldKey,
    pub kind: ParameterKind,
    pub base: Seq<char>,
    pub name: Seq<char>,
    pub typ: Seq<char>,
}

impl View for Parameter {
    type V = ParameterView;

    open spec fn view(&self) -> ParameterView {
        ParameterView {
            key: self.key,
            kind: self.kind,
            base: self.base@,
            name: self.name@,
            typ: self.typ@,
        }
    }
}

impl Parameter {
    pub fn clone(&self) -> (copy: Parameter)
        ensures
            copy@ == self@,
    {
        Parameter {
            key: self.key,
            kind: self.kind,
            base: self.base.clone(),
            name: self.name.clone(),
            typ: self.typ.clone(),
        }
    }
}

/// The parameters, their texts as characters.
pub open spec fn parameter_views(parameters: Seq<Parameter>) -> Seq<ParameterView> {
    Seq::new(parameters.len(), |i: int| parameters[i]@)
}

/// The names of the properties behind the parameters.
pub open spec fn bases_of(parameters: Seq<ParameterView>) -> Seq<Seq<char>> {
    Seq::new(parameters.len(), |i: int| parameters[i].base)
}

/// The type of a parameter: booleans, which a struct holds as bits of a
/// `u32`, are passed as `bool`.
pub open spec fn parameter_type(typ: Seq<char>) -> Seq<char> {
    if typ == "u32"@ {
        "bool"@
    } else {
        typ
    }
}

/// The child of a function as a parameter; `None` for a child that has no
/// size or is no parameter. `seen` are the names of the parameters before
/// it.
#[verifier::opaque]
pub open spec fn parameter_of(
    graph: &Graph,
    classes: &StaticClasses,
    child: usize,
    seen: Seq<Seq<char>>,
) -> Result<Option<ParameterView>, ErrorView> {
    let m = measures_of(graph, child);
    if m.element_size == 0 || kind_of(m.property_flags) is None {
        Ok(None)
    } else {
        match helper::name_of(graph, child) {
            Err(error) => Err(ErrorView::Helper(error)),
            Ok(name) => match classified(
                graph,
                &classes.properties,
                child,
                graph.objects.data.len() as nat,
            ) {
                Err(error) => Err(ErrorView::PropertyInfo(error)),
                Ok(info) => match typed_text(info) {
                    None => Err(ErrorView::PropertyInfo(property_info::Error::StringCapacity)),
                    Some(typ) => Ok(
                        Some(
                            ParameterView {
                                key: key_of(graph, classes, child),
                                kind: kind_of(m.property_flags).unwrap(),
                                base: scrubbed(name),
                                name: unique_name(
                                    scrubbed(name),
                                    occurrences(seen, scrubbed(name)),
                                ),
                                typ: parameter_type(typ),
                            },
                        ),
                    ),
                },
            },
        }
    }
}

/// The parameters among `children`, in the order of `children`, or the error
/// of the first child that has one.
pub open spec fn declared_parameters(graph: &Graph, classes: &StaticClasses, children: Seq<usize>) -> Result<
    Seq<ParameterView>,
    ErrorView,
>
    decreases children.len(),
{
    if children.len() == 0 {
        Ok(Seq::empty())
    } else {
        match declared_parameters(graph, classes, children.drop_last()) {
            Err(error) => Err(error),
            Ok(before) => match parameter_of(graph, classes, children.last(), bases_of(before)) {
                Err(error) => Err(error),
                Ok(None) => Ok(before),
                Ok(Some(parameter)) => Ok(before.push(parameter)),
            },
        }
    }
}

/// The keys of the parameters, each with the place of its parameter in
/// `parameters` for its node.
pub open spec fn place_keys(parameters: Seq<ParameterView>) -> Seq<FieldKey> {
    Seq::new(
        parameters.len(),
        |i: int| FieldKey { node: i as usize, ..parameters[i].key },
    )
}

/// The parameters in the order of the record that the dispatch reads: by
/// ascending offset, like the fields of a struct.
pub open spec fn ordered_parameters(parameters: Seq<ParameterView>) -> Seq<ParameterView> {
    Seq::new(
        parameters.len(),
        |i: int| parameters[sorted_fields(place_keys(parameters))[i].node as int],
    )
}

/// The parameters of the function behind `method`, in the order of the
/// record.
pub open spec fn parameters_of(graph: &Graph, classes: &StaticClasses, method: usize) -> Result<
    Seq<ParameterView>,
    ErrorView,
> {
    match declared_parameters(graph, classes, graph.children_of(method)) {
        Err(error) => Err(error),
        Ok(parameters) => Ok(ordered_parameters(parameters)),
    }
}

/// Makes a parameter of the child of a function.
pub fn parameter_for(
    graph: &Graph,
    classes: &StaticClasses,
    child: usize,
    counts: &mut NameCounts,
) -> (parameter: Result<Option<Parameter>, Error>)
    ensures
        match parameter {
            Ok(Some(parameter)) => parameter_of(graph, classes, child, old(counts)@) == Ok::<
                Option<ParameterView>,
                ErrorView,
            >(Some(parameter@)) && final(counts)@ == old(counts)@.push(parameter@.base),
            Ok(None) => parameter_of(graph, classes, child, old(counts)@) == Ok::<
                Option<ParameterView>,
                ErrorView,
            >(None) && final(counts)@ == old(counts)@,
            Err(error) => parameter_of(graph, classes, child, old(counts)@) == Err::<
                Option<ParameterView>,
                ErrorView,
            >(error@),
        },
{
    reveal(parameter_of);
    let m = measures(graph, child);
    if m.element_size == 0 {
        return Ok(None);
    }
    let kind = match parameter_kind(m.property_flags) {
        Some(kind) => kind,
        None => {
            return Ok(None);
        },
    };
    let name = match helper::get_name(graph, child) {
        Ok(name) => name,
        Err(error) => {
            return Err(Error::Helper(error));
        },
    };
    let base = String::from_str(scrub_reserved_name(name.as_str()));
    let info = match PropertyInfo::try_from(graph, &classes.properties, child) {
        Ok(info) => info,
        Err(error) => {
            return Err(Error::PropertyInfo(error));
        },
    };
    let typ = match info.into_type() {
        Ok(typ) => typ,
        Err(error) => {
            return Err(Error::PropertyInfo(error));
        },
    };
    let typ = if str_eq(typ.as_str(), "u32") {
        String::from_str("bool")
    } else {
        String::from_str(typ.as_str())
    };
    let unique = get_unique_name(counts, base.as_str());
    let bitmask = match graph.node(Some(child)) {
        Some(found) => found.bitmask(),
        None => 0,
    };
    let key = FieldKey {
        node: child,
        offset: m.offset,
        boolean: graph.is(child, classes.properties.bool_property),
        bitmask,
    };
    Ok(Some(Parameter { key, kind, base, name: unique, typ }))
}

/// A lookup that fails for the first `upto` children fails the same way for
/// all.
proof fn lemma_declared_error(graph: &Graph, classes: &StaticClasses, children: Seq<usize>, upto: int)
    requires
        0 <= upto <= children.len(),
        declared_parameters(graph, classes, children.subrange(0, upto)) is Err,
    ensures
        declared_parameters(graph, classes, children) == declared_parameters(
            graph,
            classes,
            children.subrange(0, upto),
        ),
    decreases children.len() - upto,
{
    if upto == children.len() {
        assert(children.subrange(0, upto) =~= children);
    } else {
        assert(children.subrange(0, upto + 1).drop_last() =~= children.subrange(0, upto));
        lemma_declared_error(graph, classes, children, upto + 1);
    }
}

/// Puts the parameters into the order of the record.
pub fn order_parameters(parameters: &Vec<Parameter>) -> (ordered: Vec<Parameter>)
    ensures
        parameter_views(ordered@) == ordered_parameters(parameter_views(parameters@)),
{
    let ghost views = parameter_views(parameters@);
    let mut keys: Vec<FieldKey> = Vec::new();
    let mut i: usize = 0;
    while i < parameters.len()
        invariant
            i <= parameters.len(),
            views == parameter_views(parameters@),
            keys@ == place_keys(views).subrange(0, i as int),
        decreases parameters.len() - i,
    {
        let key = parameters[i].key;
        keys.push(FieldKey { node: i, offset: key.offset, boolean: key.boolean, bitmask: key.bitmask });
        i = i + 1;
        assert(keys@ =~= place_keys(views).subrange(0, i as int));
    }
    assert(place_keys(views).subrange(0, parameters.len() as int) =~= place_keys(views));
    let sorted = sort_fields(&keys);
    proof {
        crate::dump::order::lemma_sorted_fields(keys@);
    }
    let mut ordered: Vec<Parameter> = Vec::new();
    let mut j: usize = 0;
    while j < sorted.len()
        invariant
            j <= sorted.len(),
            sorted.len() == parameters.len(),
            views == parameter_views(parameters@),
            keys@ == place_keys(views),
            sorted@ == sorted_fields(keys@),
            ordered.len() == j,
            parameter_views(ordered@) == ordered_parameters(views).subrange(0, j as int),
        decreases sorted.len() - j,
    {
        proof {
            lemma_sorted_members(keys@, j as int);
        }
        let place = sorted[j].node;
        let ghost before = parameter_views(ordered@);
        ordered.push(parameters[place].clone());
        j = j + 1;
        assert(parameter_views(ordered@) =~= before.push(views[place as int]));
        assert(parameter_views(ordered@) =~= ordered_parameters(views).subrange(0, j as int));
    }
    assert(ordered_parameters(views).subrange(0, sorted.len() as int) =~= ordered_parameters(
        views,
    ));
    ordered
}

/// The parameters of the function behind `method`, in the order of the
/// record.
pub fn parameters_for(graph: &Graph, classes: &StaticClasses, method: usize) -> (parameters: Result<
    Vec<Parameter>,
    Error,
>)
    ensures
        match parameters {
            Ok(parameters) => parameters_of(graph, classes, method) == Ok::<
                Seq<ParameterView>,
                ErrorView,
            >(parameter_views(parameters@)),
            Err(error) => parameters_of(graph, classes, method) == Err::<
                Seq<ParameterView>,
                ErrorView,
            >(error@),
        },
{
    let children = graph.iter_children(method);
    let mut counts = NameCounts::new();
    let mut declared: Vec<Parameter> = Vec::new();
    let mut i: usize = 0;
    assert(children@.subrange(0, 0) =~= Seq::<usize>::empty());
    assert(parameter_views(declared@) =~= Seq::<ParameterView>::empty());
    assert(bases_of(parameter_views(declared@)) =~= counts@);
    while i < children.len()
        invariant
            i <= children.len(),
            children@ == graph.children_of(method),
            declared_parameters(graph, classes, children@.subrange(0, i as int)) == Ok::<
                Seq<ParameterView>,
                ErrorView,
            >(parameter_views(declared@)),
            counts@ == bases_of(parameter_views(declared@)),
        decreases children.len() - i,
    {
        assert(children@.subrange(0, i + 1).drop_last() =~= children@.subrange(0, i as int));
        assert(children@.subrange(0, i + 1).last() == children@[i as int]);
        let ghost before = parameter_views(declared@);
        match parameter_for(graph, classes, children[i], &mut counts) {
            Ok(Some(parameter)) => {
                declared.push(parameter);
                assert(parameter_views(declared@) =~= before.push(parameter@));
                assert(counts@ =~= bases_of(parameter_views(declared@)));
            },
            Ok(None) => {},
            Err(error) => {
                proof {
                    lemma_declared_error(graph, classes, children@, i + 1);
                }
                return Err(error);
            },
        }
        i = i + 1;
    }
    assert(children@.subrange(0, children.len() as int) =~= children@);
    Ok(order_parameters(&declared))
}

/// How many of the parameters are outputs.
pub open spec fn count_outputs(parameters: Seq<ParameterView>) -> nat
    decreases parameters.len(),
{
    if parameters.len() == 0 {
        0
    } else {
        count_outputs(parameters.drop_last()) + if parameters.last().kind
            == ParameterKind::Output {
            1nat
        } else {
            0nat
        }
    }
}

/// The parameter list of the wrapper: the receiver and the inputs.
pub open spec fn method_args(parameters: Seq<ParameterView>) -> Seq<ArgView>
    decreases parameters.len(),
{
    if parameters.len() == 0 {
        seq![ArgView::Receiver("&mut self"@)]
    } else if parameters.last().kind == ParameterKind::Input {
        method_args(parameters.drop_last()).push(
            ArgView::NameType(parameters.last().name, parameters.last().typ),
        )
    } else {
        method_args(parameters.drop_last())
    }
}

/// The types of the outputs, separated by commas.
pub open spec fn output_types(parameters: Seq<ParameterView>) -> Seq<char>
    decreases parameters.len(),
{
    if parameters.len() == 0 {
        Seq::empty()
    } else if parameters.last().kind == ParameterKind::Output {
        if count_outputs(parameters.drop_last()) == 0 {
            parameters.last().typ
        } else {
            output_types(parameters.drop_last()) + ", "@ + parameters.last().typ
        }
    } else {
        output_types(parameters.drop_last())
    }
}

/// What reads the outputs from the record, separated by commas.
pub open spec fn output_values(parameters: Seq<ParameterView>) -> Seq<char>
    decreases parameters.len(),
{
    if parameters.len() == 0 {
        Seq::empty()
    } else if parameters.last().kind == ParameterKind::Output {
        if count_outputs(parameters.drop_last()) == 0 {
            "p."@ + parameters.last().name + ".assume_init()"@
        } else {
            output_values(parameters.drop_last()) + ", "@ + "p."@ + parameters.last().name
                + ".assume_init()"@
        }
    } else {
        output_values(parameters.drop_last())
    }
}

/// The return type of a wrapper with outputs: the one output, or the tuple
/// of all, as an option.
pub open spec fn prototype(parameters: Seq<ParameterView>) -> Seq<char> {
    if count_outputs(parameters) == 1 {
        "Option<"@ + output_types(parameters) + ">"@
    } else {
        "Option<("@ + output_types(parameters) + ")>"@
    }
}

/// The fields of the record.
pub open spec fn record_fields_text(level: nat, parameters: Seq<ParameterView>) -> Seq<char>
    decreases parameters.len(),
{
    if parameters.len() == 0 {
        Seq::empty()
    } else {
        record_fields_text(level, parameters.drop_last()) + line_text(
            level,
            parameters.last().name + ": "@ + match parameters.last().kind {
                ParameterKind::Input => parameters.last().typ,
                ParameterKind::Output => "MaybeUninit<"@ + parameters.last().typ + ">"@,
            } + ","@,
        )
    }
}

/// The definition of the record.
#[verifier::opaque]
pub open spec fn record_text(level: nat, parameters: Seq<ParameterView>) -> Seq<char> {
    line_text(level, "#[repr(C)]"@) + line_text(
        level,
        Visibility::Public.text() + "struct "@ + "Parameters"@ + " {"@,
    ) + record_fields_text(level + INDENT as nat, parameters) + close_text(level + INDENT as nat)
}

/// The fields of the record's first value.
pub open spec fn init_fields_text(level: nat, parameters: Seq<ParameterView>) -> Seq<char>
    decreases parameters.len(),
{
    if parameters.len() == 0 {
        Seq::empty()
    } else {
        init_fields_text(level, parameters.drop_last()) + line_text(
            level,
            match parameters.last().kind {
                ParameterKind::Input => parameters.last().name + ","@,
                ParameterKind::Output => parameters.last().name + ": MaybeUninit::uninit(),"@,
            },
        )
    }
}

/// The record's first value: the inputs, and room for the outputs.
#[verifier::opaque]
pub open spec fn init_text(level: nat, parameters: Seq<ParameterView>) -> Seq<char> {
    line_text(level, "let mut p = Parameters "@ + "{"@) + init_fields_text(
        level + INDENT as nat,
        parameters,
    ) + block_close_text(level + INDENT as nat, BlockSuffix::Semicolon)
}

/// The call of the dispatch entry point; a native function is flagged for
/// the time of the call.
#[verifier::opaque]
pub open spec fn call_text(level: nat, native: bool) -> Seq<char> {
    line_text(level, "let old_flags = (*function).flags;"@) + if native {
        line_text(level, "(*function).flags |= 0x400;"@)
    } else {
        Seq::empty()
    } + line_text(
        level,
        "self.process_event(function, &mut p as *mut Parameters as *mut _);"@,
    ) + line_text(level, "(*function).flags = old_flags;\n"@)
}

/// The result of the wrapper: nothing without outputs, the one output, or
/// the tuple of all.
#[verifier::opaque]
pub open spec fn return_text(level: nat, parameters: Seq<ParameterView>) -> Seq<char> {
    if count_outputs(parameters) == 0 {
        Seq::empty()
    } else if count_outputs(parameters) == 1 {
        line_text(level, "Some("@ + output_values(parameters) + ")"@)
    } else {
        put_text(level, "Some(("@) + output_values(parameters) + "))\n"@
    }
}

/// What the wrapper does while it has not found its function yet: it looks
/// the function up by its full name, and has no result.
#[verifier::opaque]
pub open spec fn else_text(level: nat, full_name: Seq<char>, parameters: Seq<ParameterView>) -> Seq<
    char,
> {
    line_text((level - INDENT) as nat, "} "@ + "else"@ + " {"@) + line_text(
        level,
        "FUNCTION = (*GLOBAL_OBJECTS)"@,
    ) + line_text(level + INDENT as nat, ".find_mut(\""@ + full_name + "\")"@) + line_text(
        level + INDENT as nat,
        ".map(|o| o.cast());"@,
    ) + if count_outputs(parameters) > 0 {
        line_text(level, "None"@)
    } else {
        Seq::empty()
    }
}

/// A function of a class.
#[derive(Debug)]
pub struct Method {
    /// The name of the function in the graph.
    pub base: String,
    /// The name of the wrapper, unique within the class.
    pub name: String,
    pub full_name: String,
    pub native: bool,
    pub parameters: Vec<Parameter>,
}

/// A function of a class, its texts as characters.
pub struct MethodView {
    pub base: Seq<char>,
    pub name: Seq<char>,
    pub full_name: Seq<char>,
    pub native: bool,
    pub parameters: Seq<ParameterView>,
}

impl View for Method {
    type V = MethodView;

    open spec fn view(&self) -> MethodView {
        MethodView {
            base: self.base@,
            name: self.name@,
            full_name: self.full_name@,
            native: self.native,
            parameters: parameter_views(self.parameters@),
        }
    }
}

/// The first line of the wrapper.
#[verifier::opaque]
pub open spec fn header_text(level: nat, m: MethodView) -> Seq<char> {
    if count_outputs(m.parameters) == 0 {
        function_text(level, "pub unsafe "@, m.name, method_args(m.parameters))
    } else {
        function_ret_text(
            level,
            "pub unsafe "@,
            m.name,
            method_args(m.parameters),
            prototype(m.parameters),
        )
    }
}

/// What the wrapper does once it has found its function.
#[verifier::opaque]
pub open spec fn then_text(level: nat, m: MethodView) -> Seq<char> {
    record_text(level, m.parameters) + init_text(level, m.parameters) + call_text(
        level,
        m.native,
    ) + return_text(level, m.parameters)
}

/// The body of the wrapper.
#[verifier::opaque]
pub open spec fn body_text(level: nat, m: MethodView) -> Seq<char> {
    line_text(level, "static mut FUNCTION: Option<*mut game::Function> = None;\n"@) + line_text(
        level,
        "if let Some(function) = FUNCTION"@ + " {"@,
    ) + then_text(level + INDENT as nat, m) + else_text(
        level + INDENT as nat,
        m.full_name,
        m.parameters,
    ) + close_text(level + INDENT as nat)
}

/// The wrapper.
#[verifier::opaque]
pub open spec fn method_text(level: nat, m: MethodView) -> Seq<char> {
    header_text(level, m) + body_text(level + INDENT as nat, m) + close_text(level + INDENT as nat)
}

/// Whether the function behind the node is implemented natively.
pub open spec fn native_of(graph: &Graph, method: usize) -> bool {
    match graph.spec_node(Some(method)) {
        Some(Node::Function(f)) => f.spec_is_native(),
        _ => false,
    }
}

/// The function behind `method` in a class that has met the names `seen`.
#[verifier::opaque]
pub open spec fn method_of(graph: &Graph, classes: &StaticClasses, method: usize, seen: Seq<Seq<char>>) -> Result<
    MethodView,
    ErrorView,
> {
    match helper::name_of(graph, method) {
        Err(error) => Err(ErrorView::Helper(error)),
        Ok(name) => match parameters_of(graph, classes, method) {
            Err(error) => Err(error),
            Ok(parameters) => match helper::full_name_of(graph, method) {
                Err(error) => Err(ErrorView::Helper(error)),
                Ok(full_name) => Ok(
                    MethodView {
                        base: name,
                        name: unique_name(name, occurrences(seen, name)),
                        full_name,
                        native: native_of(graph, method),
                        parameters,
                    },
                ),
            },
        },
    }
}

/// Describes the function behind `method`.
pub fn method_for(
    graph: &Graph,
    classes: &StaticClasses,
    method: usize,
    counts: &mut NameCounts,
) -> (described: Result<Method, Error>)
    ensures
        match described {
            Ok(described) => method_of(graph, classes, method, old(counts)@) == Ok::<
                MethodView,
                ErrorView,
            >(described@) && final(counts)@ == old(counts)@.push(described@.base),
            Err(error) => method_of(graph, classes, method, old(counts)@) == Err::<
                MethodView,
                ErrorView,
            >(error@),
        },
{
    reveal(method_of);
    let base = match helper::get_name(graph, method) {
        Ok(name) => name,
        Err(error) => {
            return Err(Error::Helper(error));
        },
    };
    let parameters = match parameters_for(graph, classes, method) {
        Ok(parameters) => parameters,
        Err(error) => {
            return Err(error);
        },
    };
    let full_name = match helper::get_full_name(graph, method) {
        Ok(full_name) => full_name,
        Err(error) => {
            return Err(Error::Helper(error));
        },
    };
    let native = match graph.node(Some(method)) {
        Some(Node::Function(f)) => f.is_native(),
        _ => false,
    };
    let name = get_unique_name(counts, base.as_str());
    Ok(Method { base, name, full_name, native, parameters })
}

/// How many of the parameters are outputs.
pub fn outputs_in(parameters: &Vec<Parameter>) -> (count: usize)
    ensures
        count == count_outputs(parameter_views(parameters@)),
{
    let ghost all = parameter_views(parameters@);
    let mut count: usize = 0;
    let mut i: usize = 0;
    assert(all.subrange(0, 0) =~= Seq::<ParameterView>::empty());
    while i < parameters.len()
        invariant
            i <= parameters.len(),
            all == parameter_views(parameters@),
            count <= i,
            count == count_outputs(all.subrange(0, i as int)),
        decreases parameters.len() - i,
    {
        assert(all.subrange(0, i + 1).drop_last() =~= all.subrange(0, i as int));
        assert(all.subrange(0, i + 1).last() == parameters@[i as int]@);
        match parameters[i].kind {
            ParameterKind::Output => {
                count = count + 1;
            },
            ParameterKind::Input => {},
        }
        i = i + 1;
    }
    assert(all.subrange(0, parameters.len() as int) =~= all);
    count
}

/// The parameter list of the wrapper.
pub fn args_for(parameters: &Vec<Parameter>) -> (args: Vec<Arg>)
    ensures
        arg_views(args@) == method_args(parameter_views(parameters@)),
{
    let ghost all = parameter_views(parameters@);
    let mut args: Vec<Arg> = vec![Arg::receiver("&mut self")];
    let mut i: usize = 0;
    assert(all.subrange(0, 0) =~= Seq::<ParameterView>::empty());
    assert(arg_views(args@) =~= method_args(all.subrange(0, 0)));
    while i < parameters.len()
        invariant
            i <= parameters.len(),
            all == parameter_views(parameters@),
            arg_views(args@) == method_args(all.subrange(0, i as int)),
        decreases parameters.len() - i,
    {
        assert(all.subrange(0, i + 1).drop_last() =~= all.subrange(0, i as int));
        assert(all.subrange(0, i + 1).last() == parameters@[i as int]@);
        let ghost before = arg_views(args@);
        match parameters[i].kind {
            ParameterKind::Input => {
                let arg = Arg::name_type(parameters[i].name.as_str(), parameters[i].typ.as_str());
                args.push(arg);
                assert(arg_views(args@) =~= before.push(arg@));
            },
            ParameterKind::Output => {},
        }
        i = i + 1;
    }
    assert(all.subrange(0, parameters.len() as int) =~= all);
    args
}

/// The types of the outputs, or what reads the outputs from the record,
/// separated by commas.
pub fn outputs_for(parameters: &Vec<Parameter>, values: bool) -> (joined: String)
    ensures
        joined@ == if values {
            output_values(parameter_views(parameters@))
        } else {
            output_types(parameter_views(parameters@))
        },
{
    let ghost all = parameter_views(parameters@);
    let mut joined = String::new();
    let mut count: usize = 0;
    let mut i: usize = 0;
    assert(all.subrange(0, 0) =~= Seq::<ParameterView>::empty());
    while i < parameters.len()
        invariant
            i <= parameters.len(),
            all == parameter_views(parameters@),
            count <= i,
            count == count_outputs(all.subrange(0, i as int)),
            count == 0 ==> joined@ =~= Seq::<char>::empty(),
            joined@ == if values {
                output_values(all.subrange(0, i as int))
            } else {
                output_types(all.subrange(0, i as int))
            },
        decreases parameters.len() - i,
    {
        assert(all.subrange(0, i + 1).drop_last() =~= all.subrange(0, i as int));
        assert(all.subrange(0, i + 1).last() == parameters@[i as int]@);
        match parameters[i].kind {
            ParameterKind::Output => {
                if count > 0 {
                    joined.append(", ");
                }
                if values {
                    joined.append("p.");
                    joined.append(parameters[i].name.as_str());
                    joined.append(".assume_init()");
                } else {
                    joined.append(parameters[i].typ.as_str());
                }
                count = count + 1;
                assert(joined@ =~= if values {
                    output_values(all.subrange(0, i + 1))
                } else {
                    output_types(all.subrange(0, i + 1))
                });
            },
            ParameterKind::Input => {},
        }
        i = i + 1;
    }
    assert(all.subrange(0, parameters.len() as int) =~= all);
    joined
}

/// Writes the definition of the record.
pub fn add_record(block: &IfBlock, sink: &mut String, parameters: &Vec<Parameter>)
    requires
        block.level() + INDENT <= usize::MAX,
    ensures
        final(sink)@ == old(sink)@ + record_text(block.level(), parameter_views(parameters@)),
{
    reveal(record_text);
    let ghost all = parameter_views(parameters@);
    block.line(sink, "#[repr(C)]");
    let record = block.structure(sink, Visibility::Public, "Parameters");
    let ghost opened = sink@;
    let mut i: usize = 0;
    assert(all.subrange(0, 0) =~= Seq::<ParameterView>::empty());
    assert(sink@ =~= opened + record_fields_text(record.level(), all.subrange(0, 0)));
    while i < parameters.len()
        invariant
            i <= parameters.len(),
            all == parameter_views(parameters@),
            sink@ == opened + record_fields_text(record.level(), all.subrange(0, i as int)),
        decreases parameters.len() - i,
    {
        assert(all.subrange(0, i + 1).drop_last() =~= all.subrange(0, i as int));
        assert(all.subrange(0, i + 1).last() == parameters@[i as int]@);
        match parameters[i].kind {
            ParameterKind::Input => {
                record.field(sink, parameters[i].name.as_str(), parameters[i].typ.as_str());
            },
            ParameterKind::Output => {
                let mut typ = String::from_str("MaybeUninit<");
                typ.append(parameters[i].typ.as_str());
                typ.append(">");
                record.field(sink, parameters[i].name.as_str(), typ.as_str());
            },
        }
        i = i + 1;
        assert(sink@ =~= opened + record_fields_text(record.level(), all.subrange(0, i as int)));
    }
    assert(all.subrange(0, parameters.len() as int) =~= all);
    record.close(sink);
    assert(final(sink)@ =~= old(sink)@ + record_text(block.level(), all));
}

/// Writes the record's first value.
pub fn add_initializer(block: &IfBlock, sink: &mut String, parameters: &Vec<Parameter>)
    requires
        block.level() + INDENT <= usize::MAX,
    ensures
        final(sink)@ == old(sink)@ + init_text(block.level(), parameter_views(parameters@)),
{
    reveal(init_text);
    let ghost all = parameter_views(parameters@);
    let init = block.block(sink, "let mut p = Parameters ", BlockSuffix::Semicolon);
    let ghost opened = sink@;
    let mut i: usize = 0;
    assert(all.subrange(0, 0) =~= Seq::<ParameterView>::empty());
    assert(sink@ =~= opened + init_fields_text(init.level(), all.subrange(0, 0)));
    while i < parameters.len()
        invariant
            i <= parameters.len(),
            all == parameter_views(parameters@),
            sink@ == opened + init_fields_text(init.level(), all.subrange(0, i as int)),
        decreases parameters.len() - i,
    {
        assert(all.subrange(0, i + 1).drop_last() =~= all.subrange(0, i as int));
        assert(all.subrange(0, i + 1).last() == parameters@[i as int]@);
        let mut field = parameters[i].name.clone();
        match parameters[i].kind {
            ParameterKind::Input => {
                field.append(",");
            },
            ParameterKind::Output => {
                field.append(": MaybeUninit::uninit(),");
            },
        }
        init.line(sink, field.as_str());
        i = i + 1;
        assert(sink@ =~= opened + init_fields_text(init.level(), all.subrange(0, i as int)));
    }
    assert(all.subrange(0, parameters.len() as int) =~= all);
    init.close(sink);
    assert(final(sink)@ =~= old(sink)@ + init_text(block.level(), all));
}

/// Writes the call of the dispatch entry point.
pub fn add_call(block: &IfBlock, sink: &mut String, native: bool)
    ensures
        final(sink)@ == old(sink)@ + call_text(block.level(), native),
{
    reveal(call_text);
    block.line(sink, "let old_flags = (*function).flags;");
    if native {
        block.line(sink, "(*function).flags |= 0x400;");
    }
    block.line(sink, "self.process_event(function, &mut p as *mut Parameters as *mut _);");
    block.line(sink, "(*function).flags = old_flags;\n");
    assert(final(sink)@ =~= old(sink)@ + call_text(block.level(), native));
}

/// Writes the result of the wrapper.
pub fn add_return(block: &IfBlock, sink: &mut String, parameters: &Vec<Parameter>)
    ensures
        final(sink)@ == old(sink)@ + return_text(block.level(), parameter_views(parameters@)),
{
    reveal(return_text);
    let count = outputs_in(parameters);
    if count == 0 {
        assert(sink@ =~= old(sink)@ + Seq::<char>::empty());
    } else if count == 1 {
        let mut value = String::from_str("Some(");
        value.append(outputs_for(parameters, true).as_str());
        value.append(")");
        block.line(sink, value.as_str());
    } else {
        block.put(sink, "Some((");
        block.raw(sink, outputs_for(parameters, true).as_str());
        block.raw(sink, "))\n");
        assert(final(sink)@ =~= old(sink)@ + return_text(
            block.level(),
            parameter_views(parameters@),
        ));
    }
}

/// Writes what the wrapper does while it has not found its function yet.
pub fn add_else(block: &IfBlock, sink: &mut String, full_name: &str, parameters: &Vec<Parameter>)
    requires
        block.level() >= INDENT,
        block.level() + INDENT <= usize::MAX,
    ensures
        final(sink)@ == old(sink)@ + else_text(
            block.level(),
            full_name@,
            parameter_views(parameters@),
        ),
{
    reveal(else_text);
    block.else_block(sink, "else");
    block.line(sink, "FUNCTION = (*GLOBAL_OBJECTS)");
    let continued = block.writer().nest();
    let mut find = String::from_str(".find_mut(\"");
    find.append(full_name);
    find.append("\")");
    continued.line(sink, find.as_str());
    continued.line(sink, ".map(|o| o.cast());");
    if outputs_in(parameters) > 0 {
        block.line(sink, "None");
    }
    assert(final(sink)@ =~= old(sink)@ + else_text(
        block.level(),
        full_name@,
        parameter_views(parameters@),
    ));
}

/// Opens the wrapper.
pub fn add_header(impl_gen: &Impl, sink: &mut String, method: &Method) -> (function: Function)
    requires
        impl_gen.level() + INDENT <= usize::MAX,
    ensures
        final(sink)@ == old(sink)@ + header_text(impl_gen.level(), method@),
        function.level() == impl_gen.level() + INDENT,
{
    reveal(header_text);
    let args = args_for(&method.parameters);
    let count = outputs_in(&method.parameters);
    if count == 0 {
        impl_gen.function_args(sink, "pub unsafe ", method.name.as_str(), &args)
    } else {
        let mut outs = if count == 1 {
            String::from_str("Option<")
        } else {
            String::from_str("Option<(")
        };
        outs.append(outputs_for(&method.parameters, false).as_str());
        if count == 1 {
            outs.append(">");
        } else {
            outs.append(")>");
        }
        impl_gen.function_args_ret(sink, "pub unsafe ", method.name.as_str(), &args, outs.as_str())
    }
}

/// Writes what the wrapper does once it has found its function.
pub fn add_then(block: &IfBlock, sink: &mut String, method: &Method)
    requires
        block.level() + INDENT <= usize::MAX,
    ensures
        final(sink)@ == old(sink)@ + then_text(block.level(), method@),
{
    reveal(then_text);
    add_record(block, sink, &method.parameters);
    add_initializer(block, sink, &method.parameters);
    add_call(block, sink, method.native);
    add_return(block, sink, &method.parameters);
    assert(final(sink)@ =~= old(sink)@ + then_text(block.level(), method@));
}

/// Writes the body of the wrapper.
pub fn add_body(function: &Function, sink: &mut String, method: &Method)
    requires
        function.level() + 2 * INDENT <= usize::MAX,
    ensures
        final(sink)@ == old(sink)@ + body_text(function.level(), method@),
{
    reveal(body_text);
    function.line(sink, "static mut FUNCTION: Option<*mut game::Function> = None;\n");
    let block = function.if_block(sink, "if let Some(function) = FUNCTION");
    add_then(&block, sink, method);
    add_else(&block, sink, method.full_name.as_str(), &method.parameters);
    block.close(sink);
    assert(final(sink)@ =~= old(sink)@ + body_text(function.level(), method@));
}

/// Writes the wrapper of one function into the impl block of its class.
pub fn add_method(impl_gen: &Impl, sink: &mut String, method: &Method)
    requires
        impl_gen.level() + 3 * INDENT <= usize::MAX,
    ensures
        final(sink)@ == old(sink)@ + method_text(impl_gen.level(), method@),
{
    reveal(method_text);
    let function = add_header(impl_gen, sink, method);
    add_body(&function, sink, method);
    function.close(sink);
    assert(final(sink)@ =~= old(sink)@ + method_text(impl_gen.level(), method@));
}

} // verus!
