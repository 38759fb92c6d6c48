//! Names of objects as the emitted source spells them.

use vstd::prelude::*;
use vstd::string::*;
use crate::game::{Graph, Step};
use crate::text::str_eq;

verus! {

#[derive(Debug)]
pub enum Error {
    /// A name of the fixed list stands at an object that no two objects hold.
    ModuleSubmodule(usize),
    /// The object at this address has no name.
    NullName(usize),
    /// No object of the table has this full name.
    StaticClassNotFound(&'static str),
}

/// Whether several unrelated types of the graph are known to share this name.
pub open spec fn is_duplicate(name: Seq<char>) -> bool {
    ||| name == "ECompareObjectOutputLinkIds"@
    ||| name == "EFlightMode"@
    ||| name == "CheckpointRecord"@
    ||| name == "TerrainWeightedMaterial"@
    ||| name == "ProjectileBehaviorSequenceStateData"@
}

/// Whether several unrelated types of the graph are known to share this name.
pub fn is_known_duplicate(name: &str) -> (duplicate: bool)
    ensures
        duplicate == is_duplicate(name@),
{
    str_eq(name, "ECompareObjectOutputLinkIds") || str_eq(name, "EFlightMode") || str_eq(
        name,
        "CheckpointRecord",
    ) || str_eq(name, "TerrainWeightedMaterial") || str_eq(
        name,
        "ProjectileBehaviorSequenceStateData",
    )
}

/// The name of the object, or the error that names the object.
pub open spec fn name_of(graph: &Graph, object: usize) -> Result<Seq<char>, Error> {
    match graph.spec_name(object) {
        Some(name) => Ok(name),
        None => Err(Error::NullName(graph.spec_address_of(Some(object)))),
    }
}

/// Whether the text or error that a function returned is the one that its
/// specification gives.
pub open spec fn text_is<E>(returned: Result<String, E>, stated: Result<Seq<char>, E>) -> bool {
    match (returned, stated) {
        (Ok(text), Ok(expected)) => text@ == expected,
        (Err(error), Err(expected)) => error == expected,
        _ => false,
    }
}

/// The name of the object.
pub fn get_name(graph: &Graph, object: usize) -> (name: Result<String, Error>)
    ensures
        text_is(name, name_of(graph, object)),
{
    match graph.name(object) {
        Some(name) => Ok(name.clone()),
        None => Err(Error::NullName(graph.address_of(Some(object)))),
    }
}

/// The full name of the object, or the error that names the object.
pub open spec fn full_name_of(graph: &Graph, object: usize) -> Result<Seq<char>, Error> {
    match graph.full_name_of(object) {
        Some(name) => Ok(name),
        None => Err(Error::NullName(graph.spec_address_of(Some(object)))),
    }
}

/// The full name of the object.
pub fn get_full_name(graph: &Graph, object: usize) -> (name: Result<String, Error>)
    ensures
        text_is(name, full_name_of(graph, object)),
{
    match graph.full_name(object) {
        Some(name) => Ok(name),
        None => Err(Error::NullName(graph.address_of(Some(object)))),
    }
}

/// The name under which the object's type is emitted: its own name, unless
/// that name is on the fixed list of names that unrelated types share; then the
/// names of the object that holds its holder, of its holder and its own,
/// joined by underscores.
pub open spec fn resolved_name(graph: &Graph, object: usize) -> Result<Seq<char>, Error> {
    match name_of(graph, object) {
        Err(error) => Err(error),
        Ok(name) => if !is_duplicate(name) {
            Ok(name)
        } else {
            let parent = graph.spec_follow(Some(object), Step::Outer);
            let grandparent = graph.spec_follow(parent, Step::Outer);
            if graph.spec_node(grandparent) is None {
                Err(Error::ModuleSubmodule(graph.spec_address_of(Some(object))))
            } else {
                match name_of(graph, grandparent.unwrap()) {
                    Err(error) => Err(error),
                    Ok(module) => match name_of(graph, parent.unwrap()) {
                        Err(error) => Err(error),
                        Ok(submodule) => Ok(module + "_"@ + submodule + "_"@ + name),
                    },
                }
            }
        },
    }
}

/// The name under which the object's type is emitted.
pub fn resolve_duplicate(graph: &Graph, object: usize) -> (name: Result<String, Error>)
    ensures
        text_is(name, resolved_name(graph, object)),
{
    let name = match get_name(graph, object) {
        Ok(name) => name,
        Err(error) => {
            return Err(error);
        },
    };
    if !is_known_duplicate(name.as_str()) {
        return Ok(name);
    }
    let parent = graph.follow(Some(object), Step::Outer);
    let grandparent = graph.follow(parent, Step::Outer);
    if graph.node(grandparent).is_none() {
        return Err(Error::ModuleSubmodule(graph.address_of(Some(object))));
    }
    let module = match get_name(graph, grandparent.unwrap()) {
        Ok(module) => module,
        Err(error) => {
            return Err(error);
        },
    };
    let submodule = match get_name(graph, parent.unwrap()) {
        Ok(submodule) => submodule,
        Err(error) => {
            return Err(error);
        },
    };
    let mut resolved = module;
    resolved.append("_");
    resolved.append(submodule.as_str());
    resolved.append("_");
    resolved.append(name.as_str());
    Ok(resolved)
}

/// The first object with the full name `class`, or the error that names
/// `class`.
pub open spec fn static_class(graph: &Graph, class: &'static str) -> Result<usize, Error> {
    match graph.first_named(class@) {
        Some(object) => Ok(object),
        None => Err(Error::StaticClassNotFound(class)),
    }
}

/// The first object of the table whose full name is `class`.
pub fn find(graph: &Graph, class: &'static str) -> (found: Result<usize, Error>)
    ensures
        found == static_class(graph, class),
{
    match graph.find(class) {
        Some(object) => Ok(object),
        None => Err(Error::StaticClassNotFound(class)),
    }
}

/// The first objects with the full names `classes`, in the order of
/// `classes`, or the error that names the first of `classes` that no object
/// has.
pub open spec fn static_classes(graph: &Graph, classes: Seq<&'static str>) -> Result<
    Seq<usize>,
    Error,
>
    decreases classes.len(),
{
    if classes.len() == 0 {
        Ok(Seq::empty())
    } else {
        match static_classes(graph, classes.drop_last()) {
            Err(error) => Err(error),
            Ok(found) => match static_class(graph, classes.last()) {
                Err(error) => Err(error),
                Ok(object) => Ok(found.push(object)),
            },
        }
    }
}

/// The first objects of the table whose full names are `classes`.
pub fn find_all(graph: &Graph, classes: &Vec<&'static str>) -> (found: Result<Vec<usize>, Error>)
    ensures
        match found {
            Ok(objects) => static_classes(graph, classes@) == Ok::<Seq<usize>, Error>(objects@),
            Err(error) => static_classes(graph, classes@) == Err::<Seq<usize>, Error>(error),
        },
{
    let mut objects: Vec<usize> = Vec::new();
    let mut i: usize = 0;
    assert(classes@.subrange(0, 0) =~= Seq::<&'static str>::empty());
    while i < classes.len()
        invariant
            i <= classes.len(),
            static_classes(graph, classes@.subrange(0, i as int)) == Ok::<Seq<usize>, Error>(
                objects@,
            ),
        decreases classes.len() - i,
    {
        assert(classes@.subrange(0, i + 1).drop_last() =~= classes@.subrange(0, i as int));
        assert(classes@.subrange(0, i + 1).last() == classes@[i as int]);
        match find(graph, classes[i]) {
            Ok(object) => {
                objects.push(object);
            },
            Err(error) => {
                proof {
                    lemma_static_classes_error(graph, classes@, i + 1);
                }
                return Err(error);
            },
        }
        i = i + 1;
    }
    assert(classes@.subrange(0, classes.len() as int) =~= classes@);
    Ok(objects)
}

/// A lookup that fails for the first `upto` names fails the same way for all.
proof fn lemma_static_classes_error(graph: &Graph, classes: Seq<&'static str>, upto: int)
    requires
        0 <= upto <= classes.len(),
        static_classes(graph, classes.subrange(0, upto)) is Err,
    ensures
        static_classes(graph, classes) == static_classes(graph, classes.subrange(0, upto)),
    decreases classes.len() - upto,
{
    if upto == classes.len() {
        assert(classes.subrange(0, upto) =~= classes);
    } else {
        assert(classes.subrange(0, upto + 1).drop_last() =~= classes.subrange(0, upto));
        lemma_static_classes_error(graph, classes, upto + 1);
    }
}

/// As many objects are found as names were asked for.
pub proof fn lemma_static_classes_len(graph: &Graph, classes: Seq<&'static str>)
    ensures
        static_classes(graph, classes) is Ok ==> static_classes(
            graph,
            classes,
        ).unwrap().len() == classes.len(),
    decreases classes.len(),
{
    if classes.len() > 0 {
        lemma_static_classes_len(graph, classes.drop_last());
    }
}

} // verus!
