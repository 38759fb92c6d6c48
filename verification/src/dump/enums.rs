//! The variants of an enum as the emitted source names them.
//!
//! The variants of one enum mostly share their first words, set off by
//! underscores. That common prefix is cut from each variant whose rest can
//! stand as an identifier; a rest that starts with the enum's own name and
//! ends in `MAX` is the marker of the number of variants and becomes `MAX`.
//! Names that are the same after that are numbered in the order in which
//! they are met.

use vstd::prelude::*;
use vstd::string::*;
use crate::dump::error::{Error, ErrorView};
use crate::dump::helper;
use crate::dump::names::{get_unique_name, unique_names, NameCounts};
use crate::game::{Graph, NameIndex, Node};
use crate::genial::{close_text, line_text, Gen, Scope, Visibility, WriterWrapper, INDENT};
use crate::text::{
    chars_eq, chars_of, ends_with, is_ascii_digit, push_chars, starts_with, str_eq, string_of,
};

verus! {

/// The parts of the text between its underscores; a text without underscore
/// is one part, and so is the empty text.
pub open spec fn components(text: Seq<char>) -> Seq<Seq<char>>
    decreases text.len(),
{
    if text.len() == 0 {
        seq![Seq::empty()]
    } else {
        let before = components(text.drop_last());
        if text.last() == '_' {
            before.push(Seq::empty())
        } else {
            before.drop_last().push(before.last().push(text.last()))
        }
    }
}

/// The parts with which both `a` and `b` begin.
pub open spec fn common_prefix(a: Seq<Seq<char>>, b: Seq<Seq<char>>) -> Seq<Seq<char>>
    decreases a.len(),
{
    if a.len() == 0 || b.len() == 0 || a[0] != b[0] {
        Seq::empty()
    } else {
        seq![a[0]] + common_prefix(a.drop_first(), b.drop_first())
    }
}

/// The parts with which all of the variants begin: all parts of the first
/// variant, cut down by each variant after it.
pub open spec fn shared_prefix(variants: Seq<Seq<char>>) -> Seq<Seq<char>>
    decreases variants.len(),
{
    if variants.len() == 0 {
        Seq::empty()
    } else if variants.len() == 1 {
        components(variants[0])
    } else {
        common_prefix(shared_prefix(variants.drop_last()), components(variants.last()))
    }
}

/// The number of characters of the parts, each with the underscore behind
/// it.
pub open spec fn prefix_len(parts: Seq<Seq<char>>) -> nat
    decreases parts.len(),
{
    if parts.len() == 0 {
        0
    } else {
        prefix_len(parts.drop_last()) + parts.last().len() + 1
    }
}

/// The parts, each with the underscore behind it.
pub open spec fn prefix_text(parts: Seq<Seq<char>>) -> Seq<char>
    decreases parts.len(),
{
    if parts.len() == 0 {
        Seq::empty()
    } else {
        prefix_text(parts.drop_last()) + parts.last() + seq!['_']
    }
}

/// Whether what is left of a variant can stand as an identifier: it is not
/// empty, does not start with a digit and is not `Self`.
pub open spec fn is_identifier(rest: Seq<char>) -> bool {
    rest.len() > 0 && !is_ascii_digit(rest[0]) && rest != "Self"@
}

/// Whether what is left of a variant of the enum `name` is the marker of the
/// number of variants.
pub open spec fn is_max_marker(name: Seq<char>, rest: Seq<char>) -> bool {
    starts_with(rest, name) && ends_with(rest, "MAX"@)
}

/// The name of the variant `variant` of the enum `name` without the first
/// `prefix` characters, before names that are the same are numbered.
pub open spec fn display_name(name: Seq<char>, variant: Seq<char>, prefix: nat) -> Seq<char> {
    if prefix <= variant.len() && is_identifier(variant.subrange(prefix as int, variant.len() as int)) {
        let rest = variant.subrange(prefix as int, variant.len() as int);
        if is_max_marker(name, rest) {
            "MAX"@
        } else {
            rest
        }
    } else {
        variant
    }
}

/// The names of the variants of the enum `name` without their common prefix,
/// before names that are the same are numbered.
pub open spec fn display_names(name: Seq<char>, variants: Seq<Seq<char>>) -> Seq<Seq<char>> {
    Seq::new(
        variants.len(),
        |i: int| display_name(name, variants[i], prefix_len(shared_prefix(variants))),
    )
}

/// The names of the variants of the enum `name` in the emitted source.
pub open spec fn normalized(name: Seq<char>, variants: Seq<Seq<char>>) -> Seq<Seq<char>> {
    unique_names(display_names(name, variants))
}

/// The texts of the parts.
pub open spec fn part_views(parts: Seq<Vec<char>>) -> Seq<Seq<char>> {
    Seq::new(parts.len(), |i: int| parts[i]@)
}

/// The parts of the text between its underscores.
pub fn split_components(text: &Vec<char>) -> (parts: Vec<Vec<char>>)
    ensures
        part_views(parts@) == components(text@),
{
    let mut parts: Vec<Vec<char>> = Vec::new();
    let mut current: Vec<char> = Vec::new();
    let mut i: usize = 0;
    assert(text@.subrange(0, 0) =~= Seq::<char>::empty());
    assert(part_views(parts@).push(current@) =~= seq![Seq::<char>::empty()]);
    while i < text.len()
        invariant
            i <= text.len(),
            part_views(parts@).push(current@) == components(text@.subrange(0, i as int)),
        decreases text.len() - i,
    {
        let ghost before = text@.subrange(0, i as int);
        let ghost done = part_views(parts@);
        let ghost open = current@;
        assert(text@.subrange(0, i + 1).drop_last() =~= before);
        assert(text@.subrange(0, i + 1).last() == text@[i as int]);
        assert(done.push(open).drop_last() =~= done);
        if text[i] == '_' {
            parts.push(current);
            current = Vec::new();
            assert(part_views(parts@) =~= done.push(open));
        } else {
            current.push(text[i]);
        }
        i = i + 1;
    }
    assert(text@.subrange(0, text.len() as int) =~= text@);
    let ghost done = part_views(parts@);
    parts.push(current);
    assert(part_views(parts@) =~= done.push(current@));
    parts
}

/// Where two lists of parts stop agreeing.
proof fn lemma_common_prefix(a: Seq<Seq<char>>, b: Seq<Seq<char>>, n: int)
    requires
        0 <= n <= a.len(),
        n <= b.len(),
        forall|i: int| 0 <= i < n ==> a[i] == b[i],
        n == a.len() || n == b.len() || a[n] != b[n],
    ensures
        common_prefix(a, b) == a.subrange(0, n),
    decreases n,
{
    if n == 0 {
        assert(a.subrange(0, 0) =~= Seq::<Seq<char>>::empty());
    } else {
        let x = a.drop_first();
        let y = b.drop_first();
        assert forall|i: int| 0 <= i < n - 1 implies x[i] == y[i] by {
            assert(a[i + 1] == b[i + 1]);
        }
        lemma_common_prefix(x, y, n - 1);
        assert(seq![a[0]] + x.subrange(0, n - 1) =~= a.subrange(0, n));
    }
}

/// Cuts `common` down to the parts with which `parts` begins too.
pub fn shrink_prefix(common: &mut Vec<Vec<char>>, parts: &Vec<Vec<char>>)
    ensures
        part_views(final(common)@) == common_prefix(part_views(old(common)@), part_views(parts@)),
{
    let ghost a = part_views(common@);
    let ghost b = part_views(parts@);
    let mut n: usize = 0;
    while n < common.len() && n < parts.len() && chars_eq(&common[n], &parts[n])
        invariant
            n <= common.len(),
            n <= parts.len(),
            *common == *old(common),
            a == part_views(common@),
            b == part_views(parts@),
            forall|i: int| 0 <= i < n ==> a[i] == b[i],
        decreases common.len() - n,
    {
        n = n + 1;
    }
    proof {
        lemma_common_prefix(a, b, n as int);
    }
    common.truncate(n);
    assert(part_views(common@) =~= a.subrange(0, n as int));
}

/// The number of characters of the parts, each with the underscore behind
/// it; `None` where the number is beyond every length.
pub fn measure_prefix(parts: &Vec<Vec<char>>) -> (length: Option<usize>)
    ensures
        match length {
            Some(length) => length == prefix_len(part_views(parts@)),
            None => prefix_len(part_views(parts@)) > usize::MAX,
        },
{
    let ghost all = part_views(parts@);
    let mut length: usize = 0;
    let mut i: usize = 0;
    assert(all.subrange(0, 0) =~= Seq::<Seq<char>>::empty());
    while i < parts.len()
        invariant
            i <= parts.len(),
            all == part_views(parts@),
            length == prefix_len(all.subrange(0, i as int)),
        decreases parts.len() - i,
    {
        assert(all.subrange(0, i + 1).drop_last() =~= all.subrange(0, i as int));
        assert(all.subrange(0, i + 1).last() == parts@[i as int]@);
        let part = parts[i].len();
        if part == usize::MAX || length > usize::MAX - (part + 1) {
            proof {
                lemma_prefix_len_grows(all, i + 1);
            }
            return None;
        }
        length = length + part + 1;
        i = i + 1;
    }
    assert(all.subrange(0, parts.len() as int) =~= all);
    Some(length)
}

/// The first parts are no longer than all of them.
proof fn lemma_prefix_len_grows(parts: Seq<Seq<char>>, n: int)
    requires
        0 <= n <= parts.len(),
    ensures
        prefix_len(parts.subrange(0, n)) <= prefix_len(parts),
    decreases parts.len() - n,
{
    if n == parts.len() {
        assert(parts.subrange(0, n) =~= parts);
    } else {
        lemma_prefix_len_grows(parts, n + 1);
        assert(parts.subrange(0, n + 1).drop_last() =~= parts.subrange(0, n));
    }
}

/// The name of the variant `variant` of the enum `name` without the first
/// `prefix` characters; `None` for `prefix` says that the prefix is longer
/// than any text.
pub fn strip_variant(name: &str, variant: &str, prefix: Option<usize>) -> (display: String)
    ensures
        match prefix {
            Some(prefix) => display@ == display_name(name@, variant@, prefix as nat),
            None => display@ == variant@ && variant@.len() <= usize::MAX,
        },
{
    let chars = chars_of(variant);
    assert(variant@.len() == chars.len());
    let prefix = match prefix {
        Some(prefix) => prefix,
        None => {
            return String::from_str(variant);
        },
    };
    if prefix > chars.len() {
        return String::from_str(variant);
    }
    let ghost rest = chars@.subrange(prefix as int, chars.len() as int);
    let stripped = string_of(&chars, prefix, chars.len());
    if prefix == chars.len() {
        assert(rest.len() == 0);
        return String::from_str(variant);
    }
    let first = chars[prefix];
    assert(rest[0] == first);
    if ('0' <= first && first <= '9') || str_eq(stripped.as_str(), "Self") {
        return String::from_str(variant);
    }
    let own = chars_of(name);
    let max = chars_of("MAX");
    let length = chars.len() - prefix;
    let mut begins = own.len() <= length;
    if begins {
        let head = string_of(&chars, prefix, prefix + own.len());
        assert(rest.subrange(0, own.len() as int) =~= chars@.subrange(
            prefix as int,
            prefix + own.len(),
        ));
        begins = str_eq(head.as_str(), name);
    }
    let mut ends = max.len() <= length;
    if ends {
        let tail = string_of(&chars, chars.len() - max.len(), chars.len());
        assert(rest.subrange(rest.len() - max.len(), rest.len() as int) =~= chars@.subrange(
            chars.len() - max.len(),
            chars.len() as int,
        ));
        ends = str_eq(tail.as_str(), "MAX");
    }
    if begins && ends {
        String::from_str("MAX")
    } else {
        stripped
    }
}

/// The texts of the strings.
pub open spec fn string_views(strings: Seq<String>) -> Seq<Seq<char>> {
    Seq::new(strings.len(), |i: int| strings[i]@)
}

/// The parts with which all of the variants begin.
pub fn find_shared_prefix(variants: &Vec<String>) -> (common: Vec<Vec<char>>)
    ensures
        part_views(common@) == shared_prefix(string_views(variants@)),
{
    let ghost all = string_views(variants@);
    let mut common: Vec<Vec<char>> = Vec::new();
    let mut i: usize = 0;
    assert(all.subrange(0, 0) =~= Seq::<Seq<char>>::empty());
    assert(part_views(common@) =~= Seq::<Seq<char>>::empty());
    while i < variants.len()
        invariant
            i <= variants.len(),
            all == string_views(variants@),
            part_views(common@) == shared_prefix(all.subrange(0, i as int)),
        decreases variants.len() - i,
    {
        assert(all.subrange(0, i + 1).drop_last() =~= all.subrange(0, i as int));
        assert(all.subrange(0, i + 1).last() == variants@[i as int]@);
        let chars = chars_of(variants[i].as_str());
        let parts = split_components(&chars);
        if i == 0 {
            common = parts;
            assert(all.subrange(0, 1)[0] == variants@[0]@);
        } else {
            shrink_prefix(&mut common, &parts);
        }
        i = i + 1;
    }
    assert(all.subrange(0, variants.len() as int) =~= all);
    common
}

/// The names of the variants `variants` of the enum `name` in the emitted
/// source.
pub fn normalize(name: &str, variants: &Vec<String>) -> (names: Vec<String>)
    ensures
        string_views(names@) == normalized(name@, string_views(variants@)),
{
    let ghost all = string_views(variants@);
    let ghost shown = display_names(name@, all);
    let common = find_shared_prefix(variants);
    let prefix = measure_prefix(&common);
    let mut counts = NameCounts::new();
    let mut names: Vec<String> = Vec::new();
    let mut i: usize = 0;
    assert(shown.subrange(0, 0) =~= Seq::<Seq<char>>::empty());
    assert(string_views(names@) =~= unique_names(shown).subrange(0, 0));
    while i < variants.len()
        invariant
            i <= variants.len(),
            all == string_views(variants@),
            shown == display_names(name@, all),
            match prefix {
                Some(length) => length == prefix_len(shared_prefix(all)),
                None => prefix_len(shared_prefix(all)) > usize::MAX,
            },
            counts@ == shown.subrange(0, i as int),
            names.len() == i,
            string_views(names@) == unique_names(shown).subrange(0, i as int),
        decreases variants.len() - i,
    {
        let ghost before = string_views(names@);
        let display = strip_variant(name, variants[i].as_str(), prefix);
        assert(display@ == shown[i as int]);
        let unique = get_unique_name(&mut counts, display.as_str());
        names.push(unique);
        i = i + 1;
        assert(counts@ =~= shown.subrange(0, i as int));
        assert(string_views(names@) =~= before.push(unique@));
        assert(string_views(names@) =~= unique_names(shown).subrange(0, i as int));
    }
    assert(unique_names(shown).subrange(0, variants.len() as int) =~= unique_names(shown));
    names
}

/// The names of variants that all have a name have at least one character
/// each.
pub proof fn lemma_normalized_not_empty(name: Seq<char>, variants: Seq<Seq<char>>, index: int)
    requires
        0 <= index < variants.len(),
        variants[index].len() > 0,
    ensures
        normalized(name, variants)[index].len() > 0,
{
    reveal_strlit("MAX");
}

/// Where cutting the prefix leaves two variants with the same name, the two
/// still get different names.
pub proof fn lemma_normalized_differ(
    name: Seq<char>,
    variants: Seq<Seq<char>>,
    earlier: int,
    later: int,
)
    requires
        0 <= earlier < later < variants.len(),
        display_names(name, variants)[earlier] == display_names(name, variants)[later],
    ensures
        normalized(name, variants)[earlier] != normalized(name, variants)[later],
{
    crate::dump::names::lemma_collisions_resolved(display_names(name, variants), earlier, later);
}

/// The parts, each with the underscore behind it.
pub fn join_prefix(parts: &Vec<Vec<char>>) -> (prefix: String)
    ensures
        prefix@ == prefix_text(part_views(parts@)),
{
    let ghost all = part_views(parts@);
    let mut prefix = String::new();
    let mut i: usize = 0;
    assert(all.subrange(0, 0) =~= Seq::<Seq<char>>::empty());
    while i < parts.len()
        invariant
            i <= parts.len(),
            all == part_views(parts@),
            prefix@ == prefix_text(all.subrange(0, i as int)),
        decreases parts.len() - i,
    {
        assert(all.subrange(0, i + 1).drop_last() =~= all.subrange(0, i as int));
        assert(all.subrange(0, i + 1).last() == parts@[i as int]@);
        push_chars(&mut prefix, &parts[i], 0, parts[i].len());
        assert(parts@[i as int]@.subrange(0, parts@[i as int]@.len() as int) =~= parts@[i as int]@);
        prefix.push('_');
        i = i + 1;
        assert(prefix@ =~= prefix_text(all.subrange(0, i as int)));
    }
    assert(all.subrange(0, parts.len() as int) =~= all);
    prefix
}

/// The references to the names of the variants of the enum behind `object`;
/// none for a node that was not read as an enum.
pub open spec fn variants_of(graph: &Graph, object: usize) -> Seq<NameIndex> {
    match graph.spec_node(Some(object)) {
        Some(Node::Enum(e)) => e.variants@,
        _ => Seq::empty(),
    }
}

/// The name that the reference leads to.
pub open spec fn variant_name(graph: &Graph, variant: NameIndex) -> Option<Seq<char>> {
    match graph.names.spec_get(variant.index as usize) {
        Some(name) => Some(name@),
        None => None,
    }
}

/// The names of the variants of the enum behind `object` as the graph has
/// them, or the error that names the enum where a variant has no name.
pub open spec fn variant_names(graph: &Graph, object: usize) -> Result<Seq<Seq<char>>, ErrorView> {
    let variants = variants_of(graph, object);
    if forall|i: int| 0 <= i < variants.len() ==> (#[trigger] variant_name(graph, variants[i])) is Some {
        Ok(Seq::new(variants.len(), |i: int| variant_name(graph, variants[i]).unwrap()))
    } else {
        Err(ErrorView::BadVariant(graph.spec_address_of(Some(object))))
    }
}

/// The names of the variants of the enum behind `object` as the graph has
/// them.
pub fn raw_variants(graph: &Graph, object: usize) -> (names: Result<Vec<String>, Error>)
    ensures
        match names {
            Ok(names) => variant_names(graph, object) == Ok::<Seq<Seq<char>>, ErrorView>(
                string_views(names@),
            ),
            Err(error) => variant_names(graph, object) == Err::<Seq<Seq<char>>, ErrorView>(
                error@,
            ),
        },
{
    let mut names: Vec<String> = Vec::new();
    match graph.node(Some(object)) {
        Some(Node::Enum(e)) => {
            let mut i: usize = 0;
            while i < e.variants.len()
                invariant
                    i <= e.variants.len(),
                    e.variants@ == variants_of(graph, object),
                    names.len() == i,
                    forall|k: int|
                        0 <= k < i ==> variant_name(graph, #[trigger] e.variants@[k]) == Some(
                            names@[k]@,
                        ),
                decreases e.variants.len() - i,
            {
                match graph.names.get(e.variants[i].index as usize) {
                    Some(name) => {
                        names.push(name.clone());
                    },
                    None => {
                        assert(variant_name(graph, e.variants@[i as int]) is None);
                        return Err(Error::BadVariant(graph.address_of(Some(object))));
                    },
                }
                i = i + 1;
            }
            assert(string_views(names@) =~= variant_names(graph, object)->Ok_0);
        },
        _ => {
            assert(string_views(names@) =~= variant_names(graph, object)->Ok_0);
        },
    }
    Ok(names)
}

/// An enum as the emitted source has it.
#[derive(Debug)]
pub struct EnumDescriptor {
    pub name: String,
    /// The first words that all variants share, each with its underscore.
    pub prefix: String,
    /// The names of the variants, in the order of the graph.
    pub variants: Vec<String>,
}

/// An enum as the emitted source has it, its texts as characters.
pub struct EnumView {
    pub name: Seq<char>,
    pub prefix: Seq<char>,
    pub variants: Seq<Seq<char>>,
}

impl View for EnumDescriptor {
    type V = EnumView;

    open spec fn view(&self) -> EnumView {
        EnumView { name: self.name@, prefix: self.prefix@, variants: string_views(self.variants@) }
    }
}

/// The enum behind `object` as the emitted source has it; `None` for an enum
/// without variants, which the source cannot have.
#[verifier::opaque]
pub open spec fn enumerated(graph: &Graph, object: usize) -> Result<Option<EnumView>, ErrorView> {
    match variant_names(graph, object) {
        Err(error) => Err(error),
        Ok(variants) => if variants.len() == 0 {
            Ok(None)
        } else {
            match helper::resolved_name(graph, object) {
                Err(error) => Err(ErrorView::Helper(error)),
                Ok(name) => Ok(
                    Some(
                        EnumView {
                            name,
                            prefix: prefix_text(shared_prefix(variants)),
                            variants: normalized(name, variants),
                        },
                    ),
                ),
            }
        },
    }
}

/// Reconstructs the enum behind `object`.
pub fn describe_enumeration(graph: &Graph, object: usize) -> (descriptor: Result<
    Option<EnumDescriptor>,
    Error,
>)
    ensures
        match descriptor {
            Ok(Some(descriptor)) => enumerated(graph, object) == Ok::<
                Option<EnumView>,
                ErrorView,
            >(Some(descriptor@)),
            Ok(None) => enumerated(graph, object) == Ok::<Option<EnumView>, ErrorView>(None),
            Err(error) => enumerated(graph, object) == Err::<Option<EnumView>, ErrorView>(
                error@,
            ),
        },
{
    reveal(enumerated);
    let variants = match raw_variants(graph, object) {
        Ok(variants) => variants,
        Err(error) => {
            return Err(error);
        },
    };
    if variants.len() == 0 {
        return Ok(None);
    }
    let name = match helper::resolve_duplicate(graph, object) {
        Ok(name) => name,
        Err(error) => {
            return Err(Error::Helper(error));
        },
    };
    let common = find_shared_prefix(&variants);
    let prefix = join_prefix(&common);
    let names = normalize(name.as_str(), &variants);
    Ok(Some(EnumDescriptor { name, prefix, variants: names }))
}

/// The variants of an enum.
pub open spec fn variants_text(level: nat, variants: Seq<Seq<char>>) -> Seq<char>
    decreases variants.len(),
{
    if variants.len() == 0 {
        Seq::empty()
    } else {
        variants_text(level, variants.drop_last()) + line_text(level, variants.last() + ","@)
    }
}

/// The enum in the emitted source: one byte wide, exported, one variant per
/// line.
#[verifier::opaque]
pub open spec fn enumeration_text(level: nat, e: EnumView) -> Seq<char> {
    line_text(level, "#[repr(u8)]"@) + line_text(
        level,
        Visibility::Public.text() + "enum "@ + e.name + " {"@,
    ) + variants_text(level + INDENT as nat, e.variants) + close_text(level + INDENT as nat)
}

/// Writes the enum.
pub fn emit_enumeration(sdk: &Scope, sink: &mut String, descriptor: &EnumDescriptor)
    requires
        sdk.level() + INDENT <= usize::MAX,
    ensures
        final(sink)@ == old(sink)@ + enumeration_text(sdk.level(), descriptor@),
{
    reveal(enumeration_text);
    let ghost all = string_views(descriptor.variants@);
    sdk.line(sink, "#[repr(u8)]");
    let enum_gen = sdk.enumeration(sink, Visibility::Public, descriptor.name.as_str());
    let ghost opened = sink@;
    let mut i: usize = 0;
    assert(all.subrange(0, 0) =~= Seq::<Seq<char>>::empty());
    assert(sink@ =~= opened + variants_text(enum_gen.level(), all.subrange(0, 0)));
    while i < descriptor.variants.len()
        invariant
            i <= descriptor.variants.len(),
            all == string_views(descriptor.variants@),
            sink@ == opened + variants_text(enum_gen.level(), all.subrange(0, i as int)),
        decreases descriptor.variants.len() - i,
    {
        assert(all.subrange(0, i + 1).drop_last() =~= all.subrange(0, i as int));
        assert(all.subrange(0, i + 1).last() == descriptor.variants@[i as int]@);
        enum_gen.variant(sink, descriptor.variants[i].as_str());
        i = i + 1;
        assert(sink@ =~= opened + variants_text(enum_gen.level(), all.subrange(0, i as int)));
    }
    assert(all.subrange(0, descriptor.variants.len() as int) =~= all);
    enum_gen.close(sink);
    assert(final(sink)@ =~= old(sink)@ + enumeration_text(sdk.level(), descriptor@));
}

/// What the emitted source has for the enum behind `object`.
#[verifier::opaque]
pub open spec fn enumeration_written(graph: &Graph, level: nat, object: usize) -> Result<
    Seq<char>,
    ErrorView,
> {
    match enumerated(graph, object) {
        Err(error) => Err(error),
        Ok(None) => Ok(Seq::empty()),
        Ok(Some(e)) => Ok(enumeration_text(level, e)),
    }
}

/// Reconstructs the enum behind `object` and writes it; writes nothing for
/// an enum without variants and where the reconstruction fails.
pub fn write_enumeration(sdk: &Scope, sink: &mut String, graph: &Graph, object: usize) -> (written:
    Result<(), Error>)
    requires
        sdk.level() + INDENT <= usize::MAX,
    ensures
        match written {
            Ok(_) => enumeration_written(graph, sdk.level(), object) is Ok && final(sink)@ == old(
                sink,
            )@ + enumeration_written(graph, sdk.level(), object)->Ok_0,
            Err(error) => enumeration_written(graph, sdk.level(), object) == Err::<
                Seq<char>,
                ErrorView,
            >(error@) && final(sink)@ == old(sink)@,
        },
{
    reveal(enumeration_written);
    match describe_enumeration(graph, object) {
        Ok(Some(descriptor)) => {
            emit_enumeration(sdk, sink, &descriptor);
            Ok(())
        },
        Ok(None) => {
            assert(sink@ =~= old(sink)@ + Seq::<char>::empty());
            Ok(())
        },
        Err(error) => Err(error),
    }
}

} // verus!
