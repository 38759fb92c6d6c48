//! Boolean properties that share one 32-bit value, and the accessors that the
//! emitted source gets for each of them.

use vstd::prelude::*;
use vstd::string::*;
use heck::SnakeCase;
use crate::dump::names::{get_unique_name, occurrences, unique_name, NameCounts};
use crate::genial::{
    arg_views, close_text, function_ret_text, function_text, lemma_args_text, line_text, Arg,
    ArgView, Gen, GenFunction, Impl, Scope, WriterWrapper, INDENT,
};
use crate::text::{chars_of, decimal, is_ascii_uppercase, push_decimal, string_of};

verus! {

/// The name of the field that stands for the first set of booleans of a
/// struct; the later ones are numbered from 1.
pub const FIELD: &'static str = "bitfield";

/// The snake case of a text, as `heck` computes it.
pub uninterp spec fn snake_case_of(text: Seq<char>) -> Seq<char>;

/// `heck::SnakeCase::to_snake_case` for `str`: the words of the text in lower
/// case, joined by underscores. The result depends on the text alone.
#[verifier::external_body]
fn to_snake_case(text: &str) -> (snake: String)
    ensures
        snake@ == snake_case_of(text@),
{
    text.to_snake_case()
}

/// The name without the `b` that marks a boolean, where an upper-case letter
/// follows it.
pub open spec fn stripped(name: Seq<char>) -> Seq<char> {
    if name.len() >= 2 && name[0] == 'b' && is_ascii_uppercase(name[1]) {
        name.subrange(1, name.len() as int)
    } else {
        name
    }
}

/// The name without the `b` that marks a boolean.
pub fn strip_prefix(name: &str) -> (rest: String)
    ensures
        rest@ == stripped(name@),
{
    let chars = chars_of(name);
    if chars.len() >= 2 && chars[0] == 'b' && 'A' <= chars[1] && chars[1] <= 'Z' {
        string_of(&chars, 1, chars.len())
    } else {
        assert(chars@.subrange(0, chars.len() as int) =~= chars@);
        string_of(&chars, 0, chars.len())
    }
}

/// The name of the field that stands for the set of booleans number `id` of
/// a struct.
pub open spec fn identifier(id: nat) -> Seq<char> {
    unique_name(FIELD@, id)
}

/// The name of the field that stands for the set of booleans number `id` of
/// a struct.
pub fn identifier_name(id: usize) -> (name: String)
    ensures
        name@ == identifier(id as nat),
{
    let mut name = String::from_str(FIELD);
    if id > 0 {
        name.push('_');
        push_decimal(&mut name, id as u64);
        assert(name@ =~= FIELD@ + seq!['_'] + decimal(id as nat));
    }
    name
}

/// The property's name as the comments above its accessors show it, in a
/// struct that has met the names `seen`.
pub open spec fn shown_name(seen: Seq<Seq<char>>, field: Seq<char>) -> Seq<char> {
    unique_name(field, occurrences(seen, field))
}

/// What the accessors of the property are named after, before the struct
/// makes the name unique.
pub open spec fn normalized_name(seen: Seq<Seq<char>>, field: Seq<char>) -> Seq<char> {
    snake_case_of(stripped(shown_name(seen, field)))
}

/// What the accessors of the property are named after.
pub open spec fn accessor_name(seen: Seq<Seq<char>>, field: Seq<char>) -> Seq<char> {
    let normalized = normalized_name(seen, field);
    unique_name(normalized, occurrences(seen.push(field), normalized))
}

/// The names that the struct has met once the property has its accessors.
pub open spec fn seen_after_field(seen: Seq<Seq<char>>, field: Seq<char>) -> Seq<Seq<char>> {
    seen.push(field).push(normalized_name(seen, field))
}

/// The names that the struct has met once the properties have their
/// accessors.
pub open spec fn seen_after(fields: Seq<Seq<char>>, seen: Seq<Seq<char>>) -> Seq<Seq<char>>
    decreases fields.len(),
{
    if fields.len() == 0 {
        seen
    } else {
        seen_after_field(seen_after(fields.drop_last(), seen), fields.last())
    }
}

/// The getter and the setter of bit `bit` of the field `backing`.
#[verifier::opaque]
pub open spec fn accessors_text(
    level: nat,
    backing: Seq<char>,
    bit: nat,
    shown: Seq<char>,
    name: Seq<char>,
) -> Seq<char> {
    line_text(level, "// get "@ + shown) + function_ret_text(
        level,
        "pub "@,
        "is_"@ + name,
        seq![ArgView::Receiver("&self"@)],
        "bool"@,
    ) + line_text(
        level + INDENT as nat,
        "is_bit_set(self."@ + backing + ", "@ + decimal(bit) + ")"@,
    ) + close_text(level + INDENT as nat) + line_text(level, "// set "@ + shown) + function_text(
        level,
        "pub "@,
        "set_"@ + name,
        seq![ArgView::Receiver("&mut self"@), ArgView::NameType("value"@, "bool"@)],
    ) + line_text(
        level + INDENT as nat,
        "set_bit(&mut self."@ + backing + ", "@ + decimal(bit) + ", value);"@,
    ) + close_text(level + INDENT as nat)
}

/// Writes the getter and the setter of bit `bit` of the field `backing`.
/// `shown` is the property's name for the comments, `name` what the accessors
/// are named after.
pub fn emit_accessors(
    imp: &Impl,
    sink: &mut String,
    backing: &str,
    bit: usize,
    shown: &str,
    name: &str,
)
    requires
        imp.level() + INDENT <= usize::MAX,
    ensures
        final(sink)@ == old(sink)@ + accessors_text(
            imp.level(),
            backing@,
            bit as nat,
            shown@,
            name@,
        ),
{
    reveal(accessors_text);
    let ghost start = sink@;
    let mut count = String::new();
    push_decimal(&mut count, bit as u64);
    assert(count@ =~= decimal(bit as nat));

    let mut comment = String::from_str("// get ");
    comment.append(shown);
    imp.line(sink, comment.as_str());
    let mut getter = String::from_str("is_");
    getter.append(name);
    let receiver: Vec<Arg> = vec![Arg::receiver("&self")];
    proof {
        lemma_args_text(ArgView::Receiver("&self"@), ArgView::Receiver("&self"@));
        assert(arg_views(receiver@) =~= seq![ArgView::Receiver("&self"@)]);
    }
    let function = imp.function_args_ret(sink, "pub ", getter.as_str(), &receiver, "bool");
    let mut body = String::from_str("is_bit_set(self.");
    body.append(backing);
    body.append(", ");
    body.append(count.as_str());
    body.append(")");
    function.line(sink, body.as_str());
    function.close(sink);

    let mut comment = String::from_str("// set ");
    comment.append(shown);
    imp.line(sink, comment.as_str());
    let mut setter = String::from_str("set_");
    setter.append(name);
    let args: Vec<Arg> = vec![Arg::receiver("&mut self"), Arg::name_type("value", "bool")];
    proof {
        assert(arg_views(args@) =~= seq![
            ArgView::Receiver("&mut self"@),
            ArgView::NameType("value"@, "bool"@),
        ]);
    }
    let function = imp.function_args(sink, "pub ", setter.as_str(), &args);
    let mut body = String::from_str("set_bit(&mut self.");
    body.append(backing);
    body.append(", ");
    body.append(count.as_str());
    body.append(", value);");
    function.line(sink, body.as_str());
    function.close(sink);
    assert(sink@ =~= start + accessors_text(imp.level(), backing@, bit as nat, shown@, name@));
}

/// The accessors of the properties `fields` of one set, bit 0 first, in a
/// struct that has met the names `seen`.
pub open spec fn group_text(
    level: nat,
    backing: Seq<char>,
    fields: Seq<Seq<char>>,
    seen: Seq<Seq<char>>,
) -> Seq<char>
    decreases fields.len(),
{
    if fields.len() == 0 {
        Seq::empty()
    } else {
        let before = seen_after(fields.drop_last(), seen);
        group_text(level, backing, fields.drop_last(), seen) + accessors_text(
            level,
            backing,
            (fields.len() - 1) as nat,
            shown_name(before, fields.last()),
            accessor_name(before, fields.last()),
        )
    }
}

/// The boolean properties at one offset, in the order of their bits.
#[derive(Debug)]
pub struct Bitfield {
    pub offset: u32,
    pub fields: Vec<String>,
}

/// The boolean properties at one offset, their names as characters.
pub struct BitfieldView {
    pub offset: u32,
    pub fields: Seq<Seq<char>>,
}

impl View for Bitfield {
    type V = BitfieldView;

    open spec fn view(&self) -> BitfieldView {
        BitfieldView {
            offset: self.offset,
            fields: Seq::new(self.fields@.len(), |i: int| self.fields@[i]@),
        }
    }
}

impl Bitfield {
    /// The set at `offset` with the one property `field`.
    pub fn new(offset: u32, field: &str) -> (bitfield: Bitfield)
        ensures
            bitfield@ == (BitfieldView { offset, fields: seq![field@] }),
    {
        let mut fields: Vec<String> = Vec::new();
        fields.push(String::from_str(field));
        let bitfield = Bitfield { offset, fields };
        assert(bitfield@.fields =~= seq![field@]);
        bitfield
    }

    /// Gives `field` the next bit of the set.
    pub fn add(&mut self, field: &str)
        ensures
            final(self)@ == (BitfieldView {
                offset: old(self)@.offset,
                fields: old(self)@.fields.push(field@),
            }),
    {
        self.fields.push(String::from_str(field));
        assert(self@.fields =~= old(self)@.fields.push(field@));
    }

    /// Writes the accessors of every property of the set into `imp`.
    /// `name` is the field that stands for the set, `counts` the names that
    /// the struct has met.
    pub fn emit(self, imp: &Impl, sink: &mut String, counts: &mut NameCounts, name: &str)
        requires
            imp.level() + INDENT <= usize::MAX,
        ensures
            final(sink)@ == old(sink)@ + group_text(
                imp.level(),
                name@,
                self@.fields,
                old(counts)@,
            ),
            final(counts)@ == seen_after(self@.fields, old(counts)@),
    {
        let ghost fields = self@.fields;
        let ghost seen = counts@;
        let mut bit: usize = 0;
        assert(fields.subrange(0, 0) =~= Seq::<Seq<char>>::empty());
        assert(sink@ =~= old(sink)@ + group_text(imp.level(), name@, fields.subrange(0, 0), seen));
        while bit < self.fields.len()
            invariant
                bit <= self.fields.len(),
                fields == self@.fields,
                imp.level() + INDENT <= usize::MAX,
                sink@ == old(sink)@ + group_text(
                    imp.level(),
                    name@,
                    fields.subrange(0, bit as int),
                    seen,
                ),
                counts@ == seen_after(fields.subrange(0, bit as int), seen),
            decreases self.fields.len() - bit,
        {
            assert(fields.subrange(0, bit + 1).drop_last() =~= fields.subrange(0, bit as int));
            assert(fields.subrange(0, bit + 1).last() == self.fields@[bit as int]@);
            let shown = get_unique_name(counts, self.fields[bit].as_str());
            let rest = strip_prefix(shown.as_str());
            let normalized = to_snake_case(rest.as_str());
            let unique = get_unique_name(counts, normalized.as_str());
            emit_accessors(imp, sink, name, bit, shown.as_str(), unique.as_str());
            bit = bit + 1;
            assert(sink@ =~= old(sink)@ + group_text(
                imp.level(),
                name@,
                fields.subrange(0, bit as int),
                seen,
            ));
        }
        assert(fields.subrange(0, self.fields.len() as int) =~= fields);
    }
}

/// What the caller of `Bitfields::add` does with the property.
#[derive(Clone, Copy, Debug, PartialEq, Eq, Structural)]
pub enum PostAddInstruction {
    /// The property joined a set that already has its field.
    Skip,
    /// The property opened a set: the struct gets a field for it.
    EmitField,
}

/// The sets of booleans of one struct, by ascending offset.
#[derive(Debug)]
pub struct Bitfields {
    pub bitfields: Vec<Bitfield>,
}

impl View for Bitfields {
    type V = Seq<BitfieldView>;

    open spec fn view(&self) -> Seq<BitfieldView> {
        Seq::new(self.bitfields@.len(), |i: int| self.bitfields@[i]@)
    }
}

/// Whether a boolean at `offset` joins the last of the sets.
pub open spec fn joins_last(sets: Seq<BitfieldView>, offset: u32) -> bool {
    sets.len() > 0 && sets.last().offset == offset
}

/// The sets once the boolean `field` at `offset` is added: it joins the last
/// set where that is at `offset`, and opens a set of its own otherwise.
pub open spec fn added(sets: Seq<BitfieldView>, offset: u32, field: Seq<char>) -> Seq<BitfieldView> {
    if joins_last(sets, offset) {
        sets.update(
            sets.len() - 1,
            BitfieldView { offset, fields: sets.last().fields.push(field) },
        )
    } else {
        sets.push(BitfieldView { offset, fields: seq![field] })
    }
}

/// The names that the struct has met once the sets have their accessors.
pub open spec fn seen_after_sets(sets: Seq<BitfieldView>, seen: Seq<Seq<char>>) -> Seq<Seq<char>>
    decreases sets.len(),
{
    if sets.len() == 0 {
        seen
    } else {
        seen_after(sets.last().fields, seen_after_sets(sets.drop_last(), seen))
    }
}

/// The accessors of the sets, one set after the other.
pub open spec fn sets_text(level: nat, sets: Seq<BitfieldView>, seen: Seq<Seq<char>>) -> Seq<char>
    decreases sets.len(),
{
    if sets.len() == 0 {
        Seq::empty()
    } else {
        sets_text(level, sets.drop_last(), seen) + group_text(
            level,
            identifier((sets.len() - 1) as nat),
            sets.last().fields,
            seen_after_sets(sets.drop_last(), seen),
        )
    }
}

/// The impl block of the struct `structure` with the accessors of its sets;
/// nothing where it has no set.
#[verifier::opaque]
pub open spec fn bitfields_text(level: nat, structure: Seq<char>, sets: Seq<BitfieldView>) -> Seq<
    char,
> {
    if sets.len() == 0 {
        Seq::empty()
    } else {
        line_text(level, "impl "@ + structure + " {"@) + sets_text(
            level + INDENT as nat,
            sets,
            Seq::empty(),
        ) + close_text(level + INDENT as nat)
    }
}

impl Bitfields {
    /// No set.
    pub fn new() -> (bitfields: Bitfields)
        ensures
            bitfields@ == Seq::<BitfieldView>::empty(),
    {
        let bitfields = Bitfields { bitfields: Vec::new() };
        assert(bitfields@ =~= Seq::<BitfieldView>::empty());
        bitfields
    }

    /// Opens a set at `offset` with the property `field`.
    pub fn new_bitfield(&mut self, offset: u32, field: &str) -> (instruction: PostAddInstruction)
        ensures
            final(self)@ == old(self)@.push(BitfieldView { offset, fields: seq![field@] }),
            instruction == PostAddInstruction::EmitField,
    {
        self.bitfields.push(Bitfield::new(offset, field));
        assert(self@ =~= old(self)@.push(BitfieldView { offset, fields: seq![field@] }));
        PostAddInstruction::EmitField
    }

    /// Adds the boolean `field` at `offset`.
    pub fn add(&mut self, offset: u32, field: &str) -> (instruction: PostAddInstruction)
        ensures
            final(self)@ == added(old(self)@, offset, field@),
            instruction == if joins_last(old(self)@, offset) {
                PostAddInstruction::Skip
            } else {
                PostAddInstruction::EmitField
            },
    {
        let n = self.bitfields.len();
        if n > 0 && self.bitfields[n - 1].offset == offset {
            let mut last = self.bitfields.pop().unwrap();
            last.add(field);
            self.bitfields.push(last);
            assert(self@ =~= added(old(self)@, offset, field@));
            PostAddInstruction::Skip
        } else {
            self.new_bitfield(offset, field)
        }
    }

    /// Writes the impl block of the struct `structure` with the accessors of
    /// every set.
    pub fn emit(self, sdk: &Scope, sink: &mut String, structure: &str)
        requires
            sdk.level() + 2 * INDENT <= usize::MAX,
        ensures
            final(sink)@ == old(sink)@ + bitfields_text(sdk.level(), structure@, self@),
    {
        reveal(bitfields_text);
        if self.bitfields.len() == 0 {
            assert(sink@ =~= old(sink)@ + Seq::<char>::empty());
            return ;
        }
        let ghost sets = self@;
        let imp = sdk.imp(sink, structure);
        let ghost opened = sink@;
        let mut counts = NameCounts::new();
        let mut bitfields = self.bitfields;
        let total = bitfields.len();
        let mut rest: Vec<Bitfield> = Vec::new();
        // The sets are taken from the end, so the first is emitted first.
        while bitfields.len() > 0
            invariant
                bitfields.len() + rest.len() == sets.len(),
                sets.len() == total,
                forall|i: int| 0 <= i < bitfields.len() ==> bitfields@[i]@ == sets[i],
                forall|i: int|
                    0 <= i < rest.len() ==> rest@[i]@ == sets[sets.len() - 1 - i],
            decreases bitfields.len(),
        {
            let last = bitfields.pop().unwrap();
            rest.push(last);
        }
        let mut i: usize = 0;
        assert(sets.subrange(0, 0) =~= Seq::<BitfieldView>::empty());
        assert(sink@ =~= opened + sets_text(imp.level(), sets.subrange(0, 0), Seq::empty()));
        while rest.len() > 0
            invariant
                i + rest.len() == sets.len(),
                sets.len() == total,
                imp.level() == sdk.level() + INDENT,
                imp.level() + INDENT <= usize::MAX,
                forall|k: int|
                    0 <= k < rest.len() ==> rest@[k]@ == sets[sets.len() - 1 - k],
                sink@ == opened + sets_text(imp.level(), sets.subrange(0, i as int), Seq::empty()),
                counts@ == seen_after_sets(sets.subrange(0, i as int), Seq::empty()),
            decreases rest.len(),
        {
            let bitfield = rest.pop().unwrap();
            assert(bitfield@ == sets[i as int]);
            assert(sets.subrange(0, i + 1).drop_last() =~= sets.subrange(0, i as int));
            assert(sets.subrange(0, i + 1).last() == sets[i as int]);
            let name = identifier_name(i);
            bitfield.emit(&imp, sink, &mut counts, name.as_str());
            i = i + 1;
            assert(sink@ =~= opened + sets_text(
                imp.level(),
                sets.subrange(0, i as int),
                Seq::empty(),
            ));
        }
        assert(sets.subrange(0, sets.len() as int) =~= sets);
        imp.close(sink);
        assert(sink@ =~= old(sink)@ + bitfields_text(sdk.level(), structure@, sets));
    }
}

} // verus!
