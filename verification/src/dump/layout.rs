//! The layout of a struct as spans of bytes.
//!
//! The fields of a struct come by ascending offset. A cursor runs from the
//! end of the base struct to the declared size: a gap before a field becomes
//! padding, a field becomes a span of its own, and the booleans at one offset
//! share the span of the first of them.

use vstd::prelude::*;
use vstd::string::*;
use crate::dump::bitfield::{added, joins_last, BitfieldView, Bitfields, PostAddInstruction, FIELD};
use crate::dump::property_info::BOOL_SIZE;
use crate::dump::names::{
    get_unique_name, occurrences, scrub_reserved_name, scrubbed, unique_name, NameCounts,
};
use crate::text::{hex, push_hex};

verus! {

/// What a span of a struct holds.
#[derive(Clone, Copy, Debug, PartialEq, Eq, Structural)]
pub enum SpanKind {
    /// The struct that this one extends.
    Base,
    /// Bytes that no field accounts for.
    Padding,
    /// One field.
    Field,
    /// The value that the booleans at one offset share.
    Bitfield,
}

/// A range of bytes of a struct and the field that the emitted source has
/// for it.
#[derive(Debug)]
pub struct Span {
    pub kind: SpanKind,
    pub offset: u64,
    pub size: u64,
    pub name: String,
    pub typ: String,
}

/// A span, its texts as characters.
pub struct SpanView {
    pub kind: SpanKind,
    pub offset: u64,
    pub size: u64,
    pub name: Seq<char>,
    pub typ: Seq<char>,
}

impl View for Span {
    type V = SpanView;

    open spec fn view(&self) -> SpanView {
        SpanView {
            kind: self.kind,
            offset: self.offset,
            size: self.size,
            name: self.name@,
            typ: self.typ@,
        }
    }
}

/// The spans, their texts as characters.
pub open spec fn span_views(spans: Seq<Span>) -> Seq<SpanView> {
    Seq::new(spans.len(), |i: int| spans[i]@)
}

/// The padding of `size` bytes at `offset`.
pub open spec fn padding(offset: u64, size: u64) -> SpanView {
    SpanView {
        kind: SpanKind::Padding,
        offset,
        size,
        name: "pad_at_"@ + hex(offset as nat),
        typ: "[u8; "@ + hex(size as nat) + "]"@,
    }
}

/// The span of the base struct `name` of `size` bytes.
pub open spec fn base_span(name: Seq<char>, size: u64) -> SpanView {
    SpanView { kind: SpanKind::Base, offset: 0, size, name: "base"@, typ: name }
}

impl Span {
    /// The padding of `size` bytes at `offset`.
    pub fn padding(offset: u64, size: u64) -> (span: Span)
        ensures
            span@ == padding(offset, size),
    {
        let mut name = String::from_str("pad_at_");
        push_hex(&mut name, offset);
        let mut typ = String::from_str("[u8; ");
        push_hex(&mut typ, size);
        typ.append("]");
        Span { kind: SpanKind::Padding, offset, size, name, typ }
    }

    /// The span of the base struct `name` of `size` bytes.
    pub fn base(name: &str, size: u64) -> (span: Span)
        ensures
            span@ == base_span(name@, size),
    {
        Span {
            kind: SpanKind::Base,
            offset: 0,
            size,
            name: String::from_str("base"),
            typ: String::from_str(name),
        }
    }
}

/// Appends the padding of `size` bytes at `offset` to the spans.
pub fn add_padding(spans: &mut Vec<Span>, offset: u64, size: u64)
    ensures
        span_views(final(spans)@) == span_views(old(spans)@).push(padding(offset, size)),
{
    spans.push(Span::padding(offset, size));
    assert(span_views(spans@) =~= span_views(old(spans)@).push(padding(offset, size)));
}

/// A field of a struct, classified and checked, before it has its place in
/// the layout.
#[derive(Debug)]
pub struct Slot {
    pub offset: u32,
    pub element_size: u32,
    pub array_dim: u32,
    /// Whether the field is a boolean property.
    pub boolean: bool,
    /// The name of the property.
    pub name: String,
    /// The type of the field in the emitted source.
    pub typ: String,
}

/// A slot, its texts as characters.
pub struct SlotView {
    pub offset: u32,
    pub element_size: u32,
    pub array_dim: u32,
    pub boolean: bool,
    pub name: Seq<char>,
    pub typ: Seq<char>,
}

impl SlotView {
    /// The bytes that the span of the field takes: as many elements as the
    /// field has dimensions; for a boolean, the value that the booleans at
    /// its offset share.
    pub open spec fn size(self) -> nat {
        if self.boolean {
            BOOL_SIZE as nat
        } else {
            (self.element_size * self.array_dim) as nat
        }
    }

    /// The first byte behind the span of the field.
    pub open spec fn end(self) -> nat {
        (self.offset + self.size()) as nat
    }
}

impl View for Slot {
    type V = SlotView;

    open spec fn view(&self) -> SlotView {
        SlotView {
            offset: self.offset,
            element_size: self.element_size,
            array_dim: self.array_dim,
            boolean: self.boolean,
            name: self.name@,
            typ: self.typ@,
        }
    }
}

/// The slots, their texts as characters.
pub open spec fn slot_views(slots: Seq<Slot>) -> Seq<SlotView> {
    Seq::new(slots.len(), |i: int| slots[i]@)
}

/// The product of two 32-bit sizes, which 64 bits hold.
pub fn total_size(element_size: u32, array_dim: u32) -> (size: u64)
    ensures
        size == element_size * array_dim,
        size <= 0xffff_fffe_0000_0001,
{
    assert(element_size * array_dim <= 0xffff_ffff * 0xffff_ffff) by (nonlinear_arith)
        requires
            0 <= element_size <= 0xffff_ffff,
            0 <= array_dim <= 0xffff_ffff,
    ;
    (element_size as u64) * (array_dim as u64)
}

impl Slot {
    /// The bytes that the span of the field takes.
    pub fn size(&self) -> (size: u64)
        ensures
            size == self@.size(),
            self@.offset + size <= u64::MAX,
    {
        if self.boolean {
            BOOL_SIZE as u64
        } else {
            total_size(self.element_size, self.array_dim)
        }
    }
}

/// A layout under way.
#[derive(Debug)]
pub struct Layout {
    /// The first byte that no span accounts for yet.
    pub cursor: u64,
    pub spans: Vec<Span>,
    pub bitfields: Bitfields,
    /// The names of the fields so far.
    pub counts: NameCounts,
}

/// A layout under way, its texts as characters.
pub struct LayoutView {
    pub cursor: u64,
    pub spans: Seq<SpanView>,
    pub sets: Seq<BitfieldView>,
    pub seen: Seq<Seq<char>>,
}

impl View for Layout {
    type V = LayoutView;

    open spec fn view(&self) -> LayoutView {
        LayoutView {
            cursor: self.cursor,
            spans: span_views(self.spans@),
            sets: self.bitfields@,
            seen: self.counts@,
        }
    }
}

/// The spans with padding up to `offset`, where the cursor stands before it.
pub open spec fn padded(spans: Seq<SpanView>, cursor: u64, offset: u64) -> Seq<SpanView> {
    if cursor < offset {
        spans.push(padding(cursor, (offset - cursor) as u64))
    } else {
        spans
    }
}

/// Whether the slot is a boolean that shares the span of the booleans before
/// it.
pub open spec fn shares_span(layout: LayoutView, slot: SlotView) -> bool {
    slot.boolean && joins_last(layout.sets, slot.offset)
}

/// The name that the span of the slot is filed under: the name of the
/// property, or the common name of the fields that stand for booleans.
pub open spec fn span_name(slot: SlotView) -> Seq<char> {
    if slot.boolean {
        FIELD@
    } else {
        scrubbed(slot.name)
    }
}

/// The layout with the next slot in its place.
///
/// A gap between the cursor and the slot becomes padding. A boolean at the
/// offset of the booleans before it joins them and leaves the cursor where it
/// is. Any other slot gets a span of its own, named uniquely within the
/// struct, and moves the cursor behind it.
pub open spec fn placed(layout: LayoutView, slot: SlotView) -> LayoutView {
    let spans = padded(layout.spans, layout.cursor, slot.offset as u64);
    if shares_span(layout, slot) {
        LayoutView {
            cursor: layout.cursor,
            spans,
            sets: added(layout.sets, slot.offset, slot.name),
            seen: layout.seen,
        }
    } else {
        LayoutView {
            cursor: slot.end() as u64,
            spans: spans.push(
                SpanView {
                    kind: if slot.boolean {
                        SpanKind::Bitfield
                    } else {
                        SpanKind::Field
                    },
                    offset: slot.offset as u64,
                    size: slot.size() as u64,
                    name: "pub "@ + unique_name(
                        span_name(slot),
                        occurrences(layout.seen, span_name(slot)),
                    ),
                    typ: slot.typ,
                },
            ),
            sets: if slot.boolean {
                added(layout.sets, slot.offset, slot.name)
            } else {
                layout.sets
            },
            seen: layout.seen.push(span_name(slot)),
        }
    }
}

/// The layout with the slots in their places, in their order.
pub open spec fn laid_out(layout: LayoutView, slots: Seq<SlotView>) -> LayoutView
    decreases slots.len(),
{
    if slots.len() == 0 {
        layout
    } else {
        placed(laid_out(layout, slots.drop_last()), slots.last())
    }
}

/// The spans of the layout, with padding up to the declared size `size`.
pub open spec fn finished(layout: LayoutView, size: u64) -> Seq<SpanView> {
    padded(layout.spans, layout.cursor, size)
}

/// The layout of a struct before its first own field: the cursor stands
/// behind the base, and the span of the base, if there is one, is the first.
pub open spec fn started(base: Option<(Seq<char>, u64)>) -> LayoutView {
    match base {
        Some((name, size)) => LayoutView {
            cursor: size,
            spans: seq![base_span(name, size)],
            sets: Seq::empty(),
            seen: Seq::empty(),
        },
        None => LayoutView {
            cursor: 0,
            spans: Seq::empty(),
            sets: Seq::empty(),
            seen: Seq::empty(),
        },
    }
}

impl Layout {
    /// The layout of a struct without a base, before its first field.
    pub fn new() -> (layout: Layout)
        ensures
            layout@ == started(None),
    {
        let layout = Layout {
            cursor: 0,
            spans: Vec::new(),
            bitfields: Bitfields::new(),
            counts: NameCounts::new(),
        };
        assert(layout@.spans =~= Seq::<SpanView>::empty());
        layout
    }

    /// The layout of a struct that extends the struct `name` of `size` bytes,
    /// before its first own field.
    pub fn with_base(name: &str, size: u64) -> (layout: Layout)
        ensures
            layout@ == started(Some((name@, size))),
    {
        let mut spans: Vec<Span> = Vec::new();
        spans.push(Span::base(name, size));
        let layout = Layout {
            cursor: size,
            spans,
            bitfields: Bitfields::new(),
            counts: NameCounts::new(),
        };
        assert(layout@.spans =~= seq![base_span(name@, size)]);
        layout
    }

    /// Puts padding between the cursor and `offset`, where there is a gap.
    fn pad_to(&mut self, offset: u64)
        ensures
            final(self)@ == (LayoutView {
                spans: padded(old(self)@.spans, old(self)@.cursor, offset),
                ..old(self)@
            }),
    {
        if self.cursor < offset {
            add_padding(&mut self.spans, self.cursor, offset - self.cursor);
        }
    }

    /// Puts the next slot in its place.
    pub fn add(&mut self, slot: Slot)
        ensures
            final(self)@ == placed(old(self)@, slot@),
    {
        self.pad_to(slot.offset as u64);
        let size = slot.size();
        let mut name = slot.name;
        let mut kind = SpanKind::Field;
        if slot.boolean {
            match self.bitfields.add(slot.offset, name.as_str()) {
                PostAddInstruction::Skip => {
                    return ;
                },
                PostAddInstruction::EmitField => {},
            }
            name = String::from_str(FIELD);
            kind = SpanKind::Bitfield;
        } else {
            name = String::from_str(scrub_reserved_name(name.as_str()));
        }
        let unique = get_unique_name(&mut self.counts, name.as_str());
        let mut field_name = String::from_str("pub ");
        field_name.append(unique.as_str());
        let ghost before = span_views(self.spans@);
        self.spans.push(
            Span { kind, offset: slot.offset as u64, size, name: field_name, typ: slot.typ },
        );
        assert(span_views(self.spans@) =~= before.push(self.spans@.last()@));
        self.cursor = slot.offset as u64 + size;
    }

    /// Puts the slots in their places, in their order.
    pub fn add_all(&mut self, slots: Vec<Slot>)
        ensures
            final(self)@ == laid_out(old(self)@, slot_views(slots@)),
    {
        let ghost all = slot_views(slots@);
        let total = slots.len();
        let mut slots = slots;
        let mut rest: Vec<Slot> = Vec::new();
        while slots.len() > 0
            invariant
                slots.len() + rest.len() == total,
                all.len() == total,
                forall|i: int| 0 <= i < slots.len() ==> slots@[i]@ == all[i],
                forall|i: int| 0 <= i < rest.len() ==> rest@[i]@ == all[total - 1 - i],
            decreases slots.len(),
        {
            let last = slots.pop().unwrap();
            rest.push(last);
        }
        let mut i: usize = 0;
        assert(all.subrange(0, 0) =~= Seq::<SlotView>::empty());
        while rest.len() > 0
            invariant
                i + rest.len() == total,
                all.len() == total,
                forall|k: int| 0 <= k < rest.len() ==> rest@[k]@ == all[total - 1 - k],
                self@ == laid_out(old(self)@, all.subrange(0, i as int)),
            decreases rest.len(),
        {
            let slot = rest.pop().unwrap();
            assert(slot@ == all[i as int]);
            assert(all.subrange(0, i + 1).drop_last() =~= all.subrange(0, i as int));
            assert(all.subrange(0, i + 1).last() == all[i as int]);
            self.add(slot);
            i = i + 1;
        }
        assert(all.subrange(0, total as int) =~= all);
    }

    /// Ends the layout of a struct of `size` bytes: what the cursor has not
    /// reached becomes padding.
    pub fn finish(self, size: u64) -> (done: (Vec<Span>, Bitfields))
        ensures
            span_views(done.0@) == finished(self@, size),
            done.1@ == self@.sets,
    {
        let mut layout = self;
        layout.pad_to(size);
        (layout.spans, layout.bitfields)
    }
}

/// Whether the spans lie one behind the other from `from` to `to`: the first
/// begins at `from`, each begins where the one before it ends, and the last
/// ends at `to`.
pub open spec fn covers(spans: Seq<SpanView>, from: nat, to: nat) -> bool
    decreases spans.len(),
{
    if spans.len() == 0 {
        from == to
    } else {
        &&& spans.last().offset + spans.last().size == to
        &&& covers(spans.drop_last(), from, spans.last().offset as nat)
    }
}

/// Whether the slot begins where the layout can place it without a span
/// reaching into another: a boolean that shares a span lies behind the
/// cursor's last move, any other slot does not begin before the cursor.
pub open spec fn fits(layout: LayoutView, slot: SlotView) -> bool {
    if shares_span(layout, slot) {
        slot.offset <= layout.cursor
    } else {
        layout.cursor <= slot.offset
    }
}

/// Whether each of the slots begins where the layout can place it, and the
/// last of them ends within `size` bytes.
pub open spec fn well_formed(layout: LayoutView, slots: Seq<SlotView>, size: u64) -> bool {
    &&& forall|i: int|
        0 <= i < slots.len() ==> fits(
            #[trigger] laid_out(layout, slots.subrange(0, i)),
            slots[i],
        )
    &&& laid_out(layout, slots).cursor <= size
}

/// Padding up to `offset` extends what the spans cover up to `offset`.
pub proof fn lemma_padded_covers(spans: Seq<SpanView>, from: nat, cursor: u64, offset: u64)
    requires
        covers(spans, from, cursor as nat),
        cursor <= offset,
    ensures
        covers(padded(spans, cursor, offset), from, offset as nat),
{
    if cursor < offset {
        let all = spans.push(padding(cursor, (offset - cursor) as u64));
        assert(all.drop_last() =~= spans);
    }
}

/// Placing a slot that fits extends what the spans cover up to the cursor.
pub proof fn lemma_placed_covers(layout: LayoutView, slot: SlotView, from: nat)
    requires
        covers(layout.spans, from, layout.cursor as nat),
        fits(layout, slot),
        slot.end() <= u64::MAX,
    ensures
        covers(placed(layout, slot).spans, from, placed(layout, slot).cursor as nat),
{
    if shares_span(layout, slot) {
        assert(padded(layout.spans, layout.cursor, slot.offset as u64) == layout.spans);
    } else {
        lemma_padded_covers(layout.spans, from, layout.cursor, slot.offset as u64);
        let spans = padded(layout.spans, layout.cursor, slot.offset as u64);
        assert(placed(layout, slot).spans.drop_last() =~= spans);
    }
}

/// The product of two 32-bit sizes and a 32-bit offset fit into 64 bits.
pub proof fn lemma_slot_end(slot: SlotView)
    ensures
        slot.end() <= u64::MAX,
{
    assert(slot.element_size * slot.array_dim <= 0xffff_ffff * 0xffff_ffff) by (nonlinear_arith)
        requires
            0 <= slot.element_size <= 0xffff_ffff,
            0 <= slot.array_dim <= 0xffff_ffff,
    ;
}

/// Placing slots that fit extends what the spans cover up to the cursor.
pub proof fn lemma_laid_out_covers(layout: LayoutView, slots: Seq<SlotView>, from: nat)
    requires
        covers(layout.spans, from, layout.cursor as nat),
        forall|i: int|
            0 <= i < slots.len() ==> fits(
                #[trigger] laid_out(layout, slots.subrange(0, i)),
                slots[i],
            ),
    ensures
        covers(laid_out(layout, slots).spans, from, laid_out(layout, slots).cursor as nat),
    decreases slots.len(),
{
    if slots.len() > 0 {
        let rest = slots.drop_last();
        assert forall|i: int| 0 <= i < rest.len() implies fits(
            #[trigger] laid_out(layout, rest.subrange(0, i)),
            rest[i],
        ) by {
            assert(rest.subrange(0, i) =~= slots.subrange(0, i));
            assert(fits(laid_out(layout, slots.subrange(0, i)), slots[i]));
        }
        lemma_laid_out_covers(layout, rest, from);
        assert(slots.subrange(0, slots.len() - 1) =~= rest);
        assert(fits(laid_out(layout, slots.subrange(0, slots.len() - 1)), slots[slots.len() - 1]));
        lemma_slot_end(slots.last());
        lemma_placed_covers(laid_out(layout, rest), slots.last(), from);
    }
}

/// What is left of spans that lie one behind the other, without the first
/// of them, lies one behind the other from the end of the first.
pub proof fn lemma_covers_rest(spans: Seq<SpanView>, from: nat, to: nat)
    requires
        covers(spans, from, to),
        spans.len() >= 1,
    ensures
        spans[0].offset == from,
        covers(spans.drop_first(), (spans[0].offset + spans[0].size) as nat, to),
    decreases spans.len(),
{
    if spans.len() == 1 {
        let none = Seq::<SpanView>::empty();
        assert(spans.drop_last() =~= none);
        assert(spans.drop_first() =~= none);
        assert(covers(none, from, spans[0].offset as nat));
        assert(covers(none, (spans[0].offset + spans[0].size) as nat, to));
    } else {
        lemma_covers_rest(spans.drop_last(), from, spans.last().offset as nat);
        assert(spans.drop_first().drop_last() =~= spans.drop_last().drop_first());
        assert(spans.drop_first().last() == spans.last());
    }
}

/// The first span of a layout stays the first whatever is placed behind it.
pub proof fn lemma_first_span_stays(layout: LayoutView, slots: Seq<SlotView>)
    requires
        layout.spans.len() >= 1,
    ensures
        laid_out(layout, slots).spans.len() >= 1,
        laid_out(layout, slots).spans[0] == layout.spans[0],
    decreases slots.len(),
{
    if slots.len() > 0 {
        lemma_first_span_stays(layout, slots.drop_last());
    }
}

/// The spans of a well-formed struct lie one behind the other from its first
/// byte to its declared size, and those behind the span of the base from the
/// end of the base: no byte is left out and none is in two spans.
pub proof fn lemma_spans_cover(base: Option<(Seq<char>, u64)>, slots: Seq<SlotView>, size: u64)
    requires
        well_formed(started(base), slots, size),
    ensures
        covers(finished(laid_out(started(base), slots), size), 0, size as nat),
        base is Some ==> covers(
            finished(laid_out(started(base), slots), size).drop_first(),
            base.unwrap().1 as nat,
            size as nat,
        ),
{
    let start = started(base);
    let end = laid_out(start, slots);
    match base {
        Some((name, length)) => {
            assert(start.spans.drop_last() =~= Seq::<SpanView>::empty());
            assert(covers(Seq::<SpanView>::empty(), 0, 0));
            assert(start.spans.last() == base_span(name, length));
            assert(covers(start.spans, 0, length as nat));
        },
        None => {},
    }
    lemma_laid_out_covers(start, slots, 0);
    lemma_padded_covers(end.spans, 0, end.cursor, size);
    if base is Some {
        lemma_first_span_stays(start, slots);
        assert(finished(end, size)[0] == start.spans[0]);
        lemma_covers_rest(finished(end, size), 0, size as nat);
    }
}

/// Whether two slots are booleans at one offset, which share one value.
pub open spec fn share(a: SlotView, b: SlotView) -> bool {
    a.boolean && b.boolean && a.offset == b.offset
}

/// Whether the fields lie apart within the bytes from `from` to `size`: each
/// lies within them, and of any two either the earlier ends before the later
/// begins, or both are booleans at one offset.
pub open spec fn lie_apart(slots: Seq<SlotView>, from: u64, size: u64) -> bool {
    &&& from <= size
    &&& forall|i: int|
        0 <= i < slots.len() ==> from <= (#[trigger] slots[i]).offset && slots[i].end() <= size
    &&& forall|i: int, j: int|
        0 <= i < j < slots.len() ==> share(#[trigger] slots[i], #[trigger] slots[j])
            || slots[i].end() <= slots[j].offset
}

/// What a layout of fields that lie apart looks like after the first `upto`
/// of them: the cursor stands behind the last of them, and the last set of
/// booleans is that of the last boolean among them.
proof fn lemma_walk_apart(base: Option<(Seq<char>, u64)>, slots: Seq<SlotView>, size: u64, upto: int)
    requires
        lie_apart(slots, base_start(base), size),
        0 <= upto <= slots.len(),
    ensures
        laid_out(started(base), slots.subrange(0, upto)).cursor == if upto == 0 {
            base_start(base) as nat
        } else {
            slots[upto - 1].end()
        },
        laid_out(started(base), slots.subrange(0, upto)).sets.len() > 0 ==> exists|b: int|
            0 <= b < upto && slots[b].boolean && slots[b].offset == laid_out(
                started(base),
                slots.subrange(0, upto),
            ).sets.last().offset,
        upto > 0 && slots[upto - 1].boolean ==> joins_last(
            laid_out(started(base), slots.subrange(0, upto)).sets,
            slots[upto - 1].offset,
        ),
        upto < slots.len() ==> fits(
            laid_out(started(base), slots.subrange(0, upto)),
            slots[upto],
        ),
    decreases upto,
{
    let start = started(base);
    let here = laid_out(start, slots.subrange(0, upto));
    if upto == 0 {
        assert(slots.subrange(0, 0) =~= Seq::<SlotView>::empty());
    } else {
        lemma_walk_apart(base, slots, size, upto - 1);
        let before = laid_out(start, slots.subrange(0, upto - 1));
        let slot = slots[upto - 1];
        assert(slots.subrange(0, upto).drop_last() =~= slots.subrange(0, upto - 1));
        assert(slots.subrange(0, upto).last() == slot);
        assert(here == placed(before, slot));
        lemma_slot_end(slot);
        if shares_span(before, slot) {
            let b = choose|b: int|
                0 <= b < upto - 1 && slots[b].boolean && slots[b].offset
                    == before.sets.last().offset;
            assert(share(slots[b], slot));
            lemma_ends_rise(slots, base_start(base), size, b, upto - 2);
            assert(share(slots[upto - 2], slot) || slots[upto - 2].end() <= slot.offset);
            assert(here.sets.last().offset == slot.offset);
        } else if slot.boolean {
            assert(here.sets.last().offset == slot.offset);
        }
        if here.sets.len() > 0 {
            if slot.boolean {
                assert(slots[upto - 1].offset == here.sets.last().offset);
            } else {
                let b = choose|b: int|
                    0 <= b < upto - 1 && slots[b].boolean && slots[b].offset
                        == before.sets.last().offset;
                assert(slots[b].offset == here.sets.last().offset);
            }
        }
    }
    if upto < slots.len() {
        let next = slots[upto];
        if shares_span(here, next) {
            let b = choose|b: int|
                0 <= b < upto && slots[b].boolean && slots[b].offset == here.sets.last().offset;
            lemma_ends_rise(slots, base_start(base), size, b, upto - 1);
        } else if upto > 0 {
            assert(share(slots[upto - 1], next) || slots[upto - 1].end() <= next.offset);
        }
    }
}

/// The ends of fields that lie apart never fall.
proof fn lemma_ends_rise(slots: Seq<SlotView>, from: u64, size: u64, i: int, j: int)
    requires
        lie_apart(slots, from, size),
        0 <= i <= j < slots.len(),
    ensures
        slots[i].end() <= slots[j].end(),
{
    if i < j {
        assert(share(slots[i], slots[j]) || slots[i].end() <= slots[j].offset);
    }
}

/// The offset behind the base of a struct: where its own fields begin.
pub open spec fn base_start(base: Option<(Seq<char>, u64)>) -> u64 {
    match base {
        Some((_, size)) => size,
        None => 0,
    }
}

/// Fields that lie apart behind the base and within the declared size make
/// a well-formed struct.
pub proof fn lemma_apart_is_well_formed(
    base: Option<(Seq<char>, u64)>,
    slots: Seq<SlotView>,
    size: u64,
)
    requires
        lie_apart(slots, base_start(base), size),
    ensures
        well_formed(started(base), slots, size),
{
    assert forall|i: int| 0 <= i < slots.len() implies fits(
        #[trigger] laid_out(started(base), slots.subrange(0, i)),
        slots[i],
    ) by {
        lemma_walk_apart(base, slots, size, i);
    }
    lemma_walk_apart(base, slots, size, slots.len() as int);
    assert(slots.subrange(0, slots.len() as int) =~= slots);
}

/// The spans of a struct whose fields lie apart behind its base and within
/// its declared size lie one behind the other from its first byte to its
/// declared size, and those behind the span of the base from the end of the
/// base: no byte is left out and none is in two spans.
pub proof fn lemma_fields_apart_are_covered(
    base: Option<(Seq<char>, u64)>,
    slots: Seq<SlotView>,
    size: u64,
)
    requires
        lie_apart(slots, base_start(base), size),
    ensures
        covers(finished(laid_out(started(base), slots), size), 0, size as nat),
        base is Some ==> covers(
            finished(laid_out(started(base), slots), size).drop_first(),
            base_start(base) as nat,
            size as nat,
        ),
{
    lemma_apart_is_well_formed(base, slots, size);
    lemma_spans_cover(base, slots, size);
}

} // verus!
