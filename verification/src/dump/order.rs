//! The order in which the fields of a struct are laid out.
//!
//! Fields go by ascending offset. Of two booleans at one offset the one with
//! the smaller mask goes first; any other two fields at one offset keep the
//! order of their declaration.

use vstd::prelude::*;
use std::cmp::Ordering;

verus! {

/// What the order of a field depends on.
#[derive(Clone, Copy, Debug)]
pub struct FieldKey {
    /// The field's node.
    pub node: usize,
    pub offset: u32,
    /// Whether the field is a boolean property.
    pub boolean: bool,
    /// The mask of a boolean's bit.
    pub bitmask: u32,
}

/// How `p` stands to `q` in the layout.
pub open spec fn compared(p: FieldKey, q: FieldKey) -> Ordering {
    if p.offset < q.offset {
        Ordering::Less
    } else if p.offset > q.offset {
        Ordering::Greater
    } else if p.boolean && q.boolean {
        if p.bitmask < q.bitmask {
            Ordering::Less
        } else if p.bitmask > q.bitmask {
            Ordering::Greater
        } else {
            Ordering::Equal
        }
    } else {
        Ordering::Equal
    }
}

/// How `p` stands to `q` in the layout.
pub fn property_compare(p: &FieldKey, q: &FieldKey) -> (order: Ordering)
    ensures
        order == compared(*p, *q),
{
    if p.offset < q.offset {
        Ordering::Less
    } else if p.offset > q.offset {
        Ordering::Greater
    } else if p.boolean && q.boolean {
        if p.bitmask < q.bitmask {
            Ordering::Less
        } else if p.bitmask > q.bitmask {
            Ordering::Greater
        } else {
            Ordering::Equal
        }
    } else {
        Ordering::Equal
    }
}

/// Whether `p` has to stand before `q`.
pub open spec fn precedes(p: FieldKey, q: FieldKey) -> bool {
    compared(p, q) == Ordering::Less
}

/// Whether `p` has to stand before `q`.
pub fn goes_before(p: &FieldKey, q: &FieldKey) -> (before: bool)
    ensures
        before == precedes(*p, *q),
{
    match property_compare(p, q) {
        Ordering::Less => true,
        Ordering::Equal => false,
        Ordering::Greater => false,
    }
}

/// The ordered fields `fields` with `field` put behind the last field that it
/// does not have to stand before.
pub open spec fn inserted(fields: Seq<FieldKey>, field: FieldKey) -> Seq<FieldKey>
    decreases fields.len(),
{
    if fields.len() == 0 {
        seq![field]
    } else if precedes(field, fields.last()) {
        inserted(fields.drop_last(), field).push(fields.last())
    } else {
        fields.push(field)
    }
}

/// The fields in the order of the layout: each field in turn is put behind
/// the last of the fields before it that it does not have to stand before.
pub open spec fn sorted_fields(fields: Seq<FieldKey>) -> Seq<FieldKey>
    decreases fields.len(),
{
    if fields.len() == 0 {
        Seq::empty()
    } else {
        inserted(sorted_fields(fields.drop_last()), fields.last())
    }
}

/// Whether the offsets of the fields never fall.
pub open spec fn ascending(fields: Seq<FieldKey>) -> bool {
    forall|i: int, j: int| 0 <= i <= j < fields.len() ==> fields[i].offset <= fields[j].offset
}

/// Where a field goes among ordered fields.
proof fn lemma_inserted_at(fields: Seq<FieldKey>, field: FieldKey, at: int)
    requires
        0 <= at <= fields.len(),
        forall|k: int| at <= k < fields.len() ==> precedes(field, #[trigger] fields[k]),
        at == 0 || !precedes(field, fields[at - 1]),
    ensures
        inserted(fields, field) == fields.insert(at, field),
    decreases fields.len(),
{
    if fields.len() == 0 {
        assert(fields.insert(at, field) =~= seq![field]);
    } else if at == fields.len() {
        assert(fields.insert(at, field) =~= fields.push(field));
    } else {
        assert(precedes(field, fields[fields.len() - 1]));
        let rest = fields.drop_last();
        assert forall|k: int| at <= k < rest.len() implies precedes(field, #[trigger] rest[k]) by {
            assert(rest[k] == fields[k]);
        }
        lemma_inserted_at(rest, field, at);
        assert(rest.insert(at, field).push(fields.last()) =~= fields.insert(at, field));
    }
}

/// Puts the fields into the order of the layout.
pub fn sort_fields(fields: &Vec<FieldKey>) -> (sorted: Vec<FieldKey>)
    ensures
        sorted@ == sorted_fields(fields@),
{
    let mut sorted: Vec<FieldKey> = Vec::new();
    let mut i: usize = 0;
    assert(fields@.subrange(0, 0) =~= Seq::<FieldKey>::empty());
    while i < fields.len()
        invariant
            i <= fields.len(),
            sorted.len() == i,
            sorted@ == sorted_fields(fields@.subrange(0, i as int)),
        decreases fields.len() - i,
    {
        let field = fields[i];
        let mut at: usize = sorted.len();
        while at > 0 && goes_before(&field, &sorted[at - 1])
            invariant
                at <= sorted.len(),
                forall|k: int| at <= k < sorted.len() ==> precedes(field, #[trigger] sorted@[k]),
            decreases at,
        {
            at = at - 1;
        }
        proof {
            lemma_inserted_at(sorted@, field, at as int);
            assert(fields@.subrange(0, i + 1).drop_last() =~= fields@.subrange(0, i as int));
            assert(fields@.subrange(0, i + 1).last() == field);
        }
        sorted.insert(at, field);
        i = i + 1;
    }
    assert(fields@.subrange(0, fields.len() as int) =~= fields@);
    sorted
}

/// Putting a field among fields with ascending offsets keeps the offsets
/// ascending and adds nothing but the field.
pub proof fn lemma_inserted_ascending(fields: Seq<FieldKey>, field: FieldKey)
    requires
        ascending(fields),
    ensures
        ascending(inserted(fields, field)),
        inserted(fields, field).to_multiset() == fields.to_multiset().insert(field),
        inserted(fields, field).len() == fields.len() + 1,
    decreases fields.len(),
{
    broadcast use vstd::seq_lib::group_to_multiset_ensures;

    if fields.len() == 0 {
        assert(fields =~= Seq::<FieldKey>::empty());
        assert(seq![field] =~= fields.push(field));
    } else if precedes(field, fields.last()) {
        let rest = fields.drop_last();
        assert forall|i: int, j: int| 0 <= i <= j < rest.len() implies rest[i].offset
            <= rest[j].offset by {
            assert(rest[i] == fields[i] && rest[j] == fields[j]);
        }
        lemma_inserted_ascending(rest, field);
        let placed = inserted(rest, field);
        let all = placed.push(fields.last());
        assert forall|i: int, j: int| 0 <= i <= j < all.len() implies all[i].offset
            <= all[j].offset by {
            if j == all.len() - 1 && i < j {
                // Every field of `placed` is `field` or one of `rest`.
                assert(placed.to_multiset().count(placed[i]) > 0);
                if placed[i] != field {
                    assert(rest.to_multiset().count(placed[i]) > 0);
                    let k = choose|k: int| 0 <= k < rest.len() && rest[k] == placed[i];
                    assert(fields[k] == placed[i]);
                }
            }
        }
        assert(fields =~= rest.push(fields.last()));
    } else {
        let all = fields.push(field);
        assert forall|i: int, j: int| 0 <= i <= j < all.len() implies all[i].offset
            <= all[j].offset by {
            if j == all.len() - 1 && i < j {
                assert(fields[i].offset <= fields.last().offset);
            }
        }
    }
}

/// The ordered fields have ascending offsets and are the given fields, each
/// as often as it was given.
pub proof fn lemma_sorted_fields(fields: Seq<FieldKey>)
    ensures
        ascending(sorted_fields(fields)),
        sorted_fields(fields).to_multiset() == fields.to_multiset(),
        sorted_fields(fields).len() == fields.len(),
    decreases fields.len(),
{
    broadcast use vstd::seq_lib::group_to_multiset_ensures;

    if fields.len() == 0 {
        assert(fields =~= Seq::<FieldKey>::empty());
    } else {
        lemma_sorted_fields(fields.drop_last());
        lemma_inserted_ascending(sorted_fields(fields.drop_last()), fields.last());
        assert(fields =~= fields.drop_last().push(fields.last()));
    }
}

/// Every one of the ordered fields is one of the given fields.
pub proof fn lemma_sorted_members(fields: Seq<FieldKey>, index: int)
    requires
        0 <= index < sorted_fields(fields).len(),
    ensures
        exists|origin: int| 0 <= origin < fields.len() && fields[origin] == sorted_fields(fields)[index],
{
    broadcast use vstd::seq_lib::group_to_multiset_ensures;

    lemma_sorted_fields(fields);
    let field = sorted_fields(fields)[index];
    assert(sorted_fields(fields).to_multiset().count(field) > 0);
    assert(fields.to_multiset().count(field) > 0);
    assert(fields.contains(field));
}

} // verus!
