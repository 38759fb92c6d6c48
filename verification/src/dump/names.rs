//! Names that are unique within one scope.
//!
//! A scope hands out each name as often as it is asked for: the first time
//! bare, the second time with the suffix `_1`, then `_2`, and so on, in the
//! order in which the names are met.

use vstd::prelude::*;
use vstd::string::*;
use crate::text::{decimal, lemma_decimal_injective, lemma_decimal_value, push_decimal, str_eq};

verus! {

/// How often `name` stands in `seen`.
pub open spec fn occurrences(seen: Seq<Seq<char>>, name: Seq<char>) -> nat
    decreases seen.len(),
{
    if seen.len() == 0 {
        0
    } else {
        occurrences(seen.drop_last(), name) + if seen.last() == name {
            1nat
        } else {
            0nat
        }
    }
}

/// The name as it is handed out the `count + 1`-th time.
pub open spec fn unique_name(name: Seq<char>, count: nat) -> Seq<char> {
    if count == 0 {
        name
    } else {
        name + seq!['_'] + decimal(count)
    }
}

/// How often the name at `index` stands before `index`.
pub open spec fn suffix_of(names: Seq<Seq<char>>, index: int) -> nat {
    occurrences(names.subrange(0, index), names[index])
}

/// The names as one scope hands them out when it meets them in this order.
pub open spec fn unique_names(names: Seq<Seq<char>>) -> Seq<Seq<char>> {
    Seq::new(names.len(), |i: int| unique_name(names[i], suffix_of(names, i)))
}

/// The names that a scope has met, in the order in which it met them.
#[derive(Debug)]
pub struct NameCounts {
    pub seen: Vec<String>,
}

impl View for NameCounts {
    type V = Seq<Seq<char>>;

    open spec fn view(&self) -> Seq<Seq<char>> {
        Seq::new(self.seen@.len(), |i: int| self.seen@[i]@)
    }
}

impl NameCounts {
    /// A scope that has met no name.
    pub fn new() -> (counts: NameCounts)
        ensures
            counts@ == Seq::<Seq<char>>::empty(),
    {
        let counts = NameCounts { seen: Vec::new() };
        assert(counts@ =~= Seq::<Seq<char>>::empty());
        counts
    }

    /// Records one more encounter of `name` and says how many came before it.
    pub fn count(&mut self, name: &str) -> (count: usize)
        ensures
            count == occurrences(old(self)@, name@),
            final(self)@ == old(self)@.push(name@),
    {
        let ghost seen = self@;
        let mut count: usize = 0;
        let mut i: usize = 0;
        assert(seen.subrange(0, 0) =~= Seq::<Seq<char>>::empty());
        while i < self.seen.len()
            invariant
                i <= self.seen.len(),
                seen == self@,
                *self == *old(self),
                count <= i,
                count == occurrences(seen.subrange(0, i as int), name@),
            decreases self.seen.len() - i,
        {
            assert(seen.subrange(0, i + 1).drop_last() =~= seen.subrange(0, i as int));
            assert(seen.subrange(0, i + 1).last() == self.seen@[i as int]@);
            if str_eq(self.seen[i].as_str(), name) {
                count = count + 1;
            }
            i = i + 1;
        }
        assert(seen.subrange(0, self.seen.len() as int) =~= seen);
        self.seen.push(String::from_str(name));
        assert(self@ =~= seen.push(name@));
        count
    }
}

/// `name` as the scope hands it out this time.
pub fn get_unique_name(name_counts: &mut NameCounts, name: &str) -> (unique: String)
    ensures
        unique@ == unique_name(name@, occurrences(old(name_counts)@, name@)),
        final(name_counts)@ == old(name_counts)@.push(name@),
{
    let count = name_counts.count(name);
    let mut unique = String::from_str(name);
    if count > 0 {
        unique.push('_');
        push_decimal(&mut unique, count as u64);
        assert(unique@ =~= name@ + seq!['_'] + decimal(count as nat));
    }
    unique
}

/// The name written so that the emitted source can use it as an identifier.
pub open spec fn scrubbed(name: Seq<char>) -> Seq<char> {
    if name == "mod"@ {
        "r#mod"@
    } else {
        name
    }
}

/// The name written so that the emitted source can use it as an identifier.
pub fn scrub_reserved_name(name: &str) -> (usable: &str)
    ensures
        usable@ == scrubbed(name@),
{
    if str_eq(name, "mod") {
        "r#mod"
    } else {
        name
    }
}

/// A name stands as often in two lists one after the other as in both.
pub proof fn lemma_occurrences_concat(a: Seq<Seq<char>>, b: Seq<Seq<char>>, name: Seq<char>)
    ensures
        occurrences(a + b, name) == occurrences(a, name) + occurrences(b, name),
    decreases b.len(),
{
    if b.len() == 0 {
        assert(a + b =~= a);
    } else {
        lemma_occurrences_concat(a, b.drop_last(), name);
        assert((a + b).drop_last() =~= a + b.drop_last());
        assert((a + b).last() == b.last());
    }
}

/// A name stands in a list no times exactly if no entry of the list is the
/// name.
pub proof fn lemma_occurrences_zero(seen: Seq<Seq<char>>, name: Seq<char>)
    ensures
        occurrences(seen, name) == 0 <==> forall|i: int| 0 <= i < seen.len() ==> seen[i] != name,
    decreases seen.len(),
{
    if seen.len() > 0 {
        lemma_occurrences_zero(seen.drop_last(), name);
        if occurrences(seen, name) == 0 {
            assert forall|i: int| 0 <= i < seen.len() implies seen[i] != name by {
                if i < seen.len() - 1 {
                    assert(seen.drop_last()[i] == seen[i]);
                }
            }
        } else {
            if seen.last() != name {
                let i = choose|i: int| 0 <= i < seen.drop_last().len() && seen.drop_last()[i] == name;
                assert(seen[i] == name);
            }
        }
    }
}

/// In one scope the first of the names that collide keeps the bare name.
pub proof fn lemma_first_is_bare(names: Seq<Seq<char>>, index: int)
    requires
        0 <= index < names.len(),
    ensures
        suffix_of(names, index) == 0 <==> forall|earlier: int|
            0 <= earlier < index ==> names[earlier] != names[index],
        suffix_of(names, index) == 0 ==> unique_names(names)[index] == names[index],
{
    lemma_occurrences_zero(names.subrange(0, index), names[index]);
    if suffix_of(names, index) == 0 {
        assert forall|earlier: int| 0 <= earlier < index implies names[earlier] != names[index] by {
            assert(names.subrange(0, index)[earlier] == names[earlier]);
        }
    } else {
        let i = choose|i: int|
            0 <= i < names.subrange(0, index).len() && names.subrange(0, index)[i] == names[index];
        assert(names[i] == names[index]);
    }
}

/// In one scope each later one of the names that collide gets the number of
/// those that came before it: the numbers rise by one from 1 in the order of
/// encounter, whatever the names' order in the alphabet.
pub proof fn lemma_suffixes_count_encounters(names: Seq<Seq<char>>, earlier: int, later: int)
    requires
        0 <= earlier < later < names.len(),
        names[earlier] == names[later],
    ensures
        suffix_of(names, later) == suffix_of(names, earlier) + 1 + occurrences(
            names.subrange(earlier + 1, later),
            names[earlier],
        ),
        suffix_of(names, later) > suffix_of(names, earlier),
        suffix_of(names, later) >= 1,
{
    let name = names[earlier];
    let before = names.subrange(0, earlier);
    let here = seq![name];
    let between = names.subrange(earlier + 1, later);
    assert(names.subrange(0, later) =~= before + here + between);
    lemma_occurrences_concat(before + here, between, name);
    lemma_occurrences_concat(before, here, name);
    assert(here.drop_last() =~= Seq::<Seq<char>>::empty());
    assert(occurrences(Seq::<Seq<char>>::empty(), name) == 0);
    assert(occurrences(here, name) == 1);
}

/// One name is handed out differently each time.
pub proof fn lemma_unique_name_injective(name: Seq<char>, a: nat, b: nat)
    requires
        unique_name(name, a) == unique_name(name, b),
    ensures
        a == b,
{
    lemma_decimal_value(a);
    lemma_decimal_value(b);
    if a != 0 && b != 0 {
        let x = name + seq!['_'] + decimal(a);
        let y = name + seq!['_'] + decimal(b);
        assert(x.subrange(name.len() as int + 1, x.len() as int) =~= decimal(a));
        assert(y.subrange(name.len() as int + 1, y.len() as int) =~= decimal(b));
        lemma_decimal_injective(a, b);
    } else if a != 0 {
        assert(unique_name(name, a).len() > name.len());
    } else if b != 0 {
        assert(unique_name(name, b).len() > name.len());
    }
}

/// In one scope two names that collide are handed out differently.
pub proof fn lemma_collisions_resolved(names: Seq<Seq<char>>, earlier: int, later: int)
    requires
        0 <= earlier < later < names.len(),
        names[earlier] == names[later],
    ensures
        unique_names(names)[earlier] != unique_names(names)[later],
{
    lemma_suffixes_count_encounters(names, earlier, later);
    if unique_names(names)[earlier] == unique_names(names)[later] {
        lemma_unique_name_injective(
            names[earlier],
            suffix_of(names, earlier),
            suffix_of(names, later),
        );
    }
}

} // verus!
