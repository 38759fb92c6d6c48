//! Finding the runtime's tables in the image of its module.

use vstd::prelude::*;

verus! {

/// Why a module could not be opened.
#[derive(Clone, Copy, Debug, PartialEq, Eq, Structural)]
pub enum ErrorKind {
    NullModule,
    GetModuleInformation,
}

/// Whether the bytes of `memory` from `at` on are those of `pattern`; `None`
/// in the pattern stands for any byte.
pub open spec fn matches_at(memory: Seq<u8>, pattern: Seq<Option<u8>>, at: int) -> bool {
    &&& 0 <= at
    &&& at + pattern.len() <= memory.len()
    &&& forall|i: int|
        0 <= i < pattern.len() ==> (#[trigger] pattern[i]) is None || pattern[i] == Some(
            memory[at + i],
        )
}

/// Whether `at` is the first place of `memory` that matches `pattern`.
pub open spec fn is_first_match(memory: Seq<u8>, pattern: Seq<Option<u8>>, at: int) -> bool {
    &&& matches_at(memory, pattern, at)
    &&& forall|earlier: int| 0 <= earlier < at ==> !matches_at(memory, pattern, earlier)
}

fn matches(memory: &[u8], pattern: &[Option<u8>], at: usize) -> (found: bool)
    requires
        at + pattern.len() <= memory.len(),
    ensures
        found == matches_at(memory@, pattern@, at as int),
{
    let mut i: usize = 0;
    while i < pattern.len()
        invariant
            i <= pattern.len(),
            at + pattern.len() <= memory.len(),
            forall|k: int|
                0 <= k < i ==> (#[trigger] pattern@[k]) is None || pattern@[k] == Some(
                    memory@[at + k],
                ),
        decreases pattern.len() - i,
    {
        match pattern[i] {
            Some(byte) => {
                if byte != memory[at + i] {
                    return false;
                }
            },
            None => {},
        }
        i = i + 1;
    }
    true
}

/// The first place in `memory` that matches `pattern`.
pub fn find_pattern(memory: &[u8], pattern: &[Option<u8>]) -> (found: Option<usize>)
    requires
        pattern.len() > 0,
    ensures
        match found {
            Some(at) => is_first_match(memory@, pattern@, at as int),
            None => forall|at: int| !matches_at(memory@, pattern@, at),
        },
{
    if pattern.len() > memory.len() {
        return None;
    }
    let last = memory.len() - pattern.len();
    let mut at: usize = 0;
    while at <= last
        invariant
            at <= last + 1,
            last == memory.len() - pattern.len(),
            forall|earlier: int| 0 <= earlier < at ==> !matches_at(memory@, pattern@, earlier),
        decreases last + 1 - at,
    {
        if matches(memory, pattern, at) {
            return Some(at);
        }
        at = at + 1;
    }
    None
}

/// The pattern that matches exactly the bytes `bytes`.
pub open spec fn exact(bytes: Seq<u8>) -> Seq<Option<u8>> {
    Seq::new(bytes.len(), |i: int| Some(bytes[i]))
}

/// The first place in `memory` where the bytes `find_me` stand.
pub fn find_bytes(memory: &[u8], find_me: &[u8]) -> (found: Option<usize>)
    requires
        find_me.len() > 0,
    ensures
        match found {
            Some(at) => is_first_match(memory@, exact(find_me@), at as int),
            None => forall|at: int| !matches_at(memory@, exact(find_me@), at),
        },
{
    let mut pattern: Vec<Option<u8>> = Vec::new();
    let mut i: usize = 0;
    while i < find_me.len()
        invariant
            i <= find_me.len(),
            pattern@ == exact(find_me@).subrange(0, i as int),
        decreases find_me.len() - i,
    {
        pattern.push(Some(find_me[i]));
        i = i + 1;
        assert(pattern@ =~= exact(find_me@).subrange(0, i as int));
    }
    assert(exact(find_me@).subrange(0, find_me.len() as int) =~= exact(find_me@));
    find_pattern(memory, pattern.as_slice())
}

/// The place of the pointer to the name table behind a match of its pattern.
pub const NAMES_OFFSET: usize = 8;

/// The place of the pointer to the object table behind a match of its
/// pattern.
pub const OBJECTS_OFFSET: usize = 2;

/// The place of the operand of the call behind a match of the pattern of the
/// dispatch entry point.
pub const CALL_OFFSET: usize = 6;

/// The instructions that read the name table.
pub fn names_pattern() -> (pattern: Vec<Option<u8>>)
    ensures
        pattern@ == seq![
            Some(0x66u8),
            Some(0x0Fu8),
            Some(0xEFu8),
            Some(0xC0u8),
            Some(0x66u8),
            Some(0x0Fu8),
            Some(0xD6u8),
            Some(0x05u8),
            None,
            None,
            None,
            None,
        ],
{
    vec![
        Some(0x66u8),
        Some(0x0Fu8),
        Some(0xEFu8),
        Some(0xC0u8),
        Some(0x66u8),
        Some(0x0Fu8),
        Some(0xD6u8),
        Some(0x05u8),
        None,
        None,
        None,
        None,
    ]
}

/// The instructions that read the object table.
pub fn objects_pattern() -> (pattern: Vec<Option<u8>>)
    ensures
        pattern@ == seq![
            Some(0x8Bu8),
            Some(0x0Du8),
            None,
            None,
            None,
            None,
            Some(0x8Bu8),
            Some(0x34u8),
            Some(0xB9u8),
        ],
{
    vec![
        Some(0x8Bu8),
        Some(0x0Du8),
        None,
        None,
        None,
        None,
        Some(0x8Bu8),
        Some(0x34u8),
        Some(0xB9u8),
    ]
}

/// The instructions that call the dispatch entry point.
pub fn process_event_pattern() -> (pattern: Vec<Option<u8>>)
    ensures
        pattern@ == seq![
            Some(0x50u8),
            Some(0x51u8),
            Some(0x52u8),
            Some(0x8Bu8),
            Some(0xCEu8),
            Some(0xE8u8),
            None,
            None,
            None,
            None,
            Some(0x5Eu8),
            Some(0x5Du8),
            Some(0xC2u8),
            Some(0x0Cu8),
            Some(0x00u8),
        ],
{
    vec![
        Some(0x50u8),
        Some(0x51u8),
        Some(0x52u8),
        Some(0x8Bu8),
        Some(0xCEu8),
        Some(0xE8u8),
        None,
        None,
        None,
        None,
        Some(0x5Eu8),
        Some(0x5Du8),
        Some(0xC2u8),
        Some(0x0Cu8),
        Some(0x00u8),
    ]
}

/// The address that a relative call jumps to: the operand `immediate`,
/// counted from the instruction behind the call, around the end of the
/// address space. The call stands at `matched + CALL_OFFSET - 1` and its
/// operand takes four bytes.
pub open spec fn call_target(matched: usize, immediate: usize) -> int {
    let sum = matched + CALL_OFFSET + 4 + immediate;
    if sum > usize::MAX {
        sum - usize::MAX - 1
    } else {
        sum
    }
}

/// The address of the dispatch entry point, from the place `matched` where
/// its pattern matches and the operand `immediate` of the call found there.
pub fn process_event_address(matched: usize, immediate: usize) -> (address: usize)
    requires
        matched + CALL_OFFSET + 4 <= usize::MAX,
    ensures
        address == call_target(matched, immediate),
{
    let next = matched + CALL_OFFSET + 4;
    next.wrapping_add(immediate)
}

/// The text as the wide-character functions of the system take it: a unit
/// that is zero is replaced, and one zero ends the text.
pub open spec fn widened(units: Seq<u16>) -> Seq<u16> {
    Seq::new(
        units.len(),
        |i: int| if units[i] == 0 {
            0xFFFDu16
        } else {
            units[i]
        },
    ).push(0u16)
}

/// Makes the units of a text fit for the wide-character functions of the
/// system.
pub fn widen(units: &[u16]) -> (wide: Vec<u16>)
    ensures
        wide@ == widened(units@),
{
    let mut wide: Vec<u16> = Vec::new();
    let mut i: usize = 0;
    while i < units.len()
        invariant
            i <= units.len(),
            wide@ == widened(units@).subrange(0, i as int),
        decreases units.len() - i,
    {
        if units[i] == 0 {
            wide.push(0xFFFD);
        } else {
            wide.push(units[i]);
        }
        i = i + 1;
        assert(wide@ =~= widened(units@).subrange(0, i as int));
    }
    wide.push(0);
    assert(wide@ =~= widened(units@));
    wide
}

} // verus!
