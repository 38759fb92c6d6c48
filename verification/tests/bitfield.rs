use blps::dump::bitfield::{
    emit_accessors, identifier_name, strip_prefix, Bitfield, Bitfields, PostAddInstruction, FIELD,
};
use blps::dump::names::NameCounts;
use blps::genial::{Gen, Scope, Writer};
use blps::hook::bitfield::{is_bit_set, set_bit};

#[test]
fn bits_read_back() {
    assert!(is_bit_set(0b101, 0));
    assert!(!is_bit_set(0b101, 1));
    assert!(is_bit_set(0b101, 2));
    assert!(is_bit_set(0x8000_0000, 31));
    assert!(!is_bit_set(0x7fff_ffff, 31));
}

#[test]
fn setting_a_bit_keeps_the_others() {
    for bit in 0..32u8 {
        let mut value = 0xA5A5_5A5Au32;
        let before = value;
        set_bit(&mut value, bit, true);
        assert!(is_bit_set(value, bit));
        for other in 0..32u8 {
            if other != bit {
                assert_eq!(is_bit_set(value, other), is_bit_set(before, other));
            }
        }
        set_bit(&mut value, bit, false);
        assert!(!is_bit_set(value, bit));
        assert_eq!(value, before & !(1u32 << bit));
        set_bit(&mut value, bit, false);
        assert_eq!(value, before & !(1u32 << bit));
    }
}

#[test]
fn set_then_clear_restores_a_clear_bit() {
    let mut value = 0b1000u32;
    set_bit(&mut value, 1, true);
    assert_eq!(value, 0b1010);
    set_bit(&mut value, 1, false);
    assert_eq!(value, 0b1000);
}

#[test]
fn booleans_at_one_offset_share_a_set() {
    let mut bitfields = Bitfields::new();
    assert_eq!(bitfields.add(0x10, "bOne"), PostAddInstruction::EmitField);
    assert_eq!(bitfields.add(0x10, "bTwo"), PostAddInstruction::Skip);
    assert_eq!(bitfields.add(0x10, "bThree"), PostAddInstruction::Skip);
    assert_eq!(bitfields.add(0x14, "bFour"), PostAddInstruction::EmitField);
    assert_eq!(bitfields.add(0x10, "bFive"), PostAddInstruction::EmitField);
    assert_eq!(bitfields.bitfields.len(), 3);
    assert_eq!(bitfields.bitfields[0].offset, 0x10);
    assert_eq!(bitfields.bitfields[0].fields, vec!["bOne", "bTwo", "bThree"]);
    assert_eq!(bitfields.bitfields[1].fields, vec!["bFour"]);
    assert_eq!(bitfields.bitfields[2].fields, vec!["bFive"]);
}

#[test]
fn new_bitfield_always_asks_for_a_field() {
    let mut bitfields = Bitfields::new();
    assert_eq!(bitfields.new_bitfield(4, "a"), PostAddInstruction::EmitField);
    assert_eq!(bitfields.new_bitfield(4, "b"), PostAddInstruction::EmitField);
    assert_eq!(bitfields.bitfields.len(), 2);
}

#[test]
fn boolean_prefix_is_stripped_before_an_upper_case_letter_only() {
    assert_eq!(strip_prefix("bIsActive"), "IsActive");
    assert_eq!(strip_prefix("bX"), "X");
    assert_eq!(strip_prefix("bounds"), "bounds");
    assert_eq!(strip_prefix("b"), "b");
    assert_eq!(strip_prefix("b9"), "b9");
    assert_eq!(strip_prefix("BIsActive"), "BIsActive");
    assert_eq!(strip_prefix(""), "");
}

#[test]
fn sets_are_named_by_their_number() {
    assert_eq!(FIELD, "bitfield");
    assert_eq!(identifier_name(0), "bitfield");
    assert_eq!(identifier_name(1), "bitfield_1");
    assert_eq!(identifier_name(12), "bitfield_12");
}

#[test]
fn accessors_of_one_bit() {
    let mut buffer = String::new();
    let scope = Scope::new(Writer::new());
    let imp = scope.imp(&mut buffer, "Pawn");
    emit_accessors(&imp, &mut buffer, "bitfield", 3, "bIsDead", "is_dead");
    imp.close(&mut buffer);
    assert_eq!(
        buffer,
        "impl Pawn {\n    // get bIsDead\n    pub fn is_is_dead(&self, ) -> bool {\n        is_bit_set(self.bitfield, 3)\n    }\n\n    // set bIsDead\n    pub fn set_is_dead(&mut self, value: bool, ) {\n        set_bit(&mut self.bitfield, 3, value);\n    }\n\n}\n\n"
    );
}

#[test]
fn set_emits_snake_case_accessors_bit_by_bit() {
    let mut buffer = String::new();
    let scope = Scope::new(Writer::new());
    let imp = scope.imp(&mut buffer, "Pawn");
    let mut bitfield = Bitfield::new(0x10, "bIsDead");
    bitfield.add("bCanJump");
    let mut counts = NameCounts::new();
    bitfield.emit(&imp, &mut buffer, &mut counts, "bitfield_1");
    imp.close(&mut buffer);
    assert_eq!(
        buffer,
        "impl Pawn {\n    // get bIsDead\n    pub fn is_is_dead(&self, ) -> bool {\n        is_bit_set(self.bitfield_1, 0)\n    }\n\n    // set bIsDead\n    pub fn set_is_dead(&mut self, value: bool, ) {\n        set_bit(&mut self.bitfield_1, 0, value);\n    }\n\n    // get bCanJump\n    pub fn is_can_jump(&self, ) -> bool {\n        is_bit_set(self.bitfield_1, 1)\n    }\n\n    // set bCanJump\n    pub fn set_can_jump(&mut self, value: bool, ) {\n        set_bit(&mut self.bitfield_1, 1, value);\n    }\n\n}\n\n"
    );
    assert_eq!(counts.seen, vec!["bIsDead", "is_dead", "bCanJump", "can_jump"]);
}

#[test]
fn names_that_collide_are_numbered_across_the_sets_of_a_struct() {
    let mut buffer = String::new();
    let scope = Scope::new(Writer::new());
    let mut bitfields = Bitfields::new();
    bitfields.add(0, "bHidden");
    bitfields.add(0, "bHidden");
    bitfields.add(8, "Hidden");
    bitfields.emit(&scope, &mut buffer, "Actor");
    let names: Vec<&str> = buffer
        .lines()
        .filter(|line| line.contains("fn "))
        .map(|line| line.trim())
        .collect();
    assert_eq!(
        names,
        vec![
            "pub fn is_hidden(&self, ) -> bool {",
            "pub fn set_hidden(&mut self, value: bool, ) {",
            "pub fn is_hidden_1(&self, ) -> bool {",
            "pub fn set_hidden_1(&mut self, value: bool, ) {",
            "pub fn is_hidden_1(&self, ) -> bool {",
            "pub fn set_hidden_1(&mut self, value: bool, ) {",
        ]
    );
    let comments: Vec<&str> = buffer
        .lines()
        .filter(|line| line.contains("// get"))
        .map(|line| line.trim())
        .collect();
    assert_eq!(comments, vec!["// get bHidden", "// get bHidden_1", "// get Hidden"]);
    assert!(buffer.contains("is_bit_set(self.bitfield, 1)"));
    assert!(buffer.contains("is_bit_set(self.bitfield_1, 0)"));
    assert!(buffer.starts_with("impl Actor {\n"));
    assert!(buffer.ends_with("    }\n\n}\n\n"));
}

#[test]
fn a_name_that_is_its_own_snake_case_is_numbered() {
    let mut buffer = String::new();
    let scope = Scope::new(Writer::new());
    let mut bitfields = Bitfields::new();
    bitfields.add(0, "hidden");
    bitfields.emit(&scope, &mut buffer, "Actor");
    assert!(buffer.contains("    // get hidden\n    pub fn is_hidden_1(&self, ) -> bool {\n"));
    assert!(buffer.contains("    // set hidden\n    pub fn set_hidden_1(&mut self, value: bool, ) {\n"));
}

#[test]
fn struct_without_booleans_gets_no_impl() {
    let mut buffer = String::new();
    let scope = Scope::new(Writer::new());
    Bitfields::new().emit(&scope, &mut buffer, "Actor");
    assert_eq!(buffer, "");
}
