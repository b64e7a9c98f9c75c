use game_data::label::Label;

// Hashing must be deterministic and stable across runs and builds, and a
// literal-derived label must equal the raw-constant label of the same name:
// a silent mismatch would surface as "not found" for present entries.

#[test]
fn literal_labels_match_known_hash_constants() {
    assert_eq!(Label::from_literal("ITM_Collection"), Label::from_hash(0x34E61888));
    assert_eq!(Label::from_literal("ITM_Cylinder"), Label::from_hash(0xEBE6EBF4));
    assert_eq!(Label::from_literal("ITM_Accessory"), Label::from_hash(0x9590836C));
    assert_eq!(Label::from_literal("ITM_Exchange"), Label::from_hash(0xCA4B7760));
    assert_eq!(Label::from_literal("ITM_Gem"), Label::from_hash(0xB1B9843D));
    assert_eq!(Label::from_literal("ITM_Extra"), Label::from_hash(0x6D2A47CA));
    assert_eq!(Label::from_literal("ITM_Info"), Label::from_hash(0x2B0FB3E4));
    assert_eq!(Label::from_literal("ITM_Precious"), Label::from_hash(0x5A69FC7A));
    assert_eq!(Label::from_literal("ITM_Collepedia"), Label::from_hash(0xDCD7C228));
}

#[test]
fn literal_lang_labels_match_known_hash_constants() {
    assert_eq!(Label::from_literal("msg_item_collection"), Label::from_hash(0x133CD173));
    assert_eq!(Label::from_literal("msg_item_cylinder"), Label::from_hash(0x24810A75));
    assert_eq!(Label::from_literal("msg_item_accessory"), Label::from_hash(0x9AA4C028));
    assert_eq!(Label::from_literal("msg_item_exchange"), Label::from_hash(0x6E269557));
    assert_eq!(Label::from_literal("msg_item_gem"), Label::from_hash(0xD0A5476B));
    assert_eq!(Label::from_literal("msg_item_extra"), Label::from_hash(0x16630085));
    assert_eq!(Label::from_literal("msg_item_precious"), Label::from_hash(0x3550B295));
}

#[test]
fn column_labels_match_known_hash_constants() {
    assert_eq!(Label::from_literal("Rarity"), Label::from_hash(0x2647E765));
    assert_eq!(Label::from_literal("Name"), Label::from_hash(0x25EFA387));
    assert_eq!(Label::from_literal("name"), Label::from_hash(0xDBAF43F0));
}

#[test]
fn hashing_is_deterministic() {
    let a = Label::from_literal("ITM_Accessory");
    let b = Label::from_literal("ITM_Accessory");
    assert_eq!(a, b);
    assert_eq!(a.hash, b.hash);
}

#[test]
fn distinct_names_hash_distinctly() {
    assert_ne!(Label::from_literal("ITM_Accessory"), Label::from_literal("ITM_Gem"));
    assert_ne!(Label::from_literal("Name"), Label::from_literal("name"));
}
