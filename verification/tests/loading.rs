use game_data::item::{ItemType, Rarity};
use game_data::label::Label;
use game_data::load::{
    load_item_lang, load_items, text_table_from_table, DecodeError, LoadError,
    ACCESSORY_FLAG_HASH, COLLECTOPEDIA_LANG_HASH, INFO_LANG_HASH,
};
use game_data::lang::{LanguageData, Nameable};
use game_data::table::{Cell, Column, Row, Scalar, Table, TableSet};

fn int_col(label: Label, v: u32) -> Column {
    Column { label, cell: Cell::Single(Scalar::Int(v)) }
}

fn named_row(name: u32, extra: Vec<Column>) -> Row {
    let mut columns = vec![int_col(Label::from_literal("Name"), name)];
    columns.extend(extra);
    Row { columns }
}

fn text_row(text: &str) -> Row {
    Row {
        columns: vec![Column {
            label: Label::from_literal("name"),
            cell: Cell::Single(Scalar::Text(String::from(text))),
        }],
    }
}

/// All nine mandatory item tables, each empty.
fn empty_item_tables() -> Vec<Table> {
    [
        "ITM_Collection",
        "ITM_Cylinder",
        "ITM_Accessory",
        "ITM_Exchange",
        "ITM_Gem",
        "ITM_Extra",
        "ITM_Info",
        "ITM_Precious",
        "ITM_Collepedia",
    ]
    .iter()
    .map(|name| Table { name: Label::from_literal(name), rows: Vec::new() })
    .collect()
}

fn with_table(mut tables: Vec<Table>, table: Table) -> Vec<Table> {
    tables.retain(|t| t.name != table.name);
    tables.push(table);
    tables
}

#[test]
fn end_to_end_accessory_rules() {
    // Three accessory rows: one bare, one with a rarity, one with the
    // nonzero flag column.
    let accessories = Table {
        name: Label::from_literal("ITM_Accessory"),
        rows: vec![
            named_row(1, vec![]),
            named_row(2, vec![int_col(Label::from_literal("Rarity"), 2)]),
            named_row(
                3,
                vec![
                    int_col(Label::from_literal("Rarity"), 1),
                    int_col(Label::from_hash(ACCESSORY_FLAG_HASH), 1),
                ],
            ),
        ],
    };
    let src = TableSet { tables: with_table(empty_item_tables(), accessories) };
    let reg = load_items(&src).unwrap();

    let row0 = reg.get_item(ItemType::Accessory, 0).unwrap();
    assert_eq!(row0.rarity, Rarity::Common);
    assert_eq!(row0.amount_max, 99);

    let row1 = reg.get_item(ItemType::Accessory, 1).unwrap();
    assert_eq!(row1.rarity, Rarity::Legendary);
    assert_eq!(row1.amount_max, 99);

    let row2 = reg.get_item(ItemType::Accessory, 2).unwrap();
    assert_eq!(row2.rarity, Rarity::Rare);
    assert_eq!(row2.amount_max, 1);

    assert_eq!(reg.get_item(ItemType::Accessory, 3), None);
    assert_eq!(reg.get_item(ItemType::Gem, 0), None);
}

#[test]
fn load_fails_without_a_mandatory_table() {
    let mut tables = empty_item_tables();
    tables.retain(|t| t.name != Label::from_literal("ITM_Gem"));
    let src = TableSet { tables };
    match load_items(&src) {
        Err(e) => assert_eq!(e, LoadError::UnknownTable { table: Label::from_literal("ITM_Gem") }),
        Ok(_) => panic!("load succeeded without a mandatory table"),
    }
}

#[test]
fn load_fails_on_an_undecodable_row() {
    let gems = Table {
        name: Label::from_literal("ITM_Gem"),
        rows: vec![
            named_row(1, vec![]),
            named_row(2, vec![int_col(Label::from_literal("Rarity"), 9)]),
        ],
    };
    let src = TableSet { tables: with_table(empty_item_tables(), gems) };
    match load_items(&src) {
        Err(e) => assert_eq!(
            e,
            LoadError::Row {
                table: Label::from_literal("ITM_Gem"),
                row: 1,
                error: DecodeError::InvalidRarity { value: 9 },
            }
        ),
        Ok(_) => panic!("load succeeded on an undecodable row"),
    }
}

#[test]
fn text_table_maps_positions_to_one_based_ids() {
    let table = Table {
        name: Label::from_hash(INFO_LANG_HASH),
        rows: vec![text_row("first"), text_row("second")],
    };
    let tt = text_table_from_table(&table).unwrap();
    assert_eq!(tt.get(0), None);
    assert_eq!(tt.get(1).map(String::as_str), Some("first"));
    assert_eq!(tt.get(2).map(String::as_str), Some("second"));
    assert_eq!(tt.get(3), None);
}

#[test]
fn text_table_fails_on_a_row_without_text() {
    let table = Table {
        name: Label::from_hash(INFO_LANG_HASH),
        rows: vec![text_row("first"), Row { columns: vec![int_col(Label::from_literal("name"), 4)] }],
    };
    assert_eq!(
        text_table_from_table(&table),
        Err(LoadError::Row {
            table: Label::from_hash(INFO_LANG_HASH),
            row: 1,
            error: DecodeError::MalformedCell { column: Label::from_literal("name") },
        })
    );
}

/// All nine per-category text tables, two of them named by raw hash
/// constants; the accessory table holds one entry.
fn lang_tables() -> Vec<Table> {
    let mut tables: Vec<Table> = [
        "msg_item_collection",
        "msg_item_cylinder",
        "msg_item_exchange",
        "msg_item_gem",
        "msg_item_extra",
        "msg_item_precious",
    ]
    .iter()
    .map(|name| Table { name: Label::from_literal(name), rows: Vec::new() })
    .collect();
    tables.push(Table { name: Label::from_hash(INFO_LANG_HASH), rows: Vec::new() });
    tables.push(Table { name: Label::from_hash(COLLECTOPEDIA_LANG_HASH), rows: Vec::new() });
    tables.push(Table {
        name: Label::from_literal("msg_item_accessory"),
        rows: vec![text_row("Silver Bangle")],
    });
    tables
}

#[test]
fn names_resolve_through_the_language_tables() {
    let accessories = Table {
        name: Label::from_literal("ITM_Accessory"),
        rows: vec![named_row(1, vec![]), named_row(0, vec![])],
    };
    let src = TableSet { tables: with_table(empty_item_tables(), accessories) };
    let reg = load_items(&src).unwrap();

    let lang_src = TableSet { tables: lang_tables() };
    let language = LanguageData { items: load_item_lang(&lang_src).unwrap() };

    let named = reg.get_item(ItemType::Accessory, 0).unwrap();
    assert_eq!(named.get_name(&language), Some("Silver Bangle"));
    assert_eq!(named.display_name(&language), "Silver Bangle");

    // A record whose name column held 0 has no name: its display text is
    // the fixed placeholder under any language, never a lookup failure.
    let unnamed = reg.get_item(ItemType::Accessory, 1).unwrap();
    assert_eq!(unnamed.name_id, None);
    assert_eq!(unnamed.get_name(&language), None);
    assert_eq!(unnamed.display_name(&language), "[no name]");

    let empty_language = LanguageData {
        items: load_item_lang(&TableSet {
            tables: with_table(
                lang_tables(),
                Table { name: Label::from_literal("msg_item_accessory"), rows: Vec::new() },
            ),
        })
        .unwrap(),
    };
    assert_eq!(unnamed.display_name(&empty_language), "[no name]");

    // A name-id its table does not hold misses without failing.
    assert_eq!(named.get_name(&empty_language), None);
    assert_eq!(named.display_name(&empty_language), "[no name]");
}

#[test]
fn language_load_fails_without_a_mandatory_table() {
    let mut tables = lang_tables();
    tables.retain(|t| t.name != Label::from_hash(INFO_LANG_HASH));
    let src = TableSet { tables };
    match load_item_lang(&src) {
        Err(e) => assert_eq!(
            e,
            LoadError::UnknownTable { table: Label::from_hash(INFO_LANG_HASH) }
        ),
        Ok(_) => panic!("language load succeeded without a mandatory table"),
    }
}
